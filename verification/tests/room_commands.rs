use hexfish::protocol::ClientMsg;
use hexfish::room::MultiplayerViewer;
use hexfish::roomstore::{ActiveRoom, CommandOutcome, RoomAnswer, RoomStore};

const NOW: u64 = 1_700_000_000_000;

fn send(rooms: &mut RoomStore, user: &str, active: &mut Option<ActiveRoom>, msg: ClientMsg) -> CommandOutcome {
    rooms.handle_command(user, None, active, &msg, NOW)
}

fn create(code: &str, time_minutes: Option<u32>, increment_seconds: Option<u32>) -> ClientMsg {
    ClientMsg::CreateMultiplayerRoom {
        preferred_player: Some(0),
        code: Some(code.into()),
        is_public: Some(true),
        time_minutes,
        increment_seconds,
    }
}

fn join(code: &str) -> ClientMsg {
    ClientMsg::JoinMultiplayerRoom { code: code.into() }
}

fn error_text(outcome: &CommandOutcome) -> &str {
    match &outcome.answer {
        RoomAnswer::Error { message } => message,
        _ => panic!("expected an error answer"),
    }
}

/// The socket is cut off without leaving: its seat stays taken.
fn disconnect(rooms: &mut RoomStore, active: &mut Option<ActiveRoom>) -> bool {
    match active.take() {
        Some(a) => {
            rooms.detach_socket(&a.code, a.room_id, a.socket_id, a.viewer, false, NOW);
            true
        }
        None => false,
    }
}

#[test]
fn multiplayer_chat_sanitizes_and_caps_messages() {
    let mut rooms = RoomStore::new(false);
    let mut active = None;
    send(&mut rooms, "user_a", &mut active, create("CHAT02", None, None));

    let empty = send(&mut rooms, "user_a", &mut active, ClientMsg::SendMultiplayerChat { text: " \t ".into() });
    assert!(error_text(&empty).contains("empty"));

    let long = "x".repeat(300);
    let capped = send(
        &mut rooms,
        "user_a",
        &mut active,
        ClientMsg::SendMultiplayerChat { text: format!("hi\u{0007}{long}") },
    );
    match &capped.answer {
        RoomAnswer::Chat { messages } => {
            let text = &messages[0].text;
            assert!(text.starts_with("hix"));
            assert_eq!(text.chars().count(), 280);
            assert!(!text.chars().any(char::is_control));
        }
        _ => panic!("expected capped chat"),
    }
}

#[test]
fn multiplayer_chat_history_is_capped_to_latest_messages() {
    let mut rooms = RoomStore::new(false);
    let mut active = None;
    send(&mut rooms, "user_a", &mut active, create("CHAT03", None, None));

    let limit = hexfish::chat::MULTIPLAYER_CHAT_HISTORY_LIMIT;
    let mut last_len = 0;
    let mut first_text = String::new();
    let mut last_text = String::new();
    for i in 0..(limit + 2) {
        let outcome = send(
            &mut rooms,
            "user_a",
            &mut active,
            ClientMsg::SendMultiplayerChat { text: format!("msg {i}") },
        );
        match &outcome.answer {
            RoomAnswer::Chat { messages } => {
                last_len = messages.len();
                first_text = messages.first().unwrap().text.clone();
                last_text = messages.last().unwrap().text.clone();
            }
            _ => panic!("expected chat response"),
        }
    }
    assert_eq!(last_len, limit);
    assert_eq!(first_text, "msg 2");
    assert_eq!(last_text, format!("msg {}", limit + 1));
}

#[test]
fn multiplayer_chat_survives_reconnect() {
    let mut rooms = RoomStore::new(false);
    let mut active_a = None;
    let mut active_b = None;
    send(&mut rooms, "user_a", &mut active_a, create("CHAT01", None, None));
    send(&mut rooms, "user_b", &mut active_b, join("CHAT01"));

    let sent = send(
        &mut rooms,
        "user_a",
        &mut active_a,
        ClientMsg::SendMultiplayerChat { text: " hello opponent ".into() },
    );
    match &sent.answer {
        RoomAnswer::Chat { messages } => {
            assert_eq!(messages.len(), 1);
            assert_eq!(messages[0].player, 0);
            assert_eq!(messages[0].text, "hello opponent");
        }
        _ => panic!("expected chat response"),
    }

    let refresh = send(&mut rooms, "user_b", &mut active_b, ClientMsg::GetMultiplayerRoom);
    match &refresh.answer {
        RoomAnswer::Room { chat: Some(chat), .. } => assert_eq!(chat[0].text, "hello opponent"),
        _ => panic!("expected the room with its chat"),
    }

    assert!(disconnect(&mut rooms, &mut active_b));
    let rejoin = send(&mut rooms, "user_b", &mut active_b, join("CHAT01"));
    match &rejoin.answer {
        RoomAnswer::Room { chat: Some(chat), .. } => assert_eq!(chat[0].text, "hello opponent"),
        _ => panic!("expected the room with its chat"),
    }
}

#[test]
fn multiplayer_full_room_closes_when_last_player_disconnects_and_spectator_can_refresh() {
    let mut rooms = RoomStore::new(false);
    let code = "CLOSE1".to_string();
    let mut active_a = None;
    let mut active_b = None;
    let mut active_c = None;

    let created = send(&mut rooms, "user_a", &mut active_a, create(&code, None, None));
    assert!(matches!(created.answer, RoomAnswer::Room { .. }));
    let joined = send(&mut rooms, "user_b", &mut active_b, join(&code));
    assert!(matches!(joined.answer, RoomAnswer::Room { .. }));
    let spectator_joined = send(&mut rooms, "user_c", &mut active_c, join(&code));
    match &spectator_joined.answer {
        RoomAnswer::Room { view, .. } => assert_eq!(view.viewer_role, "spectator"),
        _ => panic!("expected the spectator's room"),
    }

    assert!(disconnect(&mut rooms, &mut active_a));
    let lobby = rooms.lobby_rooms();
    assert_eq!(lobby.len(), 1);
    assert_eq!(lobby[0].code, code);
    assert_eq!(lobby[0].connected, 1);
    assert_eq!(lobby[0].spectator_count, 1);
    assert!(lobby[0].empty_room_closes_at_ms.is_none());

    assert!(disconnect(&mut rooms, &mut active_b));
    assert!(rooms.lobby_rooms().is_empty());

    let mut active_d = None;
    let rejected = send(&mut rooms, "user_d", &mut active_d, join(&code));
    assert!(error_text(&rejected).contains("not found"));

    let refreshed = send(&mut rooms, "user_c", &mut active_c, ClientMsg::GetMultiplayerRoom);
    match &refreshed.answer {
        RoomAnswer::Room { view, .. } => {
            assert_eq!(view.code, code);
            assert_eq!(view.viewer_role, "spectator");
        }
        _ => panic!("expected the closed room for its spectator"),
    }

    assert!(disconnect(&mut rooms, &mut active_c));
    assert!(rooms.closed_rooms.is_empty());
}

#[test]
fn multiplayer_waiting_room_closes_when_only_player_disconnects() {
    let mut rooms = RoomStore::new(false);
    let code = "EMPTY1".to_string();
    let mut active_a = None;

    let created = send(&mut rooms, "user_a", &mut active_a, create(&code, None, None));
    assert!(matches!(created.answer, RoomAnswer::Room { .. }));
    let lobby = rooms.lobby_rooms();
    assert_eq!(lobby.len(), 1);
    assert_eq!(lobby[0].code, code);
    assert_eq!(lobby[0].connected, 1);
    assert_eq!(lobby[0].spectator_count, 0);
    assert!(lobby[0].empty_room_closes_at_ms.is_none());

    assert!(disconnect(&mut rooms, &mut active_a));
    assert!(rooms.lobby_rooms().is_empty());
    match rooms.join_room_with_display_name("user_b", None, &code, NOW) {
        Ok(_) => panic!("expected closed room to reject join"),
        Err(err) => assert!(err.contains("not found")),
    }
}

#[test]
fn multiplayer_reconnect_replaces_previous_player_socket() {
    let mut rooms = RoomStore::new(false);
    let (code, player_a) = rooms
        .create_room("user_a", None, Some(0), Some("REJOIN"), None, None, None, NOW)
        .unwrap();
    rooms.join_room_with_display_name("user_b", None, "REJOIN", NOW).unwrap();
    let index = rooms.find_room(&code).unwrap();
    let room_id = rooms.rooms[index].room_id;
    let old_socket = rooms.rooms[index]
        .register_socket("user_a", None, MultiplayerViewer::Player(player_a), NOW)
        .unwrap();
    let new_socket = rooms.rooms[index]
        .register_socket("user_a", None, MultiplayerViewer::Player(player_a), NOW)
        .unwrap();

    assert!(!rooms.rooms[index].socket_registered(old_socket));
    assert!(rooms.rooms[index].socket_registered(new_socket));

    let mut old_active = Some(ActiveRoom {
        code: code.clone(),
        room_id,
        socket_id: old_socket,
        viewer: MultiplayerViewer::Player(player_a),
    });
    let outcome = send(&mut rooms, "user_a", &mut old_active, ClientMsg::PlayMultiplayerAction { action: 0 });

    assert!(old_active.is_none());
    assert!(error_text(&outcome).contains("Join a multiplayer room"));
}

#[test]
fn multiplayer_get_room_refresh_reports_current_presence() {
    let mut rooms = RoomStore::new(false);
    let mut active_a = None;
    let mut active_b = None;
    send(&mut rooms, "user_a", &mut active_a, create("SYNC12", None, None));
    send(&mut rooms, "user_b", &mut active_b, join("SYNC12"));

    let outcome = send(&mut rooms, "user_a", &mut active_a, ClientMsg::GetMultiplayerRoom);
    match &outcome.answer {
        RoomAnswer::Room { view, .. } => {
            assert!(view.players[0].connected);
            assert!(view.players[1].connected);
        }
        _ => panic!("expected room refresh response"),
    }
}

#[test]
fn multiplayer_rejects_play_before_opponent_joins() {
    let mut rooms = RoomStore::new(false);
    let mut active = None;
    let created = send(
        &mut rooms,
        "user_a",
        &mut active,
        ClientMsg::CreateMultiplayerRoom {
            preferred_player: Some(0),
            code: None,
            is_public: None,
            time_minutes: None,
            increment_seconds: None,
        },
    );
    assert!(matches!(created.answer, RoomAnswer::Room { .. }));

    let outcome = send(&mut rooms, "user_a", &mut active, ClientMsg::PlayMultiplayerAction { action: 0 });
    assert!(error_text(&outcome).contains("waiting"));
}

#[test]
fn multiplayer_adds_clock_time_to_opponent_only() {
    let mut rooms = RoomStore::new(false);
    let mut active = None;
    send(&mut rooms, "user_a", &mut active, create("TIME15", Some(10), Some(3)));

    let outcome = send(&mut rooms, "user_a", &mut active, ClientMsg::AddMultiplayerOpponentTime);
    match &outcome.answer {
        RoomAnswer::Room { view, .. } => {
            assert_eq!(view.players[0].time_millis, Some(600_000));
            assert_eq!(view.players[1].time_millis, Some(615_000));
        }
        _ => panic!("expected room clock response"),
    }
}

#[test]
fn anonymous_multiplayer_rooms_start_waiting() {
    let mut rooms = RoomStore::new(false);
    let mut active = None;
    let outcome = send(
        &mut rooms,
        "anonymous:a",
        &mut active,
        ClientMsg::CreateMultiplayerRoom {
            preferred_player: Some(0),
            code: None,
            is_public: None,
            time_minutes: None,
            increment_seconds: None,
        },
    );
    match &outcome.answer {
        RoomAnswer::Room { view, .. } => {
            assert_eq!(view.status, "waiting");
            assert_eq!(view.local_player, Some(0));
        }
        _ => panic!("expected anonymous room creation"),
    }
    assert!(outcome.lobby_changed);
}

#[test]
fn multiplayer_spectator_receives_state_updates_and_cannot_act() {
    let mut rooms = RoomStore::new(false);
    let mut active_a = None;
    let mut active_b = None;
    let mut active_c = None;
    send(&mut rooms, "user_a", &mut active_a, create("WATCH1", Some(10), Some(0)));
    send(&mut rooms, "user_b", &mut active_b, join("WATCH1"));
    let watched = send(&mut rooms, "user_c", &mut active_c, join("WATCH1"));
    match &watched.answer {
        RoomAnswer::Room { view, .. } => {
            assert_eq!(view.viewer_role, "spectator");
            assert_eq!(view.local_player, None);
            assert_eq!(view.spectators.len(), 1);
            assert!(view.spectators[0].you);
        }
        _ => panic!("expected spectator join response"),
    }

    for msg in [
        ClientMsg::PlayMultiplayerAction { action: 0 },
        ClientMsg::SendMultiplayerChat { text: "watching".into() },
        ClientMsg::ResignMultiplayerGame,
        ClientMsg::AddMultiplayerOpponentTime,
    ] {
        let outcome = send(&mut rooms, "user_c", &mut active_c, msg);
        assert!(error_text(&outcome).contains("Spectators cannot"));
    }

    let moved = send(&mut rooms, "user_a", &mut active_a, ClientMsg::PlayMultiplayerAction { action: 0 });
    assert!(matches!(moved.answer, RoomAnswer::Move { player: 0 }));

    let rejoined = send(&mut rooms, "user_a", &mut active_a, join("WATCH1"));
    match &rejoined.answer {
        RoomAnswer::Room { view, .. } => {
            assert_eq!(view.viewer_role, "player");
            assert_eq!(view.local_player, Some(0));
        }
        _ => panic!("expected seated player rejoin response"),
    }
}

#[test]
fn resigning_finishes_the_room_for_both_players() {
    let mut rooms = RoomStore::new(false);
    let mut active_a = None;
    let mut active_b = None;
    send(&mut rooms, "user_a", &mut active_a, create("QUIT12", None, None));
    let early = send(&mut rooms, "user_a", &mut active_a, ClientMsg::ResignMultiplayerGame);
    assert!(error_text(&early).contains("waiting"));
    send(&mut rooms, "user_b", &mut active_b, join("QUIT12"));

    let resigned = send(&mut rooms, "user_a", &mut active_a, ClientMsg::ResignMultiplayerGame);
    assert!(resigned.lobby_changed);
    match &resigned.answer {
        RoomAnswer::Room { view, .. } => {
            assert_eq!(view.status, "finished");
            assert_eq!(view.winner, Some(1));
            assert_eq!(view.finish_reason.as_deref(), Some("resignation"));
        }
        _ => panic!("expected resign room response"),
    }
    let after = send(&mut rooms, "user_b", &mut active_b, ClientMsg::PlayMultiplayerAction { action: 0 });
    assert!(matches!(after.answer, RoomAnswer::Room { .. }));

    let left = send(&mut rooms, "user_a", &mut active_a, ClientMsg::LeaveMultiplayerRoom);
    assert!(matches!(left.answer, RoomAnswer::Left));
    assert!(left.lobby_changed);
    assert!(active_a.is_none());
    let lobby = send(&mut rooms, "user_a", &mut active_a, ClientMsg::ListMultiplayerRooms);
    match &lobby.answer {
        RoomAnswer::Lobby { rooms } => assert_eq!(rooms.len(), 1),
        _ => panic!("expected the lobby"),
    }
    let unsupported = send(&mut rooms, "user_a", &mut active_a, ClientMsg::Ping);
    assert_eq!(error_text(&unsupported), "Unsupported multiplayer message");
}

#[test]
fn multiplayer_full_room_join_returns_spectator_without_legal_actions() {
    let mut rooms = RoomStore::new(false);
    let (code, _) = rooms
        .create_room("user_a", None, Some(0), Some("SPEC12"), Some(true), None, None, NOW)
        .unwrap();
    rooms.join_room("user_b", &code, NOW).unwrap();

    let mut active_c = None;
    let outcome = send(&mut rooms, "user_c", &mut active_c, join("SPEC12"));
    match &outcome.answer {
        RoomAnswer::Room { view, chat } => {
            assert_eq!(view.viewer_role, "spectator");
            assert_eq!(view.local_player, None);
            assert_eq!(view.spectators.len(), 1);
            assert!(view.spectators[0].you);
            assert!(chat.is_none());
        }
        _ => panic!("expected spectator join response"),
    }
    assert!(matches!(active_c.as_ref().map(|a| a.viewer), Some(MultiplayerViewer::Spectator)));
}

#[test]
fn resigning_awards_the_game_to_the_opponent() {
    let mut rooms = RoomStore::new(false);
    let mut active_a = None;
    let mut active_b = None;
    send(&mut rooms, "user_a", &mut active_a, create("RESIGN", None, None));
    send(&mut rooms, "user_b", &mut active_b, join("RESIGN"));

    let outcome = send(&mut rooms, "user_b", &mut active_b, ClientMsg::ResignMultiplayerGame);
    assert!(outcome.lobby_changed);
    match &outcome.answer {
        RoomAnswer::Room { view, .. } => {
            assert_eq!(view.status, "finished");
            assert_eq!(view.winner, Some(0));
            assert_eq!(view.finish_reason.as_deref(), Some("resignation"));
        }
        _ => panic!("expected room response"),
    }
}

#[test]
fn multiplayer_seated_user_rejoins_full_room_as_player() {
    let mut rooms = RoomStore::new(false);
    let (code, player_a) = rooms
        .create_room("user_a", None, Some(0), Some("PLAYER"), Some(true), None, None, NOW)
        .unwrap();
    rooms.join_room("user_b", &code, NOW).unwrap();

    let mut active_a = None;
    let outcome = send(&mut rooms, "user_a", &mut active_a, join("PLAYER"));
    match &outcome.answer {
        RoomAnswer::Room { view, .. } => {
            assert_eq!(view.viewer_role, "player");
            assert_eq!(view.local_player, Some(player_a as u8));
            assert!(view.spectators.is_empty());
        }
        _ => panic!("expected seated player rejoin response"),
    }
    assert!(matches!(active_a.as_ref().map(|a| a.viewer), Some(MultiplayerViewer::Player(0))));
}

#[test]
fn leaving_lets_go_of_the_socket_and_closes_an_empty_room() {
    let mut rooms = RoomStore::new(false);
    let mut active_a = None;
    let mut active_b = None;
    send(&mut rooms, "user_a", &mut active_a, create("LEAVE1", None, None));
    send(&mut rooms, "user_b", &mut active_b, join("LEAVE1"));

    let left = send(&mut rooms, "user_b", &mut active_b, ClientMsg::LeaveMultiplayerRoom);
    assert!(matches!(left.answer, RoomAnswer::Left));
    assert!(left.lobby_changed);
    assert!(active_b.is_none());
    let index = rooms.find_room("LEAVE1").expect("room stays while user_a is there");
    assert_eq!(rooms.rooms[index].sockets.len(), 1);

    let last = send(&mut rooms, "user_a", &mut active_a, ClientMsg::LeaveMultiplayerRoom);
    assert!(last.lobby_changed);
    assert!(rooms.find_room("LEAVE1").is_none());

    let again = send(&mut rooms, "user_a", &mut active_a, ClientMsg::LeaveMultiplayerRoom);
    assert!(!again.lobby_changed);
}

#[test]
fn joining_another_room_leaves_the_current_one_first() {
    let mut rooms = RoomStore::new(false);
    let mut active_a = None;
    let mut active_b = None;
    send(&mut rooms, "user_a", &mut active_a, create("FIRST1", None, None));
    send(&mut rooms, "user_b", &mut active_b, create("SECOND", None, None));
    let moved = send(&mut rooms, "user_a", &mut active_a, join("SECOND"));
    assert!(matches!(moved.answer, RoomAnswer::Room { .. }));
    assert!(rooms.find_room("FIRST1").is_none());
    assert_eq!(active_a.as_ref().map(|a| a.code.as_str()), Some("SECOND"));
}

#[test]
fn listing_the_lobby_renews_stale_managed_rooms_first() {
    let mut rooms = RoomStore::new(true);
    rooms.ensure_managed_bot_lobbies(NOW);
    let stale = rooms.rooms[0].code.clone();
    rooms.rooms[0].last_activity_ms = 0;
    let mut active = None;
    let listed = send(&mut rooms, "user_a", &mut active, ClientMsg::ListMultiplayerRooms);
    match &listed.answer {
        RoomAnswer::Lobby { rooms: lobby } => {
            assert_eq!(lobby.len(), 3);
            assert!(lobby.iter().all(|entry| entry.code != stale));
        }
        _ => panic!("expected the lobby"),
    }
    assert!(rooms.find_room(&stale).is_none());
}
