use hexfish::memroom::multiplayer_command_gate;
use hexfish::protocol::ClientMsg;
use hexfish::room::{shared_command_gate, MultiplayerViewer, MANAGED_BOT_LOBBY_REFRESH_MS};
use hexfish::roomstore::RoomStore;

const NOW: u64 = 1_700_000_000_000;

fn room_index(rooms: &RoomStore, code: &str) -> usize {
    rooms.find_room(code).expect("room exists")
}

#[test]
fn multiplayer_room_invite_flow_assigns_fixed_seats() {
    let mut rooms = RoomStore::new(false);

    let (code, creator_player) = rooms
        .create_room("user_a", None, Some(1), None, None, None, None, NOW)
        .unwrap();
    assert_eq!(creator_player, 1);
    assert_eq!(rooms.rooms.len(), 1);

    let (same_code, same_player) = rooms.join_room("user_a", &code, NOW).unwrap();
    assert_eq!(same_code, code);
    assert_eq!(same_player, 1);

    let (joined_code, joined_player) = rooms.join_room("user_b", &code, NOW).unwrap();
    assert_eq!(joined_code, code);
    assert_eq!(joined_player, 0);

    let err = match rooms.join_room("user_c", &code, NOW) {
        Ok(_) => panic!("third user should not join a full room"),
        Err(err) => err,
    };
    assert!(err.contains("full"));
}

#[test]
fn all_page_lobby_snapshot_matches_public_lobby_list() {
    let mut rooms = RoomStore::new(false);
    rooms
        .create_room("user_a", None, Some(0), Some("PUB123"), Some(true), None, None, NOW)
        .unwrap();
    rooms
        .create_room("user_b", None, Some(0), Some("PRIV12"), Some(false), None, None, NOW)
        .unwrap();

    let snapshot = rooms.lobby_rooms();
    let lobby = rooms.lobby_rooms();
    assert_eq!(snapshot.len(), 1);
    assert_eq!(lobby.len(), snapshot.len());
    assert_eq!(snapshot[0].code, "PUB123");
    assert_eq!(lobby[0].code, snapshot[0].code);
}

#[test]
fn private_multiplayer_room_is_joinable_but_hidden_from_lobby() {
    let mut rooms = RoomStore::new(false);
    let (code, _) = rooms
        .create_room("user_a", None, Some(0), Some("HIDDEN"), Some(false), None, None, NOW)
        .unwrap();

    assert!(rooms.lobby_rooms().is_empty());

    let (joined_code, player) = rooms.join_room("user_b", "HIDDEN", NOW).unwrap();
    assert_eq!(joined_code, code);
    assert_eq!(player, 1);
}

#[test]
fn managed_bot_lobbies_expose_three_guest_like_public_rooms() {
    let mut rooms = RoomStore::new(true);
    rooms.ensure_managed_bot_lobbies(NOW);

    let lobby = rooms.lobby_rooms();
    assert_eq!(lobby.len(), 3);
    let mut controls = lobby
        .iter()
        .map(|room| (room.time_minutes, room.increment_seconds))
        .collect::<Vec<_>>();
    controls.sort();
    assert_eq!(controls, vec![(Some(5), Some(3)), (Some(15), Some(1)), (Some(30), Some(0))]);
    for room in &lobby {
        assert_eq!(room.status, "waiting");
        assert_eq!(room.occupied, 1);
        assert_eq!(room.connected, 1);
        assert_eq!(room.spectator_count, 0);
        assert!(room.is_public);
        assert!(room.empty_room_closes_at_ms.is_none());
    }

    assert_eq!(rooms.rooms.len(), 3);
    for i in 0..rooms.rooms.len() {
        let room = &mut rooms.rooms[i];
        let bot_player = room.managed_bot_player.expect("managed bot player");
        let view = room.room_view(MultiplayerViewer::Spectator, None, NOW);
        assert!(view.players[bot_player].occupied);
        assert!(view.players[bot_player].connected);
        assert!(view.players[bot_player]
            .name
            .as_deref()
            .is_some_and(|name| name.starts_with("User") && name.len() == 12));
        assert!(!view.players[1 - bot_player].occupied);
    }
}

#[test]
fn managed_bot_lobby_refresh_respects_human_occupancy_until_finished() {
    let mut rooms = RoomStore::new(true);
    rooms.ensure_managed_bot_lobbies(NOW);
    let slot = rooms.rooms[0].managed_bot_slot.expect("managed slot");
    let code = rooms.rooms[0].code.clone();
    rooms.rooms[0].last_activity_ms = NOW.saturating_sub(MANAGED_BOT_LOBBY_REFRESH_MS + 1);

    assert!(rooms.ensure_managed_bot_lobbies(NOW));
    assert!(rooms.find_room(&code).is_none());
    let refreshed_code = rooms
        .rooms
        .iter()
        .find(|room| room.managed_bot_slot == Some(slot))
        .expect("refreshed slot")
        .code
        .clone();
    assert_ne!(refreshed_code, code);

    let (_, human_player) = rooms
        .join_room_with_display_name("user_human", None, &refreshed_code, NOW)
        .map(|(code, viewer)| (code, viewer.player().expect("seat")))
        .expect("human joins managed room");
    let index = room_index(&rooms, &refreshed_code);
    rooms.rooms[index].last_activity_ms = NOW.saturating_sub(MANAGED_BOT_LOBBY_REFRESH_MS + 1);
    assert!(!rooms.ensure_managed_bot_lobbies(NOW));
    assert!(rooms.find_room(&refreshed_code).is_some());

    let index = room_index(&rooms, &refreshed_code);
    let room = &mut rooms.rooms[index];
    let winner = room.managed_bot_player.unwrap_or(1 - human_player);
    assert!(room.mark_finished(Some(winner), "game", NOW));
    assert!(rooms.ensure_managed_bot_lobbies(NOW));
    assert!(rooms.find_room(&refreshed_code).is_none());
    assert!(rooms.rooms.iter().any(|room| room.managed_bot_slot == Some(slot)));
}

#[test]
fn room_codes_are_checked_and_unique() {
    let mut rooms = RoomStore::new(false);
    assert_eq!(
        rooms
            .create_room("a", None, None, Some("bad"), None, None, None, NOW)
            .err()
            .unwrap(),
        "Room code must be 6 letters or numbers"
    );
    let (code, _) = rooms
        .create_room("a", None, None, Some(" abc123 "), None, Some(0), Some(999), NOW)
        .unwrap();
    assert_eq!(code, "ABC123");
    let room = &rooms.rooms[0];
    assert_eq!(room.time_minutes, Some(1));
    assert_eq!(room.increment_seconds, Some(120));
    assert!(room.is_public);
    assert_eq!(
        rooms
            .create_room("b", None, None, Some("ABC123"), None, None, None, NOW)
            .err()
            .unwrap(),
        "Room code is already in use"
    );
    assert_eq!(rooms.join_room_with_display_name("b", None, "ZZZ999", NOW).err().unwrap(), "Room not found");
    assert_eq!(
        rooms.join_room_with_display_name("b", None, "?", NOW).err().unwrap(),
        "Room code must be 6 letters or numbers"
    );
    let (random_code, _) = rooms.create_room("c", None, None, None, None, None, None, NOW).unwrap();
    assert_eq!(random_code.len(), 6);
    assert_ne!(random_code, code);
    assert_eq!(rooms.rooms[1].room_id, 4);
}

#[test]
fn empty_rooms_close() {
    let mut rooms = RoomStore::new(false);
    let (code, player) = rooms
        .create_room("a", None, Some(0), Some("CLOSE1"), None, None, None, NOW)
        .unwrap();
    let index = room_index(&rooms, &code);
    let room_id = rooms.rooms[index].room_id;
    let socket = rooms.rooms[index]
        .register_socket("a", None, MultiplayerViewer::Player(player), NOW)
        .unwrap();
    assert!(!rooms.close_room_if_no_connected_players(&code, room_id));
    rooms.rooms[index].unregister_socket(socket, NOW);
    assert!(!rooms.close_room_if_no_connected_players(&code, room_id + 1));
    assert!(rooms.close_room_if_no_connected_players(&code, room_id));
    assert!(rooms.find_room(&code).is_none());
}

fn shared_room() -> hexfish::room::RedisRoomSnapshot {
    hexfish::room::RedisRoomSnapshot::new(
        "SHARED".into(),
        7,
        "{}".into(),
        hexfish::room::RedisSeatOwner {
            user_id: "user_a".into(),
            account_key: "acct_a".into(),
            display_name: Some("Ann".into()),
        },
        0,
        true,
        Some(2),
        None,
        NOW,
    )
}

#[test]
fn shared_rooms_show_presence() {
    let mut room = shared_room();
    room.spectators.push(hexfish::room::RedisSpectator {
        user_id: "s1".into(),
        display_name: Some("Sue".into()),
        connection_id: "c1".into(),
    });
    room.spectators.push(hexfish::room::RedisSpectator {
        user_id: "s2".into(),
        display_name: None,
        connection_id: "c2".into(),
    });
    room.active_connections[0] = Some("c0".into());

    let present = room.present_spectators(&vec![false, true]);
    assert_eq!(present.len(), 1);
    assert_eq!(present[0].connection_id, "c2");
    assert_eq!(room.connected_players([true, true]), 1);
    assert_eq!(room.connected_players([false, true]), 0);

    let entry = room.lobby_entry(1, 1, 60_000);
    assert_eq!(entry.status, "waiting");
    assert_eq!(entry.occupied, 1);
    assert_eq!(entry.empty_room_closes_at_ms, None);
    let empty = room.lobby_entry(0, 0, 60_000);
    assert_eq!(empty.empty_room_closes_at_ms, Some(room.last_activity_ms + 60_000));
    assert_eq!(room.lobby_entry(256, 0, 5).connected, 0);

    let view = room.room_view(None, Some("c2"), [true, false], &present, NOW);
    assert_eq!(view.viewer_role, "spectator");
    assert_eq!(view.status, "waiting");
    assert!(view.players[0].occupied && view.players[0].connected);
    assert_eq!(view.players[0].name.as_deref(), Some("Ann"));
    assert_eq!(view.players[0].time_millis, Some(120_000));
    assert_eq!(view.spectators.len(), 1);
    assert!(view.spectators[0].you);
    assert_eq!(view.winner, None);
}

#[test]
fn shared_room_replays_are_saved_once() {
    let mut room = shared_room();
    room.outcome = Some(hexfish::room::RedisRoomOutcome {
        winner: Some(0),
        reason: "timeout".into(),
        replay_share_slug: None,
    });
    let job = room.claim_replay_save().expect("first claim");
    assert_eq!(job.seats, vec![(0, "acct_a".to_string())]);
    assert_eq!(job.room_id, 7);
    assert!(room.replay_saved);
    assert!(room.claim_replay_save().is_none());
    assert_eq!(hexfish::room::seat_replay_result(&job.outcome, 0), Some("won_on_time"));
    assert_eq!(hexfish::room::seat_replay_result(&job.outcome, 1), Some("lost_on_time"));
    assert_eq!(hexfish::room::seat_replay_result(&None, 1), None);

    room.record_replay_saved("slug-9".into(), job.counter + 2);
    assert_eq!(
        room.outcome.as_ref().unwrap().replay_share_slug.as_deref(),
        Some("slug-9")
    );
    assert_eq!(room.next_replay_counter, job.counter + 2);
}

fn seat_socket(rooms: &mut RoomStore, code: &str, user: &str, player: usize) -> u64 {
    let index = room_index(rooms, code);
    rooms.rooms[index]
        .register_socket(user, None, MultiplayerViewer::Player(player), NOW)
        .unwrap()
}

#[test]
fn full_room_closes_when_its_last_player_leaves() {
    let mut rooms = RoomStore::new(false);
    let (code, player_a) = rooms
        .create_room("user_a", None, Some(0), Some("CLOSE2"), Some(true), None, None, NOW)
        .unwrap();
    let (_, player_b) = rooms.join_room("user_b", &code, NOW).unwrap();
    let (_, spectator) = rooms.join_room_with_display_name("user_c", None, &code, NOW).unwrap();
    assert_eq!(spectator, MultiplayerViewer::Spectator);
    let socket_a = seat_socket(&mut rooms, &code, "user_a", player_a);
    let socket_b = seat_socket(&mut rooms, &code, "user_b", player_b);
    let index = room_index(&rooms, &code);
    let room_id = rooms.rooms[index].room_id;
    let socket_c = rooms.rooms[index]
        .register_socket("user_c", None, MultiplayerViewer::Spectator, NOW)
        .unwrap();

    let left = rooms.detach_socket(&code, room_id, socket_a, MultiplayerViewer::Player(player_a), false, NOW);
    assert!(!left.closed_room);
    let lobby = rooms.lobby_rooms();
    assert_eq!(lobby.len(), 1);
    assert_eq!(lobby[0].code, code);
    assert_eq!(lobby[0].connected, 1);
    assert_eq!(lobby[0].spectator_count, 1);
    assert!(lobby[0].empty_room_closes_at_ms.is_none());

    let watcher_left = rooms.detach_socket(&code, room_id, socket_c, MultiplayerViewer::Spectator, false, NOW);
    assert_eq!(watcher_left.removed_viewer, Some(MultiplayerViewer::Spectator));
    assert!(!watcher_left.closed_room);
    let index = room_index(&rooms, &code);
    let socket_c = rooms.rooms[index]
        .register_socket("user_c", None, MultiplayerViewer::Spectator, NOW)
        .unwrap();
    assert!(socket_c > socket_b);

    let last = rooms.detach_socket(&code, room_id, socket_b, MultiplayerViewer::Player(player_b), false, NOW);
    assert!(last.closed_room);
    assert!(rooms.lobby_rooms().is_empty());
    match rooms.join_room_with_display_name("user_d", None, &code, NOW) {
        Ok(_) => panic!("expected closed room to reject join"),
        Err(err) => assert!(err.contains("not found")),
    }
}

#[test]
fn leaving_a_replaced_room_changes_nothing() {
    let mut rooms = RoomStore::new(false);
    let (code, player) = rooms
        .create_room("user_a", None, Some(0), Some("STALE1"), None, None, None, NOW)
        .unwrap();
    let socket = seat_socket(&mut rooms, &code, "user_a", player);
    let room_id = rooms.rooms[room_index(&rooms, &code)].room_id;

    let stale = rooms.detach_socket(&code, room_id + 1, socket, MultiplayerViewer::Player(player), true, NOW);
    assert_eq!(stale.removed_viewer, None);
    assert!(!stale.closed_room && !stale.vacated_managed_seat && !stale.lobbies_changed);
    assert!(rooms.rooms[room_index(&rooms, &code)].socket_registered(socket));

    let unknown = rooms.detach_socket(&code, room_id, socket + 1, MultiplayerViewer::Player(player), false, NOW);
    assert_eq!(unknown.removed_viewer, None);
    assert!(!unknown.closed_room);
    assert!(rooms.find_room(&code).is_some());
}

#[test]
fn human_leaving_a_managed_bot_room_frees_the_seat() {
    let mut rooms = RoomStore::new(true);
    rooms.ensure_managed_bot_lobbies(NOW);
    let code = rooms.rooms[0].code.clone();
    let room_id = rooms.rooms[0].room_id;
    let slot = rooms.rooms[0].managed_bot_slot;
    let (_, human) = rooms
        .join_room_with_display_name("user_h", None, &code, NOW)
        .map(|(code, viewer)| (code, viewer.player().expect("seat")))
        .unwrap();
    let socket = seat_socket(&mut rooms, &code, "user_h", human);

    let left = rooms.detach_socket(&code, room_id, socket, MultiplayerViewer::Player(human), true, NOW);
    assert!(left.vacated_managed_seat);
    assert_eq!(left.removed_viewer, Some(MultiplayerViewer::Player(human)));
    assert!(!left.closed_room);
    assert!(left.lobbies_changed);
    assert!(rooms.find_room(&code).is_none());
    assert!(rooms.rooms.iter().any(|room| room.managed_bot_slot == slot));
    assert_eq!(rooms.lobby_rooms().len(), 3);
}

#[test]
fn rooms_show_display_names_and_presence() {
    let mut rooms = RoomStore::new(false);
    let (code, _) = rooms
        .create_room("user_a", Some("Alice"), Some(0), Some("NAMES1"), None, None, None, NOW)
        .unwrap();
    rooms.join_room_with_display_name("user_b", Some("Bob"), &code, NOW).unwrap();
    seat_socket(&mut rooms, &code, "user_a", 0);

    let index = room_index(&rooms, &code);
    let view = rooms.rooms[index].room_view(MultiplayerViewer::Player(0), None, NOW);
    assert_eq!(view.players[0].name.as_deref(), Some("Alice"));
    assert_eq!(view.players[1].name.as_deref(), Some("Bob"));
    assert!(view.players[0].connected);
    assert!(!view.players[1].connected);
    assert_eq!(view.viewer_role, "player");
    assert_eq!(view.local_player, Some(0));
    assert_eq!(view.status, "active");

    seat_socket(&mut rooms, &code, "user_b", 1);
    let index = room_index(&rooms, &code);
    let view = rooms.rooms[index].room_view(MultiplayerViewer::Player(0), None, NOW);
    assert!(view.players[0].connected && view.players[1].connected);

    let (_, viewer) = rooms.join_room_with_display_name("user_c", Some("Cat"), &code, NOW).unwrap();
    assert_eq!(viewer, MultiplayerViewer::Spectator);
    let index = room_index(&rooms, &code);
    let socket = rooms.rooms[index]
        .register_socket("user_c", Some("Cat"), MultiplayerViewer::Spectator, NOW)
        .unwrap();
    let view = rooms.rooms[index].room_view(MultiplayerViewer::Spectator, Some(socket), NOW);
    assert_eq!(view.viewer_role, "spectator");
    assert_eq!(view.local_player, None);
    assert_eq!(view.spectators.len(), 1);
    assert!(view.spectators[0].you);
    assert_eq!(view.spectators[0].name.as_deref(), Some("Cat"));

    let (_, again) = rooms.join_room_with_display_name("user_a", None, &code, NOW).unwrap();
    assert_eq!(again, MultiplayerViewer::Player(0));
}

#[test]
fn new_rooms_appear_in_the_lobby_with_their_time_control() {
    let mut rooms = RoomStore::new(false);
    let (code, player) = rooms
        .create_room("user_a", None, Some(0), Some("room42"), Some(true), Some(30), Some(5), NOW)
        .unwrap();
    assert_eq!(code, "ROOM42");
    seat_socket(&mut rooms, &code, "user_a", player);
    let lobby = rooms.lobby_rooms();
    assert_eq!(lobby.len(), 1);
    assert_eq!(lobby[0].code, "ROOM42");
    assert_eq!(lobby[0].status, "waiting");
    assert_eq!(lobby[0].occupied, 1);
    assert_eq!(lobby[0].connected, 1);
    assert!(lobby[0].is_public);
    assert_eq!(lobby[0].time_minutes, Some(30));
    assert_eq!(lobby[0].increment_seconds, Some(5));
}

#[test]
fn idle_shared_rooms_without_viewers_are_cleaned_up() {
    let room = shared_room();
    let last = room.last_activity_ms;
    assert!(!room.is_abandoned(last + 59_999, 0, 60_000));
    assert!(room.is_abandoned(last + 60_000, 0, 60_000));
    assert!(!room.is_abandoned(last + 60_000, 1, 60_000));
    assert!(!room.is_abandoned(last.saturating_sub(5), 0, 1));
    assert!(room.is_abandoned(last.saturating_sub(5), 0, 0));
}

#[test]
fn multiplayer_commands_check_the_socket_first() {
    let spectator = Some(MultiplayerViewer::Spectator);
    let player = Some(MultiplayerViewer::Player(1));
    let seat_commands = [
        (ClientMsg::PlayMultiplayerAction { action: 0 }, "playing", "play multiplayer actions"),
        (ClientMsg::SendMultiplayerChat { text: "hi".into() }, "chatting", "send multiplayer chat"),
        (ClientMsg::Undo, "using history controls", "use multiplayer history controls"),
        (ClientMsg::Redo, "using history controls", "use multiplayer history controls"),
        (ClientMsg::ResignMultiplayerGame, "resigning", "resign multiplayer games"),
        (ClientMsg::AddMultiplayerOpponentTime, "adjusting clocks", "adjust multiplayer clocks"),
    ];
    for (msg, join, watch) in seat_commands {
        assert_eq!(
            multiplayer_command_gate(&msg, None),
            Err(format!("Join a multiplayer room before {join}"))
        );
        assert_eq!(
            multiplayer_command_gate(&msg, spectator),
            Err(format!("Spectators cannot {watch}"))
        );
        assert_eq!(multiplayer_command_gate(&msg, player), Ok(Some(1)));
    }
    assert_eq!(
        multiplayer_command_gate(&ClientMsg::GetMultiplayerRoom, None),
        Err("Join a multiplayer room before refreshing it".to_string())
    );
    assert_eq!(multiplayer_command_gate(&ClientMsg::GetMultiplayerRoom, spectator), Ok(None));
    assert_eq!(multiplayer_command_gate(&ClientMsg::ListMultiplayerRooms, None), Ok(None));
    assert_eq!(multiplayer_command_gate(&ClientMsg::LeaveMultiplayerRoom, player), Ok(None));
    assert_eq!(
        multiplayer_command_gate(&ClientMsg::JoinMultiplayerRoom { code: "ABC123".into() }, None),
        Ok(None)
    );
    assert_eq!(
        multiplayer_command_gate(&ClientMsg::Ping, player),
        Err("Unsupported multiplayer message".to_string())
    );
}

#[test]
fn room_moves_resignations_and_time_need_an_opponent() {
    let mut rooms = RoomStore::new(false);
    let (code, player) = rooms
        .create_room("user_a", None, Some(0), Some("QUIT12"), Some(true), Some(10), Some(3), NOW)
        .unwrap();
    let index = room_index(&rooms, &code);
    assert_eq!(
        rooms.rooms[index].game_in_progress(NOW),
        Err("Room is waiting for an opponent".to_string())
    );
    assert_eq!(
        rooms.rooms[index].resign_game(player, NOW),
        Err("Room is waiting for an opponent".to_string())
    );
    assert!(rooms.rooms[index].outcome.is_none());

    rooms.join_room("user_b", &code, NOW).unwrap();
    let index = room_index(&rooms, &code);
    let room = &mut rooms.rooms[index];
    assert_eq!(room.game_in_progress(NOW), Ok(true));
    assert_eq!(room.add_opponent_time(player, NOW), Ok(true));
    let view = room.room_view(MultiplayerViewer::Player(player), None, NOW);
    assert_eq!(view.players[0].time_millis, Some(600_000));
    assert_eq!(view.players[1].time_millis, Some(615_000));

    assert_eq!(room.resign_game(player, NOW), Ok(()));
    let view = room.room_view(MultiplayerViewer::Player(player), None, NOW);
    assert_eq!(view.status, "finished");
    assert_eq!(view.winner, Some(1));
    assert_eq!(view.finish_reason.as_deref(), Some("resignation"));
    assert_eq!(room.game_in_progress(NOW), Ok(false));
    assert_eq!(room.add_opponent_time(player, NOW), Ok(false));
    assert_eq!(room.resign_game(1 - player, NOW), Ok(()));
    assert_eq!(room.outcome.as_ref().unwrap().winner, Some(1));
    room.set_replay_share_slug("share-1".into());
    let view = room.room_view(MultiplayerViewer::Player(player), None, NOW);
    assert_eq!(view.replay_share_slug.as_deref(), Some("share-1"));
}

#[test]
fn rooms_without_clocks_refuse_added_time() {
    let mut rooms = RoomStore::new(false);
    let (code, player) = rooms
        .create_room("user_a", None, Some(0), Some("NOCLK1"), Some(true), None, None, NOW)
        .unwrap();
    let index = room_index(&rooms, &code);
    assert_eq!(
        rooms.rooms[index].add_opponent_time(player, NOW),
        Err("This room does not have clocks enabled".to_string())
    );
}

#[test]
fn shared_room_sockets_must_still_hold_their_place() {
    let mut room = shared_room();
    room.active_connections[0] = Some("c0".into());
    room.spectators.push(hexfish::room::RedisSpectator {
        user_id: "s1".into(),
        display_name: None,
        connection_id: "c1".into(),
    });
    assert_eq!(room.check_connection(Some(0), "c0"), Ok(()));
    assert_eq!(
        room.check_connection(Some(0), "old"),
        Err("This multiplayer connection has been replaced. Rejoin the room.".to_string())
    );
    assert_eq!(
        room.check_connection(Some(1), "c0"),
        Err("This multiplayer connection has been replaced. Rejoin the room.".to_string())
    );
    assert_eq!(room.check_connection(None, "c1"), Ok(()));
    assert_eq!(
        room.check_connection(None, "c0"),
        Err("This spectator connection has been replaced. Rejoin the room.".to_string())
    );
}

#[test]
fn multiplayer_room_exposes_display_names() {
    let mut rooms = RoomStore::new(false);

    rooms
        .create_room("user_a", Some("Alice"), Some(0), Some("NAMES1"), None, None, None, NOW)
        .unwrap();
    rooms.join_room_with_display_name("user_b", Some("Bob"), "NAMES1", NOW).unwrap();

    let index = room_index(&rooms, "NAMES1");
    let view = rooms.rooms[index].room_view(MultiplayerViewer::Player(0), None, NOW);
    assert_eq!(view.players[0].name.as_deref(), Some("Alice"));
    assert_eq!(view.players[1].name.as_deref(), Some("Bob"));
}

#[test]
fn anonymous_users_can_create_rooms() {
    let mut rooms = RoomStore::new(false);
    let (code, player) = rooms
        .create_room("anonymous:a", None, Some(0), None, None, None, None, NOW)
        .unwrap();
    assert_eq!(code.len(), 6);
    assert_eq!(player, 0);
    let index = room_index(&rooms, &code);
    let view = rooms.rooms[index].room_view(MultiplayerViewer::Player(player), None, NOW);
    assert_eq!(view.status, "waiting");
    assert_eq!(view.local_player, Some(0));
    assert_eq!(rooms.lobby_rooms().len(), 1);
}

#[test]
fn shared_rooms_have_no_chat_or_history_controls() {
    let player = Some(MultiplayerViewer::Player(0));
    for msg in [
        ClientMsg::SendMultiplayerChat { text: "hi".into() },
        ClientMsg::Undo,
        ClientMsg::Redo,
    ] {
        assert_eq!(
            shared_command_gate(&msg, player),
            Err("Unsupported multiplayer message".to_string())
        );
    }
    assert_eq!(
        shared_command_gate(&ClientMsg::PlayMultiplayerAction { action: 3 }, None),
        Err("Join a multiplayer room before playing".to_string())
    );
    assert_eq!(
        shared_command_gate(&ClientMsg::ResignMultiplayerGame, Some(MultiplayerViewer::Spectator)),
        Err("Spectators cannot resign multiplayer games".to_string())
    );
    assert_eq!(shared_command_gate(&ClientMsg::AddMultiplayerOpponentTime, player), Ok(Some(0)));
    assert_eq!(shared_command_gate(&ClientMsg::ListMultiplayerRooms, None), Ok(None));
}

#[test]
fn random_room_codes_are_joinable_by_their_own_text() {
    let mut rooms = RoomStore::new(false);
    let (code, _) = rooms.create_room("user_a", None, None, None, None, None, None, NOW).unwrap();
    assert_eq!(code.len(), 6);
    assert!(code.chars().all(|c| c.is_ascii_uppercase() || c.is_ascii_digit()));
    assert_eq!(hexfish::room::normalize_room_code(&code).unwrap(), code);
    let (joined, seat) = rooms.join_room("user_b", &code.to_lowercase(), NOW).unwrap();
    assert_eq!(joined, code);
    assert!(seat < 2);
}

#[test]
fn created_rooms_take_the_clamped_time_control() {
    let mut rooms = RoomStore::new(false);
    rooms.create_room("user_a", None, Some(0), Some("CLAMP1"), Some(false), Some(500), Some(999), NOW).unwrap();
    let room = &rooms.rooms[0];
    assert_eq!(room.time_minutes, Some(180));
    assert_eq!(room.increment_seconds, Some(120));
    assert!(!room.is_public);
    assert!(room.chat_messages.is_empty());
    assert!(room.outcome.is_none());
}

#[test]
fn managed_lobbies_report_no_change_when_all_slots_are_fresh() {
    let mut rooms = RoomStore::new(true);
    assert!(rooms.ensure_managed_bot_lobbies(NOW));
    assert_eq!(rooms.rooms.len(), 3);
    let before: Vec<String> = rooms.rooms.iter().map(|r| r.code.clone()).collect();
    assert!(!rooms.ensure_managed_bot_lobbies(NOW + 1));
    let after: Vec<String> = rooms.rooms.iter().map(|r| r.code.clone()).collect();
    assert_eq!(before, after);
    let mut off = RoomStore::new(false);
    assert!(!off.ensure_managed_bot_lobbies(NOW));
    assert!(off.rooms.is_empty());
}

#[test]
fn managed_bot_moves_only_in_a_full_undecided_room() {
    let mut rooms = RoomStore::new(true);
    rooms.ensure_managed_bot_lobbies(NOW);
    let code = rooms.rooms[0].code.clone();
    let bot = rooms.rooms[0].managed_bot_player.expect("bot seat");
    assert_eq!(rooms.rooms[0].managed_bot_move_due(bot), None);
    rooms.join_room("user_h", &code, NOW).unwrap();
    let index = room_index(&rooms, &code);
    let room = &mut rooms.rooms[index];
    assert_eq!(room.managed_bot_move_due(bot), Some(bot));
    assert_eq!(room.managed_bot_move_due(1 - bot), None);
    assert!(room.managed_bot_moves_again(false, bot));
    assert!(!room.managed_bot_moves_again(true, bot));
    assert!(!room.managed_bot_moves_again(false, 1 - bot));
    assert!(room.mark_finished(Some(bot), "game", NOW));
    assert_eq!(room.managed_bot_move_due(bot), None);
}

#[test]
fn shared_room_moves_need_the_current_connection_and_an_opponent() {
    let mut room = shared_room();
    room.active_connections[0] = Some("c0".into());
    assert_eq!(
        room.move_gate(0, "old").err().unwrap(),
        "This multiplayer connection has been replaced. Rejoin the room."
    );
    assert_eq!(room.move_gate(0, "c0").err().unwrap(), "Room is waiting for an opponent");
    room.seats[1] = Some(hexfish::room::RedisSeatOwner {
        user_id: "user_b".into(),
        account_key: "acct_b".into(),
        display_name: None,
    });
    assert_eq!(room.move_gate(0, "c0"), Ok(true));

    room.record_move(0, vec![3], false, None, 1, NOW + 1_000);
    assert_eq!(room.actions, vec![3]);
    assert!(room.outcome.is_none());
    assert_eq!(room.clock.active_player, Some(1));
    assert_eq!(room.last_activity_ms, NOW + 1_000);

    room.record_move(1, vec![3, 5], true, Some(1), 0, NOW + 2_000);
    let outcome = room.outcome.as_ref().expect("game over");
    assert_eq!(outcome.winner, Some(1));
    assert_eq!(outcome.reason, "game");
    assert_eq!(room.clock.active_player, None);
    assert_eq!(room.move_gate(0, "c0"), Ok(false));
}

#[test]
fn shared_room_replay_lists_each_seat_once_in_order() {
    let mut room = shared_room();
    room.seats[1] = Some(hexfish::room::RedisSeatOwner {
        user_id: "user_b".into(),
        account_key: "acct_b".into(),
        display_name: None,
    });
    let job = room.claim_replay_save().expect("first claim");
    assert_eq!(job.seats, vec![(0, "acct_a".to_string()), (1, "acct_b".to_string())]);
    assert!(room.claim_replay_save().is_none());
}

#[test]
fn a_managed_room_opens_only_under_a_free_code() {
    let mut rooms = RoomStore::new(true);
    assert!(rooms.place_managed_bot_room(hexfish::room::ManagedBotLobbySlot::FiveThree, "ABC234".into(), NOW));
    assert_eq!(rooms.rooms.len(), 1);
    assert_eq!(rooms.rooms[0].code, "ABC234");
    assert_eq!(rooms.rooms[0].managed_bot_slot, Some(hexfish::room::ManagedBotLobbySlot::FiveThree));
    assert!(!rooms.place_managed_bot_room(hexfish::room::ManagedBotLobbySlot::FifteenOne, "ABC234".into(), NOW));
    assert_eq!(rooms.rooms.len(), 1);
    assert!(rooms.place_managed_bot_room(hexfish::room::ManagedBotLobbySlot::FifteenOne, "XYZ789".into(), NOW));
    assert_eq!(rooms.rooms.len(), 2);
}
