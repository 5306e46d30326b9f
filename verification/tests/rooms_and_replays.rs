use hexfish::budget::{active_search_budget, sanitize_search_budget, MAX_PV_DEPTH_BUDGET, PV_DEPTH_SIM_SAFETY_CAP};
use hexfish::chat::sanitize_multiplayer_chat_text;
use hexfish::clock::RoomClock;
use hexfish::cpu::{parse_cpu_stat, CpuLoadSampler, CpuTimes};
use hexfish::memroom::RoomState;
use hexfish::order::{newest_replays, sort_lobby_rooms, sort_replays, text_less};
use hexfish::page::ReplayEntryWithAccount;
use hexfish::protocol::{MultiplayerLobbyRoom, ReplayEntry, SearchBudget};
use hexfish::replay::{
    actions_from_i64, actions_to_i64, file_replay_entry, logged_action_count, multiplayer_save_outcome,
    new_replay_entry,
    participant_counters, replay_file_id, replay_timestamp_from_id, require_participants,
    result_needs_marker, safe_replay_id, saved_result_from_marker, stored_replay_entry,
};
use hexfish::rng::{new_room_code, random_base62, ROOM_CODE_ALPHABET};
use hexfish::room::{ManagedBotLobbySlot, MultiplayerViewer, SeatOwner};
use hexfish::socket::SocketDisconnectInfo;
use hexfish::usernames::UsernameRegistry;

fn entry(id: &str, saved_at_ms: u64) -> ReplayEntry {
    ReplayEntry {
        id: id.into(),
        saved_at_ms,
        action_count: 1,
        result: "incomplete".into(),
        favorite: false,
        share_slug: id.into(),
    }
}

fn lobby(code: &str, last_activity_ms: u64) -> MultiplayerLobbyRoom {
    MultiplayerLobbyRoom {
        code: code.into(),
        status: "waiting".into(),
        occupied: 1,
        connected: 1,
        spectator_count: 0,
        is_public: true,
        time_minutes: None,
        increment_seconds: None,
        last_activity_ms,
        empty_room_closes_at_ms: None,
    }
}

fn room_with(user: &str, name: Option<&str>) -> RoomState {
    RoomState::new(
        "ROOM01".into(),
        1,
        SeatOwner::human(user, name),
        0,
        true,
        Some(1),
        Some(2),
        1_000,
    )
}

#[test]
fn unsafe_replay_ids_are_refused() {
    assert!(!safe_replay_id("../game.log"));
    assert!(!safe_replay_id("..game.log"));
    assert!(!safe_replay_id(".hidden.log"));
    assert!(!safe_replay_id("nested/game.log"));
    assert!(!safe_replay_id("nested\\game.log"));
    assert!(!safe_replay_id("game.txt"));
    assert!(safe_replay_id("123-1-1.log"));
}

#[test]
fn replay_ids_read_back_their_save_time() {
    let id = replay_file_id(1_700_000_000_123, 4, 9, "AbC123");
    assert_eq!(id, "1700000000123-4-9-AbC123.log");
    assert_eq!(replay_timestamp_from_id(&id), Some(1_700_000_000_123));
    assert_eq!(replay_timestamp_from_id("abc-1.log"), None);
}

#[test]
fn stored_actions_load_back() {
    let actions = vec![0usize, 5, 12_345];
    let stored = actions_to_i64(&actions).unwrap();
    assert_eq!(stored, vec![0i64, 5, 12_345]);
    assert_eq!(actions_from_i64(stored).unwrap(), actions);
    assert_eq!(
        actions_from_i64(vec![3, -1]).err().unwrap(),
        "stored replay action id is invalid"
    );
}

#[test]
fn file_replays_are_listed_from_their_names() {
    let e = file_replay_entry("1700000000000-1-2-tok.log", 5, 7, "won".into(), true).unwrap();
    assert_eq!(e.saved_at_ms, 1_700_000_000_000);
    assert_eq!(e.share_slug, "1700000000000-1-2-tok");
    assert_eq!(e.action_count, 7);
    assert!(e.favorite);
    let e = file_replay_entry("game.log", 5, 0, "incomplete".into(), false).unwrap();
    assert_eq!(e.saved_at_ms, 5);
    assert!(file_replay_entry("../x.log", 5, 0, "won".into(), false).is_none());

    assert_eq!(saved_result_from_marker(Some(" won_on_time\n")), "won_on_time");
    assert_eq!(saved_result_from_marker(Some("win")), "incomplete");
    assert_eq!(saved_result_from_marker(None), "incomplete");
    assert!(result_needs_marker("lost"));
    assert!(!result_needs_marker("incomplete"));
}

#[test]
fn new_replays_get_ids_and_results() {
    let e = new_replay_entry(10, 2, 3, "tok", 4, None);
    assert_eq!(e.id, "10-2-3-tok.log");
    assert_eq!(e.result, "incomplete");
    assert_eq!(e.share_slug, "10-2-3-tok");
    assert!(!e.favorite);
    let e = new_replay_entry(10, 2, 3, "tok", 4, Some("lost_by_resignation"));
    assert_eq!(e.result, "lost_by_resignation");
}

#[test]
fn multiplayer_saves_report_the_first_success() {
    assert_eq!(participant_counters(7, 3), vec![7, 8, 9]);
    assert_eq!(participant_counters(u64::MAX - 1, 3), vec![u64::MAX - 1, u64::MAX, u64::MAX]);
    assert_eq!(
        require_participants(0).err().unwrap(),
        "cannot save multiplayer replay without participants"
    );
    assert!(require_participants(2).is_ok());

    let saved = multiplayer_save_outcome(vec![Err("disk full".into()), Ok(entry("b.log", 2)), Ok(entry("c.log", 3))]);
    assert_eq!(saved.unwrap().id, "b.log");
    let failed = multiplayer_save_outcome(vec![Err("first".into()), Err("second".into())]);
    assert_eq!(failed.err().unwrap(), "first");
    assert_eq!(
        multiplayer_save_outcome(Vec::new()).err().unwrap(),
        "failed to save multiplayer replay for any participant"
    );
}

#[test]
fn replays_are_listed_newest_first() {
    let sorted = sort_replays(vec![entry("a.log", 1), entry("c.log", 3), entry("b.log", 3), entry("z.log", 2)]);
    let ids: Vec<&str> = sorted.iter().map(|e| e.id.as_str()).collect();
    assert_eq!(ids, vec!["c.log", "b.log", "z.log", "a.log"]);

    let rows: Vec<ReplayEntryWithAccount> = (0..5u64)
        .map(|i| ReplayEntryWithAccount { account_key: format!("acct{i}"), entry: entry(&format!("{i}.log"), i) })
        .collect();
    let newest = newest_replays(rows, 2);
    let ids: Vec<&str> = newest.iter().map(|r| r.entry.id.as_str()).collect();
    assert_eq!(ids, vec!["4.log", "3.log"]);
    assert_eq!(newest_replays(Vec::new(), 3).len(), 0);
}

#[test]
fn lobby_rooms_are_listed_by_activity_then_code() {
    let sorted = sort_lobby_rooms(vec![lobby("BBBBBB", 5), lobby("AAAAAA", 5), lobby("CCCCCC", 9)]);
    let codes: Vec<&str> = sorted.iter().map(|r| r.code.as_str()).collect();
    assert_eq!(codes, vec!["CCCCCC", "AAAAAA", "BBBBBB"]);
    assert!(text_less("ab", "abc"));
    assert!(!text_less("abc", "ab"));
    assert!(text_less("Z", "a"));
}

#[test]
fn random_codes_use_their_alphabets() {
    let code = new_room_code();
    assert_eq!(code.chars().count(), 6);
    assert!(code.chars().all(|c| ROOM_CODE_ALPHABET.contains(c)));
    let token = random_base62(16);
    assert_eq!(token.len(), 16);
    assert!(token.chars().all(|c| c.is_ascii_alphanumeric()));
}

#[test]
fn display_names_move_their_keys() {
    let mut registry = UsernameRegistry::new();
    registry.set_display_name("clerk:a", "  Alice   Smith ");
    assert_eq!(registry.current_username("clerk:a").as_deref(), Some("Alice Smith"));
    assert_eq!(registry.name_owner("alice smith").as_deref(), Some("clerk:a"));

    registry.set_display_name("clerk:a", "Bob");
    assert_eq!(registry.name_owner("alice smith"), None);
    assert_eq!(registry.name_owner("bob").as_deref(), Some("clerk:a"));

    registry.set_display_name("clerk:a", "\u{7}  ");
    assert_eq!(registry.current_username("clerk:a").as_deref(), Some("Bob"));
}

#[test]
fn guests_get_the_requested_name_unless_taken() {
    let mut registry = UsernameRegistry::new();
    let alice = registry.try_ensure_guest_username("anonymous:a", Some(" Al!ice ")).unwrap();
    assert_eq!(alice, "Alice");
    let other = registry.try_ensure_guest_username("anonymous:b", Some("ALICE")).unwrap();
    assert!(other.starts_with("User"));
    assert_eq!(other.len(), 12);
    assert_eq!(registry.name_owner(&other.to_ascii_lowercase()).as_deref(), Some("anonymous:b"));
    let short = registry.try_ensure_guest_username("anonymous:c", Some("ab")).unwrap();
    assert!(short.starts_with("User"));
}

#[test]
fn rooms_seat_players_and_spectators() {
    let mut room = room_with("user_a", Some("Ann"));
    assert_eq!(room.seat_for_user("user_a"), Some(0));
    assert!(!room.is_full());

    let again = room.assign_or_find_viewer(SeatOwner::human("user_a", None), 2_000);
    assert_eq!(again, MultiplayerViewer::Player(0));
    assert_eq!(room.seats[0].as_ref().unwrap().display_name.as_deref(), Some("Ann"));
    assert_eq!(room.last_activity_ms, 1_000);

    let b = room.assign_or_find_viewer(SeatOwner::human("user_b", Some("Ben")), 3_000);
    assert_eq!(b, MultiplayerViewer::Player(1));
    assert!(room.is_full());
    assert_eq!(room.last_activity_ms, 3_000);

    let c = room.assign_or_find_viewer(SeatOwner::human("user_c", None), 4_000);
    assert_eq!(c, MultiplayerViewer::Spectator);
    assert_eq!(room.last_activity_ms, 3_000);
}

#[test]
fn a_user_keeps_one_socket_per_room() {
    let mut room = room_with("user_a", Some("Ann"));
    assert_eq!(
        room.register_socket("user_b", None, MultiplayerViewer::Player(1), 10).err().unwrap(),
        "You are not seated in this room"
    );
    let first = room.register_socket("user_a", Some("Ann"), MultiplayerViewer::Player(0), 10).unwrap();
    let second = room.register_socket("user_a", Some("Ann"), MultiplayerViewer::Player(0), 11).unwrap();
    assert_ne!(first, second);
    assert_eq!(room.sockets.len(), 1);
    assert!(!room.socket_registered(first));
    assert!(room.socket_registered(second));
    let spectator = room.register_socket("user_s", Some("Sue"), MultiplayerViewer::Spectator, 12).unwrap();
    assert_eq!(room.connected_player_count(), 1);

    let entry = room.lobby_entry();
    assert_eq!(entry.status, "waiting");
    assert_eq!(entry.occupied, 1);
    assert_eq!(entry.connected, 1);
    assert_eq!(entry.spectator_count, 1);

    let view = room.room_view(MultiplayerViewer::Spectator, Some(spectator), 13);
    assert_eq!(view.status, "waiting");
    assert_eq!(view.viewer_role, "spectator");
    assert_eq!(view.players.len(), 2);
    assert!(view.players[0].occupied && view.players[0].connected);
    assert!(!view.players[1].occupied);
    assert_eq!(view.players[0].time_millis, Some(60_000));
    assert_eq!(view.spectators.len(), 1);
    assert!(view.spectators[0].you);

    assert_eq!(room.unregister_socket(second, 20), Some(MultiplayerViewer::Player(0)));
    assert_eq!(room.last_activity_ms, 20);
    assert_eq!(room.unregister_socket(second, 30), None);
    assert_eq!(room.connected_player_count(), 0);
}

#[test]
fn rooms_finish_once() {
    let mut room = room_with("user_a", None);
    assert!(room.mark_finished(Some(1), "resignation", 50));
    assert!(!room.mark_finished(Some(0), "timeout", 60));
    let outcome = room.outcome.as_ref().unwrap();
    assert_eq!(outcome.winner, Some(1));
    assert_eq!(outcome.reason, "resignation");
    assert_eq!(room.clock.winner, Some(1));
    room.set_replay_share_slug("slug-1".into());
    room.set_replay_share_slug("slug-2".into());
    assert_eq!(room.outcome.as_ref().unwrap().replay_share_slug.as_deref(), Some("slug-1"));
    assert_eq!(room.lobby_entry().status, "finished");

    let participants = room.replay_participants();
    assert_eq!(participants.len(), 1);
    assert_eq!(participants[0].player, 0);
    assert_eq!(participants[0].result, "lost_by_resignation");
}

#[test]
fn room_clocks_run_and_time_out() {
    let mut room = room_with("user_a", None);
    room.assign_or_find_viewer(SeatOwner::human("user_b", None), 1_000);
    room.finish_clock_turn(0, 1, false, 10_000);
    assert!(room.clock.started);
    assert_eq!(room.clock.active_player, Some(1));
    room.finish_clock_turn(1, 0, false, 20_000);
    assert_eq!(room.clock.remaining_ms, Some([60_000, 52_000]));
    assert!(room.add_clock_seconds(1, 15, 20_000));
    assert_eq!(room.clock.remaining_ms, Some([60_000, 67_000]));

    let (generation, remaining) = room.clock_timeout_schedule(30_000).unwrap();
    assert_eq!(remaining, 50_000);
    assert!(!room.mark_clock_timeout_if_current(generation + 1, 200_000));
    assert!(room.mark_clock_timeout_if_current(room.clock_generation, 200_000));
    let outcome = room.outcome.as_ref().unwrap();
    assert_eq!(outcome.reason, "timeout");
    assert_eq!(outcome.winner, Some(1));
    assert!(!room.add_clock_seconds(0, 15, 200_001));
}

#[test]
fn room_chat_keeps_the_latest_hundred() {
    let mut room = room_with("user_a", Some("Ann"));
    assert_eq!(room.push_chat(0, " \t ", 5).err().unwrap(), "Chat message cannot be empty");
    for i in 0..102 {
        let history = room.push_chat(0, &format!("msg {i}"), 10 + i).unwrap();
        assert_eq!(history.last().unwrap().text, format!("msg {i}"));
    }
    assert_eq!(room.chat_messages.len(), 100);
    assert_eq!(room.chat_messages[0].text, "msg 2");
    assert_eq!(room.chat_messages[0].name.as_deref(), Some("Ann"));
    assert_eq!(room.chat_messages[99].id, 102);

    let long = format!("hi\u{0007}{}", "x".repeat(300));
    let text = sanitize_multiplayer_chat_text(&long).unwrap();
    assert!(text.starts_with("hix"));
    assert_eq!(text.chars().count(), 280);
}

#[test]
fn managed_bot_rooms_refresh_when_idle_or_finished() {
    let mut room = RoomState::new_managed_bot("BOT001".into(), 2, ManagedBotLobbySlot::FifteenOne, 1, 0);
    assert_eq!(room.time_minutes, Some(15));
    assert_eq!(room.increment_seconds, Some(1));
    assert!(room.seats[1].as_ref().unwrap().is_managed_bot());
    assert!(!room.should_refresh_managed_bot(899_999));
    assert!(room.should_refresh_managed_bot(900_000));

    room.assign_or_find_viewer(SeatOwner::human("human", None), 10);
    assert!(room.managed_human_ever_joined);
    assert!(!room.should_refresh_managed_bot(10_000_000));
    assert!(room.vacate_human_player(0, 20));
    assert!(!room.vacate_human_player(1, 20));
    assert!(room.should_refresh_managed_bot(21));
}

#[test]
fn depth_budgets_are_clamped() {
    assert_eq!(sanitize_search_budget(SearchBudget::pv_depth(99)), SearchBudget::pv_depth(MAX_PV_DEPTH_BUDGET));
    let active = active_search_budget(SearchBudget::pv_depth_with_simulations(99, PV_DEPTH_SIM_SAFETY_CAP + 1));
    assert_eq!(
        active.budget,
        SearchBudget::pv_depth_with_simulations(MAX_PV_DEPTH_BUDGET, PV_DEPTH_SIM_SAFETY_CAP)
    );
    assert_eq!(active.sims_total, PV_DEPTH_SIM_SAFETY_CAP);
    assert_eq!(active_search_budget(SearchBudget::pv_depth(0)).budget, SearchBudget::pv_depth(1));
}

#[test]
fn cpu_load_is_read_from_proc_stat() {
    let t = parse_cpu_stat("cpu  1 2 3 4 5 6 7\ncpu0 1 1 1 1\n").unwrap();
    assert_eq!(t, CpuTimes { idle: 9, total: 28 });
    assert_eq!(parse_cpu_stat("cpu  1 2 3\n"), None);
    assert_eq!(parse_cpu_stat("intr 1 2 3 4\n"), None);
    assert_eq!(parse_cpu_stat("cpu 1 x 3 4\n"), None);

    let mut sampler = CpuLoadSampler::new(Some(CpuTimes { idle: 100, total: 200 }));
    assert_eq!(sampler.sample(Some(CpuTimes { idle: 125, total: 300 })), Some(75));
    assert_eq!(sampler.sample(Some(CpuTimes { idle: 125, total: 300 })), None);
    assert_eq!(sampler.sample(None), None);
}

#[test]
fn clocks_charge_only_the_running_seat() {
    let mut clock = RoomClock::new(Some(2));
    clock.started = true;
    clock.active_player = Some(0);
    clock.active_since_ms = Some(0);
    assert!(clock.refresh(1_000));
    assert!(clock.refresh(3_000));
    assert_eq!(clock.remaining_ms, Some([117_000, 120_000]));
}

#[test]
fn disconnects_are_described() {
    assert_eq!(SocketDisconnectInfo::recv_closed().kind, "recv_closed");
    assert_eq!(SocketDisconnectInfo::recv_error().kind, "recv_error");
    assert_eq!(SocketDisconnectInfo::send_failed().kind, "send_failed");
    assert_eq!(SocketDisconnectInfo::server_closed().kind, "server_closed");
    let c = SocketDisconnectInfo::client_close(Some("1000".into()), "bye".into());
    assert_eq!(c.kind, "client_close");
    assert_eq!(c.close_code.as_deref(), Some("1000"));
    assert_eq!(c.close_reason, "bye");
    assert_eq!(SocketDisconnectInfo::send_failed().close_reason, "");
}

#[test]
fn replay_logs_count_their_action_lines() {
    let count = |text: &str| text.lines().skip(1).filter(|line| !line.is_empty()).count();
    for text in [
        "",
        "state",
        "state\n",
        "state\n1\n2\n",
        "state\n1\n\n2",
        "state\r\n1\r\n\r\n2\r\n",
        "state\n1\n\r",
        "\n\n\n",
        "state\n\r\n3",
    ] {
        assert_eq!(logged_action_count(text), count(text), "{text:?}");
    }
    assert_eq!(logged_action_count("state\n1\n2\n"), 2);
    assert_eq!(logged_action_count("state\r\n1\r\n\r\n2\r\n"), 2);
    assert_eq!(logged_action_count("state"), 0);
}

#[test]
fn room_replays_are_claimed_once() {
    let mut room = room_with("user_a", Some("Ann"));
    room.assign_or_find_viewer(SeatOwner::human("user_b", None), 1_000);
    assert!(room.mark_finished(Some(1), "resignation", 2_000));

    let (counter, participants) = room.claim_replay_save().expect("first claim");
    assert_eq!(counter, 1);
    assert_eq!(room.next_replay_counter, 2);
    assert!(room.replay_saved);
    assert_eq!(participants.len(), 2);
    assert_eq!(participants[0].player, 0);
    assert_eq!(participants[0].display_name.as_deref(), Some("Ann"));
    assert_eq!(participants[0].result, "lost_by_resignation");
    assert_eq!(participants[1].player, 1);
    assert_eq!(participants[1].result, "won_by_resignation");

    assert!(room.claim_replay_save().is_none());
    assert_eq!(room.next_replay_counter, 2);
}

#[test]
fn tied_replays_keep_their_order() {
    let rows: Vec<ReplayEntryWithAccount> = ["acct_b", "acct_a", "acct_c"]
        .iter()
        .map(|account| ReplayEntryWithAccount { account_key: account.to_string(), entry: entry("same.log", 7) })
        .chain(std::iter::once(ReplayEntryWithAccount {
            account_key: "acct_new".into(),
            entry: entry("same.log", 8),
        }))
        .collect();
    let newest = newest_replays(rows, 4);
    let accounts: Vec<&str> = newest.iter().map(|r| r.account_key.as_str()).collect();
    assert_eq!(accounts, vec!["acct_new", "acct_b", "acct_a", "acct_c"]);
}

#[test]
fn database_rows_become_replay_entries() {
    let entry = stored_replay_entry("id-1".into(), 1_700, 12, " won_on_time ", true, "slug".into()).unwrap();
    assert_eq!(entry.id, "id-1");
    assert_eq!(entry.saved_at_ms, 1_700);
    assert_eq!(entry.action_count, 12);
    assert_eq!(entry.result, "won_on_time");
    assert!(entry.favorite);
    assert_eq!(entry.share_slug, "slug");
    assert_eq!(
        stored_replay_entry("x".into(), 5, 0, "mystery", false, "s".into()).unwrap().result,
        "incomplete"
    );
    assert_eq!(
        stored_replay_entry("x".into(), -1, 0, "won", false, "s".into()).unwrap_err(),
        "stored replay timestamp is negative"
    );
    assert_eq!(
        stored_replay_entry("x".into(), 1, -3, "won", false, "s".into()).unwrap_err(),
        "stored replay action count is invalid"
    );
}
