use hexfish::budget::sanitize_search_budget;
use hexfish::chat::push_chat_message;
use hexfish::clock::RoomClock;
use hexfish::identity::{anonymous_user_id_from_id, anonymous_user_id_from_token, normalize_display_name, normalize_profile_username};
use hexfish::protocol::{is_blocked_while_in_multiplayer, is_multiplayer_msg, ClientMsg, MultiplayerChatMessage, SearchBudget};
use hexfish::replay::normalize_replay_result;
use hexfish::room::normalize_room_code;

#[test]
fn normalized_display_names_are_stable() {
    for raw in ["  Alice \t\n  Smith  ", "\u{7}Bob\u{7}", "a      b      c      d      e      f", " \u{3000}Zoë "] {
        let once = normalize_display_name(Some(raw.to_string())).unwrap();
        let twice = normalize_display_name(Some(once.clone())).unwrap();
        assert_eq!(once, twice);
    }
    assert_eq!(
        normalize_display_name(Some("  Alice \t\n  Smith  ".into())).as_deref(),
        Some("Alice Smith")
    );
    assert_eq!(normalize_display_name(Some("\u{7} \t".into())), None);
    assert_eq!(normalize_display_name(None), None);
    let long = normalize_display_name(Some("x".repeat(40))).unwrap();
    assert_eq!(long.chars().count(), 24);
}

#[test]
fn normalized_usernames_are_stable() {
    let once = normalize_profile_username(Some(" Al!ce_the-Great and more letters here ")).unwrap();
    assert_eq!(once, "Alce_the-Greatandmorelet");
    assert_eq!(normalize_profile_username(Some(&once)).as_deref(), Some(once.as_str()));
    assert_eq!(normalize_profile_username(Some("a!b")), None);
}

#[test]
fn normalized_room_codes_and_results_are_stable() {
    let code = normalize_room_code(" ab12cd ").unwrap();
    assert_eq!(code, "AB12CD");
    assert_eq!(normalize_room_code(&code).unwrap(), code);
    let result = normalize_replay_result(" won_on_time ");
    assert_eq!(result, "won_on_time");
    assert_eq!(normalize_replay_result(&result), result);
    assert_eq!(normalize_replay_result("victory"), "incomplete");
}

#[test]
fn sanitized_budgets_are_stable() {
    for budget in [
        SearchBudget::pv_depth(0),
        SearchBudget::pv_depth(99),
        SearchBudget::pv_depth_with_simulations(5, 0),
        SearchBudget::simulations(7),
    ] {
        let once = sanitize_search_budget(budget);
        assert_eq!(sanitize_search_budget(once), once);
    }
}

#[test]
fn refreshing_in_steps_matches_one_refresh() {
    let start = |clock: &mut RoomClock| {
        clock.started = true;
        clock.active_player = Some(0);
        clock.active_since_ms = Some(1_000);
    };
    let mut stepped = RoomClock::new(Some(1));
    start(&mut stepped);
    stepped.refresh(20_000);
    stepped.refresh(45_000);
    let mut once = RoomClock::new(Some(1));
    start(&mut once);
    once.refresh(45_000);
    assert_eq!(stepped.remaining_ms, once.remaining_ms);
    assert_eq!(stepped.remaining_ms, Some([16_000, 60_000]));

    stepped.refresh(100_000);
    assert_eq!(stepped.winner, Some(1));
    assert!(!stepped.refresh(200_000));
    assert_eq!(stepped.remaining_ms, Some([0, 60_000]));
}

#[test]
fn anonymous_tokens_and_ids_agree() {
    for id in ["abc", "A-b_9", "x".repeat(128).as_str()] {
        assert_eq!(anonymous_user_id_from_token(&format!("anon:{id}")), anonymous_user_id_from_id(id));
    }
    assert_eq!(anonymous_user_id_from_id(&"x".repeat(129)), None);
}

#[test]
fn multiplayer_messages_are_never_blocked() {
    let msgs = [
        ClientMsg::ListMultiplayerRooms,
        ClientMsg::SendMultiplayerChat { text: "hi".into() },
        ClientMsg::ResignMultiplayerGame,
        ClientMsg::NewGame { seed: None },
        ClientMsg::Undo,
    ];
    for msg in &msgs {
        assert!(!(is_multiplayer_msg(msg) && is_blocked_while_in_multiplayer(msg)));
    }
    assert!(is_multiplayer_msg(&msgs[0]));
}

#[test]
fn chat_history_keeps_the_newest_message() {
    let mut history = Vec::new();
    for i in 0..150u64 {
        let message = MultiplayerChatMessage { id: i, sent_at_ms: i, player: 0, name: None, text: format!("m{i}") };
        push_chat_message(&mut history, message.clone());
        assert!(history.len() <= 100);
        assert_eq!(history.last(), Some(&message));
    }
    assert_eq!(history[0].id, 50);
}
