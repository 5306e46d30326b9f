use hexfish::budget::should_send_search_progress;
use hexfish::clock::RoomClock;
use hexfish::config::parse_env_bool;
use hexfish::identity::{
    anonymous_user_id_from_id, anonymous_user_id_from_token, authorized_party_allowed,
    parse_authorized_parties, socket_session_key_from_auth,
};
use hexfish::page::{render_all_page, ReplayEntryWithAccount};
use hexfish::protocol::{
    client_msg_target, ClientMsg, MultiplayerLobbyRoom, ReplayEntry, SearchBudget, ViewTarget,
};
use hexfish::room::{replay_result_for_room_outcome, RoomOutcome};
use hexfish::usernames::{handle_profile_message, ProfileReply, UsernameRegistry};
use std::time::Duration;

fn sample_all_page_replay_row() -> ReplayEntryWithAccount {
    ReplayEntryWithAccount {
        account_key: "account:test".into(),
        entry: ReplayEntry {
            id: "replay-1".into(),
            saved_at_ms: 1_700_000_000_000,
            action_count: 42,
            result: "win".into(),
            favorite: false,
            share_slug: "share-1".into(),
        },
    }
}

fn sample_all_page_lobby(code: &str) -> MultiplayerLobbyRoom {
    MultiplayerLobbyRoom {
        code: code.into(),
        status: "waiting".into(),
        occupied: 1,
        connected: 1,
        spectator_count: 0,
        is_public: true,
        time_minutes: Some(15),
        increment_seconds: Some(1),
        last_activity_ms: 1_700_000_001_000,
        empty_room_closes_at_ms: None,
    }
}

#[test]
fn parses_comma_separated_authorized_parties() {
    assert_eq!(
        parse_authorized_parties("http://localhost:3000, https://example.com, "),
        vec!["http://localhost:3000", "https://example.com"]
    );
}

#[test]
fn checks_authorized_party_when_token_has_azp() {
    let parties = parse_authorized_parties("http://localhost:3000,https://example.com");

    assert!(authorized_party_allowed(&parties, Some("https://example.com")));
    assert!(!authorized_party_allowed(&parties, Some("https://evil.example")));
    assert!(authorized_party_allowed(&parties, None));
}

#[test]
fn parse_env_bool_accepts_enabled_values() {
    for value in ["1", "true", "TRUE", "t", "yes", "Y", "on", " on "] {
        assert!(parse_env_bool(value), "{value:?} should be enabled");
    }
}

#[test]
fn parse_env_bool_rejects_other_values() {
    for value in ["", "0", "false", "no", "off", "required", "enabled"] {
        assert!(!parse_env_bool(value), "{value:?} should be disabled");
    }
}

#[test]
fn search_progress_predicate_uses_sim_delta_or_keepalive_elapsed() {
    assert!(!should_send_search_progress(99, 0, Duration::from_millis(4_999).as_millis()));
    assert!(should_send_search_progress(100, 0, Duration::from_millis(1).as_millis()));
    assert!(!should_send_search_progress(64, 64, Duration::from_millis(4_999).as_millis()));
    assert!(should_send_search_progress(64, 64, Duration::from_millis(5_000).as_millis()));
    assert!(should_send_search_progress(164, 64, Duration::from_millis(1).as_millis()));
}

#[test]
fn socket_auth_falls_back_to_browser_session_for_unrecognized_token() {
    let key = socket_session_key_from_auth(
        "clerk-session-token",
        None,
        Some("stable_browser_session".into()),
        Some("Alice".into()),
    );

    assert_eq!(key.user_id, "anonymous:stable_browser_session");
    assert_eq!(key.display_name.as_deref(), Some("Alice"));
    assert!(!key.ephemeral);
    assert_eq!(key.scope, "anonymous");
}

#[test]
fn socket_auth_prefers_recognized_token_over_browser_session() {
    let key = socket_session_key_from_auth(
        "anon:token_session",
        None,
        Some("browser_session".into()),
        None,
    );

    assert_eq!(key.user_id, "anonymous:token_session");
    assert!(!key.ephemeral);
    assert_eq!(key.scope, "anonymous");
}

#[test]
fn socket_auth_uses_clerk_user_id_when_token_is_present() {
    let key = socket_session_key_from_auth(
        "clerk-session-token",
        Some("user_2abc123".into()),
        Some("browser_session".into()),
        Some("Alice".into()),
    );

    assert_eq!(key.user_id, "clerk:user_2abc123");
    assert_eq!(key.display_name.as_deref(), Some("Alice"));
    assert!(!key.ephemeral);
    assert_eq!(key.scope, "clerk");
}

#[test]
fn socket_auth_ignores_clerk_user_id_without_token() {
    let key = socket_session_key_from_auth(
        "",
        Some("user_2abc123".into()),
        Some("browser_session".into()),
        None,
    );

    assert_eq!(key.user_id, "anonymous:browser_session");
    assert!(!key.ephemeral);
    assert_eq!(key.scope, "anonymous");
}

#[test]
fn all_page_renderer_labels_replay_logs_and_includes_toggle() {
    let replay_rows = [sample_all_page_replay_row()];
    let lobbies = [sample_all_page_lobby("LOBBY1")];
    let html = render_all_page(&replay_rows, &lobbies, None);

    assert!(html.contains("<title>Replay Logs</title>"));
    assert!(html.contains("<h1>Replay Logs</h1>"));
    assert!(!html.contains("All Replay Logs"));
    assert!(html.contains("id=\"all-view-toggle\""));
    assert!(html.contains(">Show Lobbies</button>"));
    assert!(html.contains("Show Replay Logs"));
    assert!(html.contains("id=\"replay-logs-section\""));
    assert!(html.contains("id=\"lobbies-section\" class=\"panel\" hidden"));
}

#[test]
fn all_page_renderer_shows_lobby_count_and_details_table() {
    let lobbies = [
        sample_all_page_lobby("LOBBY1"),
        MultiplayerLobbyRoom {
            code: "LOBBY2".into(),
            status: "active".into(),
            occupied: 2,
            connected: 2,
            spectator_count: 3,
            is_public: true,
            time_minutes: None,
            increment_seconds: None,
            last_activity_ms: 1_700_000_002_000,
            empty_room_closes_at_ms: None,
        },
    ];
    let html = render_all_page(&[], &lobbies, None);

    assert!(html.contains("<td>Open lobbies</td><td class=\"number\">2</td>"));
    assert!(html.contains("<th>Code</th><th>Status</th><th>Occupied</th><th>Connected</th><th>Spectators</th><th>Time Control</th><th>Last Activity</th><th>Open</th>"));
    assert!(html.contains("<td class=\"mono\">LOBBY1</td>"));
    assert!(html.contains("<td>15+1</td>"));
    assert!(html.contains("<td><a href=\"/?room=LOBBY2\">Open</a></td>"));
}

#[test]
fn all_page_renderer_empty_states_are_clear() {
    let html = render_all_page(&[], &[], None);

    assert!(html.contains("No replay logs found."));
    assert!(html.contains("<td>Open lobbies</td><td class=\"number\">0</td>"));
    assert!(html.contains("No open lobbies found."));
}

#[test]
fn anonymous_tokens_are_stable_when_safe() {
    assert_eq!(
        anonymous_user_id_from_token("anon:local-session_123"),
        Some("anonymous:local-session_123".to_string())
    );
    assert_eq!(
        anonymous_user_id_from_id("local-session_123"),
        Some("anonymous:local-session_123".to_string())
    );
    assert_eq!(anonymous_user_id_from_token(""), None);
    assert_eq!(anonymous_user_id_from_token("anon:"), None);
    assert_eq!(anonymous_user_id_from_token("anon:not safe"), None);
    assert_eq!(anonymous_user_id_from_id("not safe"), None);
}

#[test]
fn clerk_user_without_username_has_unset_profile() {
    let registry = UsernameRegistry::new();

    let username = registry.current_username("clerk:user_a");
    let username_set = username.is_some();
    assert_eq!(username, None);
    assert!(!username_set);
}

#[test]
fn clerk_username_is_cached_as_profile_display_name() {
    let mut registry = UsernameRegistry::new();

    registry.set_display_name("clerk:user_a", "Alice");
    let username = registry.current_username("clerk:user_a");
    let username_set = username.is_some();
    assert_eq!(username.as_deref(), Some("Alice"));
    assert!(username_set);
}

#[test]
fn guest_users_receive_unique_default_usernames() {
    let mut registry = UsernameRegistry::new();

    let first = registry.try_ensure_guest_username("anonymous:a", None).unwrap();
    let second = registry.try_ensure_guest_username("anonymous:b", None).unwrap();
    let first_again = registry
        .try_ensure_guest_username("anonymous:a", Some("Alice"))
        .unwrap();

    assert!(first.starts_with("User"));
    assert!(second.starts_with("User"));
    assert_ne!(first, second);
    assert_eq!(first_again, first);
}

#[test]
fn room_clock_is_wall_clock_driven_after_start() {
    let mut clock = RoomClock::new(Some(1));
    assert!(!clock.refresh(10_000));
    assert_eq!(clock.snapshot().time_millis, [Some(60_000_u64), Some(60_000_u64)]);
    assert_eq!(clock.snapshot().winner, None);

    clock.started = true;
    clock.active_player = Some(1);
    clock.active_since_ms = Some(10_000);

    assert!(clock.refresh(25_500));
    assert_eq!(clock.snapshot().time_millis, [Some(60_000_u64), Some(44_500_u64)]);
    assert_eq!(clock.snapshot().winner, None);

    assert!(clock.refresh(70_000));
    assert_eq!(clock.snapshot().time_millis, [Some(60_000_u64), Some(0_u64)]);
    assert_eq!(clock.snapshot().active_player, None);
    assert_eq!(clock.snapshot().winner, Some(0));
}

#[test]
fn room_outcome_replay_results_describe_resignation_and_timeout() {
    let resignation = RoomOutcome {
        winner: Some(1),
        reason: "resignation".into(),
        replay_share_slug: None,
    };
    assert_eq!(
        replay_result_for_room_outcome(&resignation, 0),
        Some("lost_by_resignation")
    );
    assert_eq!(
        replay_result_for_room_outcome(&resignation, 1),
        Some("won_by_resignation")
    );

    let timeout = RoomOutcome {
        winner: Some(0),
        reason: "timeout".into(),
        replay_share_slug: None,
    };
    assert_eq!(replay_result_for_room_outcome(&timeout, 0), Some("won_on_time"));
    assert_eq!(replay_result_for_room_outcome(&timeout, 1), Some("lost_on_time"));
}

#[test]
fn replay_messages_route_to_replay_session() {
    assert_eq!(
        client_msg_target(&ClientMsg::LoadReplay { id: "1.log".into() }),
        ViewTarget::Replay
    );
    assert_eq!(
        client_msg_target(&ClientMsg::LoadSharedReplay {
            slug: "abc123".into()
        }),
        ViewTarget::Replay
    );
    assert_eq!(
        client_msg_target(&ClientMsg::SetReplayCursor { cursor: 0 }),
        ViewTarget::Replay
    );
    assert_eq!(
        client_msg_target(&ClientMsg::RunSims {
            count: 1,
            target: Some(ViewTarget::Replay),
        }),
        ViewTarget::Replay
    );
    assert_eq!(
        client_msg_target(&ClientMsg::RunSearch {
            budget: SearchBudget::pv_depth(8),
            target: Some(ViewTarget::Replay),
        }),
        ViewTarget::Replay
    );
    assert_eq!(
        client_msg_target(&ClientMsg::PauseSearch {
            target: Some(ViewTarget::Replay),
        }),
        ViewTarget::Replay
    );
    assert_eq!(
        client_msg_target(&ClientMsg::PauseSearch { target: None }),
        ViewTarget::Analysis
    );
    assert_eq!(
        client_msg_target(&ClientMsg::ExploreSubtree {
            action_path: Vec::new(),
            depth: 1,
            target: Some(ViewTarget::Replay),
        }),
        ViewTarget::Replay
    );
    assert_eq!(
        client_msg_target(&ClientMsg::PlayAction { action: 0 }),
        ViewTarget::Analysis
    );
}

#[test]
fn set_username_is_rejected_because_clerk_manages_usernames() {
    let registry = UsernameRegistry::new();

    let responses = handle_profile_message(
        &registry,
        "clerk:user_a",
        &ClientMsg::SetUsername {
            username: "Alice".into(),
        },
    );

    assert!(matches!(
        responses.as_slice(),
        [ProfileReply::Error { message }] if message == "Username is managed by Clerk"
    ));
}

#[test]
fn get_profile_reports_the_cached_display_name() {
    let mut registry = UsernameRegistry::new();
    registry.set_display_name("clerk:user_a", "Alice");

    let known = handle_profile_message(&registry, "clerk:user_a", &ClientMsg::GetProfile);
    assert!(matches!(
        known.as_slice(),
        [ProfileReply::Profile { username: Some(name), username_set: true }] if name == "Alice"
    ));

    let unknown = handle_profile_message(&registry, "clerk:user_b", &ClientMsg::GetProfile);
    assert!(matches!(
        unknown.as_slice(),
        [ProfileReply::Profile { username: None, username_set: false }]
    ));
}

#[test]
fn non_profile_messages_are_answered_as_unsupported() {
    let registry = UsernameRegistry::new();
    let responses = handle_profile_message(&registry, "clerk:user_a", &ClientMsg::Ping);
    assert!(matches!(
        responses.as_slice(),
        [ProfileReply::Error { message }] if message == "Unsupported profile message"
    ));
}
