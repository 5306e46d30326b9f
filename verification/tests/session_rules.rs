use hexfish::protocol::{ClientMsg, SearchBudget, ViewTarget};
use hexfish::session::{
    replay_view_step, search_interrupt_action, session_command_check, session_undo_target, InterruptAction,
    ReplayViewStep, SessionFacts,
    SessionTimeline,
};

fn timeline(is_chance: Vec<bool>, actors: Vec<Option<usize>>, barriers: Vec<bool>, cursor: usize, human: Option<usize>) -> SessionTimeline {
    SessionTimeline { is_chance, actors, undo_barriers: barriers, cursor, singleplayer_human: human }
}

fn facts(replay_loaded: bool, terminal: bool, chance: bool, legal: Vec<usize>, t: SessionTimeline) -> SessionFacts {
    SessionFacts { replay_loaded, terminal, chance, legal_actions: legal, timeline: t }
}

fn live(legal: Vec<usize>) -> SessionFacts {
    facts(false, false, false, legal, timeline(vec![false, true, false], vec![Some(0), None, Some(1)], vec![false; 3], 3, None))
}

fn refusal(msg: ClientMsg, f: &SessionFacts) -> String {
    session_command_check(&msg, f).err().expect("refused")
}

fn analysis_search() -> ClientMsg {
    ClientMsg::RunSearch { budget: SearchBudget::simulations(100), target: None }
}

#[test]
fn a_ping_during_a_search_is_answered() {
    assert_eq!(search_interrupt_action(&ClientMsg::Ping, &analysis_search()), InterruptAction::Pong);
}

#[test]
fn bot_moves_cannot_be_paused_or_interrupted() {
    let bot = ClientMsg::BotMove { simulations: None, budget: None };
    assert_eq!(
        search_interrupt_action(&ClientMsg::PauseSearch { target: None }, &bot),
        InterruptAction::Refuse("Bot moves cannot be paused".to_string())
    );
    assert_eq!(
        search_interrupt_action(&ClientMsg::PlayAction { action: 1 }, &bot),
        InterruptAction::Refuse("Bot moves cannot be interrupted".to_string())
    );
}

#[test]
fn pause_must_name_the_board_being_searched() {
    let active = analysis_search();
    assert_eq!(search_interrupt_action(&ClientMsg::PauseSearch { target: None }, &active), InterruptAction::Pause);
    assert_eq!(
        search_interrupt_action(&ClientMsg::PauseSearch { target: Some(ViewTarget::Analysis) }, &active),
        InterruptAction::Pause
    );
    assert_eq!(
        search_interrupt_action(&ClientMsg::PauseSearch { target: Some(ViewTarget::Replay) }, &active),
        InterruptAction::Refuse("Pause target does not match the active search".to_string())
    );
}

#[test]
fn actions_interrupt_only_analysis_searches() {
    let replay = ClientMsg::RunSims { count: 10, target: Some(ViewTarget::Replay) };
    assert_eq!(
        search_interrupt_action(&ClientMsg::PlayAction { action: 2 }, &replay),
        InterruptAction::Refuse("Cannot play actions during a replay search".to_string())
    );
    assert_eq!(
        search_interrupt_action(&ClientMsg::PlayAction { action: 2 }, &analysis_search()),
        InterruptAction::PauseThenPlay
    );
}

#[test]
fn other_commands_wait_for_the_search() {
    assert_eq!(
        search_interrupt_action(&ClientMsg::Undo, &analysis_search()),
        InterruptAction::Refuse("Search is running; pause before sending another command".to_string())
    );
}

#[test]
fn playing_needs_a_live_unfinished_game_and_a_legal_action() {
    assert!(session_command_check(&ClientMsg::PlayAction { action: 4 }, &live(vec![1, 4])).is_ok());
    assert_eq!(refusal(ClientMsg::PlayAction { action: 7 }, &live(vec![1, 4])), "Illegal action: 7");
    let mut replay = live(vec![7]);
    replay.replay_loaded = true;
    assert_eq!(refusal(ClientMsg::PlayAction { action: 7 }, &replay), "Cannot play actions while viewing a replay");
    let mut over = live(vec![7]);
    over.terminal = true;
    assert_eq!(refusal(ClientMsg::PlayAction { action: 7 }, &over), "Game is over");
}

#[test]
fn bot_moves_and_searches_need_a_decision() {
    let bot = ClientMsg::BotMove { simulations: None, budget: None };
    assert!(session_command_check(&bot, &live(vec![])).is_ok());
    let mut replay = live(vec![]);
    replay.replay_loaded = true;
    assert_eq!(refusal(bot.clone(), &replay), "Cannot apply bot moves while viewing a replay");
    let mut chance = live(vec![]);
    chance.chance = true;
    assert_eq!(refusal(bot, &chance), "Current state is a chance node");
    assert_eq!(refusal(ClientMsg::RunSims { count: 5, target: None }, &chance), "Cannot run sims on chance/terminal state");
    assert_eq!(refusal(analysis_search(), &chance), "Cannot run search on chance/terminal state");
}

#[test]
fn seats_are_zero_and_one() {
    let f = live(vec![]);
    assert!(session_command_check(&ClientMsg::TakeOver { player: 1 }, &f).is_ok());
    assert_eq!(refusal(ClientMsg::TakeOver { player: 2 }, &f), "Invalid player: 2");
    assert_eq!(refusal(ClientMsg::ReleaseControl { player: 9 }, &f), "Invalid player: 9");
    assert_eq!(refusal(ClientMsg::SetConfig { player: 3, simulations: 10 }, &f), "Invalid player: 3");
    assert_eq!(
        refusal(ClientMsg::SetSingleplayer { human_player: Some(5), bot_level: None }, &f),
        "Invalid player: 5"
    );
    assert!(session_command_check(&ClientMsg::SetSingleplayer { human_player: None, bot_level: None }, &f).is_ok());
}

#[test]
fn undo_skips_chance_and_stops_at_singleplayer_barriers() {
    let t = timeline(vec![false, true, false, true], vec![Some(0), None, Some(1), None], vec![false; 4], 4, None);
    assert_eq!(session_undo_target(&t), Some(2));
    let human = timeline(vec![false, true, false, true], vec![Some(0), None, Some(1), None], vec![false; 4], 4, Some(0));
    assert_eq!(session_undo_target(&human), None);
    let own = timeline(vec![false, true], vec![Some(0), None], vec![false, false], 2, Some(0));
    assert_eq!(session_undo_target(&own), Some(0));
    let barrier = timeline(vec![false, true], vec![Some(0), None], vec![true, false], 2, Some(0));
    assert_eq!(session_undo_target(&barrier), None);
    let only_chance = timeline(vec![true, true], vec![None, None], vec![false, false], 2, None);
    assert_eq!(session_undo_target(&only_chance), None);
    let f = facts(false, false, false, vec![], barrier);
    assert_eq!(refusal(ClientMsg::Undo, &f), "Nothing to undo");
}

#[test]
fn redo_and_cursors_stay_in_the_timeline() {
    let f = live(vec![]);
    assert_eq!(refusal(ClientMsg::Redo, &f), "Nothing to redo");
    assert!(session_command_check(&ClientMsg::SetLogCursor { cursor: 3 }, &f).is_ok());
    assert_eq!(
        refusal(ClientMsg::SetLogCursor { cursor: 4 }, &f),
        "History cursor 4 is past the end of the game (3)"
    );
    assert_eq!(refusal(ClientMsg::SetReplayCursor { cursor: 0 }, &f), "No replay is loaded");
    let mut replay = live(vec![]);
    replay.replay_loaded = true;
    replay.timeline.cursor = 0;
    assert!(session_command_check(&ClientMsg::SetReplayCursor { cursor: 2 }, &replay).is_ok());
    assert!(session_command_check(&ClientMsg::Redo, &replay).is_ok());
}

#[test]
fn storage_and_authentication_are_not_the_session_s_business() {
    let f = live(vec![]);
    assert_eq!(refusal(ClientMsg::ListReplays, &f), "Replay storage is not available in this session");
    assert_eq!(
        refusal(ClientMsg::JoinMultiplayerRoom { code: "ABCDEF".into() }, &f),
        "Replay storage is not available in this session"
    );
    assert_eq!(
        refusal(
            ClientMsg::Authenticate { token: "t".into(), anonymous_session: None, clerk_user_id: None, username: None },
            &f
        ),
        "Already authenticated"
    );
    assert!(session_command_check(&ClientMsg::GetState, &f).is_ok());
}

#[test]
fn the_replay_view_takes_loading_search_and_navigation() {
    let load = ClientMsg::LoadReplay { id: "r1".into() };
    assert_eq!(replay_view_step(&load, true, false), ReplayViewStep::LoadReplay);
    assert_eq!(
        replay_view_step(&load, false, true),
        ReplayViewStep::Refuse("Replay storage is not configured".to_string())
    );
    let shared = ClientMsg::LoadSharedReplay { slug: "s".into() };
    assert_eq!(replay_view_step(&shared, true, false), ReplayViewStep::LoadSharedReplay);
    assert_eq!(replay_view_step(&analysis_search(), true, true), ReplayViewStep::RunSearch);
    assert_eq!(
        replay_view_step(&analysis_search(), true, false),
        ReplayViewStep::Refuse("No replay is loaded".to_string())
    );
    assert_eq!(replay_view_step(&ClientMsg::SetReplayCursor { cursor: 1 }, false, true), ReplayViewStep::Forward);
    assert_eq!(
        replay_view_step(&ClientMsg::PauseSearch { target: None }, true, false),
        ReplayViewStep::Refuse("No replay is loaded".to_string())
    );
    assert_eq!(replay_view_step(&ClientMsg::Undo, true, true), ReplayViewStep::Unsupported);
}
