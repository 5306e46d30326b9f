//! The rules a game session applies before it touches the engine: which
//! commands are refused in its present state, where undo steps back to in
//! singleplayer, and how a message that arrives while a search runs is met.

use vstd::prelude::*;
use crate::protocol::{ClientMsg, ViewTarget, spec_client_msg_target, client_msg_target};
use crate::history::{spec_undo_target, undo_target, check_history_cursor};
use crate::numtext::{decimal, push_decimal};
use crate::text::{extend_str, string_of};

verus! {

/// What becomes of a message that arrives while a search runs.
#[derive(Clone, Debug, PartialEq, Eq)]
pub enum InterruptAction {
    /// Answer a keepalive and let the search go on.
    Pong,
    /// Answer with this error and let the search go on.
    Refuse(String),
    /// Pause the search and answer with what it found.
    Pause,
    /// Pause the search, then play the action.
    PauseThenPlay,
}

/// How a message that arrives during the search started by `active` is
/// met: a keepalive is answered; a pause stops an analysis search of the
/// same board; an action stops an analysis search of the live board and is
/// played; bot moves are never interrupted, and anything else waits.
pub open spec fn interrupt_fits(incoming: ClientMsg, active: ClientMsg, r: InterruptAction) -> bool {
    match incoming {
        ClientMsg::Ping => r is Pong,
        ClientMsg::PauseSearch { .. } => if active is BotMove {
            r matches InterruptAction::Refuse(m) && m@ == "Bot moves cannot be paused"@
        } else if spec_client_msg_target(incoming) != spec_client_msg_target(active) {
            r matches InterruptAction::Refuse(m) && m@ == "Pause target does not match the active search"@
        } else {
            r is Pause
        },
        ClientMsg::PlayAction { .. } => if active is BotMove {
            r matches InterruptAction::Refuse(m) && m@ == "Bot moves cannot be interrupted"@
        } else if spec_client_msg_target(active) != ViewTarget::Analysis {
            r matches InterruptAction::Refuse(m) && m@ == "Cannot play actions during a replay search"@
        } else {
            r is PauseThenPlay
        },
        _ => r matches InterruptAction::Refuse(m) && m@
            == "Search is running; pause before sending another command"@,
    }
}

/// A search is only stopped on purpose: a bot move is never paused or
/// interrupted; a pause stops only a search of the board it names; an
/// action stops only a search of the live board; a keepalive is always
/// answered; nothing else stops a search.
pub proof fn lemma_searches_stop_only_on_purpose(incoming: ClientMsg, active: ClientMsg, r: InterruptAction)
    requires
        interrupt_fits(incoming, active, r),
    ensures
        active is BotMove ==> !(r is Pause) && !(r is PauseThenPlay),
        r is Pause ==> incoming is PauseSearch && spec_client_msg_target(incoming) == spec_client_msg_target(
            active,
        ),
        r is PauseThenPlay ==> incoming is PlayAction && spec_client_msg_target(active) == ViewTarget::Analysis,
        (r is Pong) == (incoming is Ping),
        !(incoming is Ping || incoming is PauseSearch || incoming is PlayAction) ==> r is Refuse,
{
}

/// Without storage nothing is loaded, and without a loaded replay nothing
/// is searched or moved in the replay view.
pub proof fn lemma_replay_view_needs_a_replay(msg: ClientMsg, storage: bool, loaded: bool, r: ReplayViewStep)
    requires
        replay_view_fits(msg, storage, loaded, r),
    ensures
        !storage ==> !(r is LoadReplay) && !(r is LoadSharedReplay),
        !loaded ==> !(r is RunSearch) && !(r is Forward),
        (r is LoadReplay) ==> msg is LoadReplay,
        (r is RunSearch) ==> (msg is RunSims || msg is RunSearch),
{
}

/// Decides what to do with `incoming`, which arrived while the search
/// started by `active` runs.
pub fn search_interrupt_action(incoming: &ClientMsg, active: &ClientMsg) -> (r: InterruptAction)
    ensures
        interrupt_fits(*incoming, *active, r),
{
    match incoming {
        ClientMsg::Ping => InterruptAction::Pong,
        ClientMsg::PauseSearch { .. } => {
            if let ClientMsg::BotMove { .. } = active {
                return InterruptAction::Refuse("Bot moves cannot be paused".to_string());
            }
            if client_msg_target(incoming) != client_msg_target(active) {
                return InterruptAction::Refuse("Pause target does not match the active search".to_string());
            }
            InterruptAction::Pause
        },
        ClientMsg::PlayAction { .. } => {
            if let ClientMsg::BotMove { .. } = active {
                return InterruptAction::Refuse("Bot moves cannot be interrupted".to_string());
            }
            if client_msg_target(active) != ViewTarget::Analysis {
                return InterruptAction::Refuse("Cannot play actions during a replay search".to_string());
            }
            InterruptAction::PauseThenPlay
        },
        _ => InterruptAction::Refuse("Search is running; pause before sending another command".to_string()),
    }
}


/// The timeline of a session as the guards see it: for each entry whether
/// it is a chance outcome, who acted in it, and whether singleplayer undo
/// may not step back past it; the cursor; and the seat of the human in
/// singleplayer mode.
pub struct SessionTimeline {
    pub is_chance: Vec<bool>,
    pub actors: Vec<Option<usize>>,
    pub undo_barriers: Vec<bool>,
    pub cursor: usize,
    pub singleplayer_human: Option<usize>,
}

impl SessionTimeline {
    pub open spec fn wf(&self) -> bool {
        &&& self.actors@.len() == self.is_chance@.len()
        &&& self.undo_barriers@.len() == self.is_chance@.len()
        &&& self.cursor <= self.is_chance@.len()
    }
}

/// The entry undo steps back to: the last decision before the cursor; in
/// singleplayer only one that the human made and that is no barrier.
pub open spec fn spec_session_undo_target(t: SessionTimeline) -> Option<int> {
    match spec_undo_target(t.is_chance@, t.cursor as int) {
        None => None,
        Some(target) => match t.singleplayer_human {
            None => Some(target),
            Some(h) => if t.actors@[target] != Some(h) || t.undo_barriers@[target] {
                None
            } else {
                Some(target)
            },
        },
    }
}

/// Finds the entry undo steps back to.
pub fn session_undo_target(t: &SessionTimeline) -> (r: Option<usize>)
    requires
        t.wf(),
    ensures
        r matches Some(i) ==> spec_session_undo_target(*t) == Some(i as int),
        r is None ==> spec_session_undo_target(*t) is None,
{
    let target = match undo_target(t.is_chance.as_slice(), t.cursor) {
        None => return None,
        Some(target) => target,
    };
    proof {
        assert(0 <= target < t.cursor) by {
            lemma_undo_target_before(t.is_chance@, t.cursor as int);
        }
    }
    match t.singleplayer_human {
        None => Some(target),
        Some(h) => {
            if t.actors[target] != Some(h) || t.undo_barriers[target] {
                None
            } else {
                Some(target)
            }
        },
    }
}

/// The undo target lies before the cursor.
proof fn lemma_undo_target_before(is_chance: Seq<bool>, cursor: int)
    requires
        cursor <= is_chance.len(),
    ensures
        spec_undo_target(is_chance, cursor) matches Some(t) ==> 0 <= t < cursor,
    decreases cursor,
{
    if cursor > 0 && is_chance[cursor - 1] {
        lemma_undo_target_before(is_chance, cursor - 1);
    }
}

/// Undo only ever steps back, to a decision: the target lies before the
/// cursor, is no chance outcome, and only chance outcomes lie between it
/// and the cursor; in singleplayer it is a move the human made that is no
/// barrier. Outside singleplayer undo is refused only when no decision
/// lies before the cursor.
pub proof fn lemma_undo_steps_back_to_a_decision(t: SessionTimeline)
    requires
        t.wf(),
    ensures
        spec_session_undo_target(t) matches Some(target) ==> {
            &&& 0 <= target < t.cursor
            &&& !t.is_chance@[target]
            &&& forall|j: int| target < j < t.cursor ==> #[trigger] t.is_chance@[j]
            &&& t.singleplayer_human matches Some(h) ==> t.actors@[target] == Some(h) && !t.undo_barriers@[target]
        },
        t.singleplayer_human is None && spec_session_undo_target(t) is None ==> forall|j: int|
            0 <= j < t.cursor ==> #[trigger] t.is_chance@[j],
{
    lemma_undo_target_shape(t.is_chance@, t.cursor as int);
}

proof fn lemma_undo_target_shape(is_chance: Seq<bool>, cursor: int)
    requires
        0 <= cursor <= is_chance.len(),
    ensures
        spec_undo_target(is_chance, cursor) matches Some(target) ==> 0 <= target < cursor && !is_chance[target]
            && forall|j: int| target < j < cursor ==> #[trigger] is_chance[j],
        spec_undo_target(is_chance, cursor) is None ==> forall|j: int| 0 <= j < cursor ==> #[trigger] is_chance[j],
    decreases cursor,
{
    if cursor > 0 && is_chance[cursor - 1] {
        lemma_undo_target_shape(is_chance, cursor - 1);
    }
}

/// Seats are 0 and 1, and redo and cursor moves stay in the timeline: a
/// seat command is refused exactly for other seats, redo exactly at the
/// end, and a log cursor exactly past the end.
pub proof fn lemma_session_bounds(f: SessionFacts, player: u8, simulations: u32, cursor: usize)
    requires
        f.timeline.wf(),
    ensures
        (spec_session_refusal(ClientMsg::TakeOver { player }, f) is Some) == (player >= 2),
        (spec_session_refusal(ClientMsg::ReleaseControl { player }, f) is Some) == (player >= 2),
        (spec_session_refusal(ClientMsg::SetConfig { player, simulations }, f) is Some) == (player >= 2),
        (spec_session_refusal(ClientMsg::Redo, f) is Some) == (f.timeline.cursor >= f.timeline.is_chance@.len()),
        (spec_session_refusal(ClientMsg::SetLogCursor { cursor }, f) is Some) == (cursor
            > f.timeline.is_chance@.len()),
        (spec_session_refusal(ClientMsg::SetReplayCursor { cursor }, f) is None) == (f.replay_loaded && cursor
            <= f.timeline.is_chance@.len()),
{
}

/// What the session knows of its present state when a command comes.
pub struct SessionFacts {
    pub replay_loaded: bool,
    pub terminal: bool,
    pub chance: bool,
    pub legal_actions: Vec<usize>,
    pub timeline: SessionTimeline,
}

/// Commands that need replay storage, which a bare session lacks.
pub open spec fn needs_replay_storage(msg: ClientMsg) -> bool {
    ||| msg is ListReplays
    ||| msg is LoadReplay
    ||| msg is LoadSharedReplay
    ||| msg is DeleteReplay
    ||| msg is SetReplayFavorite
    ||| msg is CreateMultiplayerRoom
    ||| msg is ListMultiplayerRooms
    ||| msg is JoinMultiplayerRoom
    ||| msg is LeaveMultiplayerRoom
    ||| msg is PlayMultiplayerAction
    ||| msg is AddMultiplayerOpponentTime
}

pub open spec fn invalid_player(p: nat) -> Seq<char> {
    "Invalid player: "@ + decimal(p)
}

pub open spec fn cursor_past_end(cursor: nat, len: nat) -> Seq<char> {
    "History cursor "@ + decimal(cursor) + " is past the end of the game ("@ + decimal(len) + ")"@
}

/// Why the session refuses `msg` in the state `f`, if it does: nothing
/// is played in a replay or after the game ended, actions must be legal,
/// the bot and searches need a decision to make, seats are 0 and 1, undo
/// and redo need something to step to, and cursors stay in the timeline.
pub open spec fn spec_session_refusal(msg: ClientMsg, f: SessionFacts) -> Option<Seq<char>> {
    let len = f.timeline.is_chance@.len();
    match msg {
        ClientMsg::Authenticate { .. } => Some("Already authenticated"@),
        ClientMsg::PlayAction { action } => if f.replay_loaded {
            Some("Cannot play actions while viewing a replay"@)
        } else if f.terminal {
            Some("Game is over"@)
        } else if !f.legal_actions@.contains(action) {
            Some("Illegal action: "@ + decimal(action as nat))
        } else {
            None
        },
        ClientMsg::BotMove { .. } => if f.replay_loaded {
            Some("Cannot apply bot moves while viewing a replay"@)
        } else if f.terminal {
            Some("Game is over"@)
        } else if f.chance {
            Some("Current state is a chance node"@)
        } else {
            None
        },
        ClientMsg::RunSims { .. } => if f.terminal || f.chance {
            Some("Cannot run sims on chance/terminal state"@)
        } else {
            None
        },
        ClientMsg::RunSearch { .. } => if f.terminal || f.chance {
            Some("Cannot run search on chance/terminal state"@)
        } else {
            None
        },
        ClientMsg::TakeOver { player } => if player >= 2 { Some(invalid_player(player as nat)) } else { None },
        ClientMsg::ReleaseControl { player } => if player >= 2 { Some(invalid_player(player as nat)) } else { None },
        ClientMsg::SetConfig { player, .. } => if player >= 2 { Some(invalid_player(player as nat)) } else { None },
        ClientMsg::SetSingleplayer { human_player, .. } => match human_player {
            Some(p) => if p >= 2 { Some(invalid_player(p as nat)) } else { None },
            None => None,
        },
        ClientMsg::Undo => if spec_session_undo_target(f.timeline) is None {
            Some("Nothing to undo"@)
        } else {
            None
        },
        ClientMsg::Redo => if f.timeline.cursor >= len {
            Some("Nothing to redo"@)
        } else {
            None
        },
        ClientMsg::SetLogCursor { cursor } => if cursor > len {
            Some(cursor_past_end(cursor as nat, len))
        } else {
            None
        },
        ClientMsg::SetReplayCursor { cursor } => if !f.replay_loaded {
            Some("No replay is loaded"@)
        } else if cursor > len {
            Some(cursor_past_end(cursor as nat, len))
        } else {
            None
        },
        _ => if needs_replay_storage(msg) {
            Some("Replay storage is not available in this session"@)
        } else {
            None
        },
    }
}

/// A finished game takes no more moves: on a terminal state outside a
/// replay, playing an action and asking for a bot move are refused with
/// "Game is over", and searches are refused; in a replay, actions and bot
/// moves are refused before anything else; at a chance node the bot and
/// the searches wait.
pub proof fn lemma_finished_games_take_no_moves(f: SessionFacts, action: usize, msg: ClientMsg)
    ensures
        !f.replay_loaded && f.terminal ==> spec_session_refusal(ClientMsg::PlayAction { action }, f)
            == Some("Game is over"@),
        !f.replay_loaded && f.terminal && msg is BotMove ==> spec_session_refusal(msg, f) == Some(
            "Game is over"@,
        ),
        f.replay_loaded ==> spec_session_refusal(ClientMsg::PlayAction { action }, f) == Some(
            "Cannot play actions while viewing a replay"@,
        ),
        f.replay_loaded && msg is BotMove ==> spec_session_refusal(msg, f) == Some(
            "Cannot apply bot moves while viewing a replay"@,
        ),
        !f.replay_loaded && !f.terminal && f.chance && msg is BotMove ==> spec_session_refusal(msg, f)
            == Some("Current state is a chance node"@),
        (f.terminal || f.chance) && msg is RunSims ==> spec_session_refusal(msg, f) is Some,
        (f.terminal || f.chance) && msg is RunSearch ==> spec_session_refusal(msg, f) is Some,
        !f.replay_loaded && !f.terminal && !f.chance && msg is BotMove ==> spec_session_refusal(msg, f)
            is None,
        !f.replay_loaded && !f.terminal && f.legal_actions@.contains(action) ==> spec_session_refusal(
            ClientMsg::PlayAction { action },
            f,
        ) is None,
{
}

/// Whether `list` holds `x`.
fn holds(list: &Vec<usize>, x: usize) -> (r: bool)
    ensures
        r == list@.contains(x),
{
    let mut i: usize = 0;
    while i < list.len()
        invariant
            i <= list@.len(),
            forall|j: int| 0 <= j < i ==> list@[j] != x,
        decreases list.len() - i,
    {
        if list[i] == x {
            assert(list@[i as int] == x);
            return true;
        }
        i += 1;
    }
    false
}

fn invalid_player_message(p: u8) -> (m: String)
    ensures
        m@ == invalid_player(p as nat),
{
    let mut out: Vec<char> = Vec::new();
    extend_str(&mut out, "Invalid player: ");
    push_decimal(&mut out, p as u64);
    string_of(&out)
}

/// Checks a command against the session's state before any engine work:
/// `Ok` where the session goes ahead, else the error it answers with.
pub fn session_command_check(msg: &ClientMsg, f: &SessionFacts) -> (r: Result<(), String>)
    requires
        f.timeline.wf(),
    ensures
        r is Ok <==> spec_session_refusal(*msg, *f) is None,
        r matches Err(m) ==> spec_session_refusal(*msg, *f) == Some(m@),
{
    let len = f.timeline.is_chance.len();
    match msg {
        ClientMsg::Authenticate { .. } => Err("Already authenticated".to_string()),
        ClientMsg::PlayAction { action } => {
            if f.replay_loaded {
                return Err("Cannot play actions while viewing a replay".to_string());
            }
            if f.terminal {
                return Err("Game is over".to_string());
            }
            if !holds(&f.legal_actions, *action) {
                let mut out: Vec<char> = Vec::new();
                extend_str(&mut out, "Illegal action: ");
                push_decimal(&mut out, *action as u64);
                return Err(string_of(&out));
            }
            Ok(())
        },
        ClientMsg::BotMove { .. } => {
            if f.replay_loaded {
                return Err("Cannot apply bot moves while viewing a replay".to_string());
            }
            if f.terminal {
                return Err("Game is over".to_string());
            }
            if f.chance {
                return Err("Current state is a chance node".to_string());
            }
            Ok(())
        },
        ClientMsg::RunSims { .. } => if f.terminal || f.chance {
            Err("Cannot run sims on chance/terminal state".to_string())
        } else {
            Ok(())
        },
        ClientMsg::RunSearch { .. } => if f.terminal || f.chance {
            Err("Cannot run search on chance/terminal state".to_string())
        } else {
            Ok(())
        },
        ClientMsg::TakeOver { player } | ClientMsg::ReleaseControl { player } | ClientMsg::SetConfig {
            player,
            ..
        } => if *player >= 2 {
            Err(invalid_player_message(*player))
        } else {
            Ok(())
        },
        ClientMsg::SetSingleplayer { human_player, .. } => match human_player {
            Some(p) => if *p >= 2 {
                Err(invalid_player_message(*p))
            } else {
                Ok(())
            },
            None => Ok(()),
        },
        ClientMsg::Undo => match session_undo_target(&f.timeline) {
            None => Err("Nothing to undo".to_string()),
            Some(_) => Ok(()),
        },
        ClientMsg::Redo => if f.timeline.cursor >= len {
            Err("Nothing to redo".to_string())
        } else {
            Ok(())
        },
        ClientMsg::SetLogCursor { cursor } => check_history_cursor(*cursor, len),
        ClientMsg::SetReplayCursor { cursor } => {
            if !f.replay_loaded {
                return Err("No replay is loaded".to_string());
            }
            check_history_cursor(*cursor, len)
        },
        ClientMsg::ListReplays | ClientMsg::LoadReplay { .. } | ClientMsg::LoadSharedReplay { .. }
        | ClientMsg::DeleteReplay { .. } | ClientMsg::SetReplayFavorite { .. }
        | ClientMsg::CreateMultiplayerRoom { .. } | ClientMsg::ListMultiplayerRooms
        | ClientMsg::JoinMultiplayerRoom { .. } | ClientMsg::LeaveMultiplayerRoom
        | ClientMsg::PlayMultiplayerAction { .. } | ClientMsg::AddMultiplayerOpponentTime => Err(
            "Replay storage is not available in this session".to_string(),
        ),
        _ => Ok(()),
    }
}


/// What the replay view does with a message.
#[derive(Clone, Debug, PartialEq, Eq)]
pub enum ReplayViewStep {
    /// Load the user's saved replay from storage.
    LoadReplay,
    /// Load a shared replay from storage by its slug.
    LoadSharedReplay,
    /// Run the search on the loaded replay.
    RunSearch,
    /// Hand the message to the loaded replay's session.
    Forward,
    /// Answer with this error.
    Refuse(String),
    /// The replay view does not take this message.
    Unsupported,
}

/// How the replay view meets `msg`: loading needs replay storage; search,
/// cursor moves, pausing and exploring need a loaded replay; nothing else
/// is taken.
pub open spec fn replay_view_fits(msg: ClientMsg, storage: bool, loaded: bool, r: ReplayViewStep) -> bool {
    match msg {
        ClientMsg::LoadReplay { .. } => if storage {
            r is LoadReplay
        } else {
            r matches ReplayViewStep::Refuse(m) && m@ == "Replay storage is not configured"@
        },
        ClientMsg::LoadSharedReplay { .. } => if storage {
            r is LoadSharedReplay
        } else {
            r matches ReplayViewStep::Refuse(m) && m@ == "Replay storage is not configured"@
        },
        ClientMsg::RunSims { .. } | ClientMsg::RunSearch { .. } => if loaded {
            r is RunSearch
        } else {
            r matches ReplayViewStep::Refuse(m) && m@ == "No replay is loaded"@
        },
        ClientMsg::SetReplayCursor { .. } | ClientMsg::PauseSearch { .. } | ClientMsg::ExploreSubtree {
            ..
        } => if loaded {
            r is Forward
        } else {
            r matches ReplayViewStep::Refuse(m) && m@ == "No replay is loaded"@
        },
        _ => r is Unsupported,
    }
}

/// Decides what the replay view does with `msg`, given whether replay
/// storage is configured and whether a replay is loaded.
pub fn replay_view_step(msg: &ClientMsg, storage_configured: bool, replay_loaded: bool) -> (r: ReplayViewStep)
    ensures
        replay_view_fits(*msg, storage_configured, replay_loaded, r),
{
    match msg {
        ClientMsg::LoadReplay { .. } => if storage_configured {
            ReplayViewStep::LoadReplay
        } else {
            ReplayViewStep::Refuse("Replay storage is not configured".to_string())
        },
        ClientMsg::LoadSharedReplay { .. } => if storage_configured {
            ReplayViewStep::LoadSharedReplay
        } else {
            ReplayViewStep::Refuse("Replay storage is not configured".to_string())
        },
        ClientMsg::RunSims { .. } | ClientMsg::RunSearch { .. } => if replay_loaded {
            ReplayViewStep::RunSearch
        } else {
            ReplayViewStep::Refuse("No replay is loaded".to_string())
        },
        ClientMsg::SetReplayCursor { .. } | ClientMsg::PauseSearch { .. } | ClientMsg::ExploreSubtree {
            ..
        } => if replay_loaded {
            ReplayViewStep::Forward
        } else {
            ReplayViewStep::Refuse("No replay is loaded".to_string())
        },
        _ => ReplayViewStep::Unsupported,
    }
}

} // verus!
