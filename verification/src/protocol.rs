//! Messages and records exchanged with the browser client.
//!
//! These are the plain data shapes; JSON encoding lives with the server
//! binary, which converts to and from copies of these types.

use vstd::prelude::*;

verus! {

/// A saved replay available to the current web user.
#[derive(Clone, Debug, PartialEq, Eq)]
pub struct ReplayEntry {
    pub id: String,
    pub saved_at_ms: u64,
    pub action_count: usize,
    pub result: String,
    pub favorite: bool,
    pub share_slug: String,
}

/// Replay metadata for the currently loaded game state.
#[derive(Clone, Debug, PartialEq, Eq)]
pub struct ReplayState {
    pub id: String,
    pub cursor: usize,
    pub len: usize,
    pub player_names: Option<[String; 2]>,
}

/// Seat summary for an invite-code multiplayer room.
#[derive(Clone, Debug, PartialEq, Eq)]
pub struct MultiplayerPlayer {
    pub occupied: bool,
    pub connected: bool,
    pub you: bool,
    pub name: Option<String>,
    pub time_millis: Option<u64>,
    pub clock_active: bool,
}

/// Spectator summary for an invite-code multiplayer room.
#[derive(Clone, Debug, PartialEq, Eq)]
pub struct MultiplayerSpectator {
    pub you: bool,
    pub name: Option<String>,
}

/// One player-to-player chat message scoped to a live multiplayer room.
#[derive(Clone, Debug, PartialEq, Eq)]
pub struct MultiplayerChatMessage {
    pub id: u64,
    pub sent_at_ms: u64,
    pub player: u8,
    pub name: Option<String>,
    pub text: String,
}

/// Public lobby summary for an invite-code multiplayer room.
#[derive(Clone, Debug, PartialEq, Eq)]
pub struct MultiplayerLobbyRoom {
    pub code: String,
    pub status: String,
    pub occupied: u8,
    pub connected: u8,
    pub spectator_count: u8,
    pub is_public: bool,
    pub time_minutes: Option<u32>,
    pub increment_seconds: Option<u32>,
    pub last_activity_ms: u64,
    pub empty_room_closes_at_ms: Option<u64>,
}

/// Which board state a read-only analysis request should run against.
#[derive(Clone, Copy, Debug, PartialEq, Eq, Structural)]
pub enum ViewTarget {
    Analysis,
    Replay,
}

/// How long a search runs: a number of simulations, or a principal
/// variation depth (optionally capped by a number of simulations).
#[derive(Clone, Copy, Debug, PartialEq, Eq, Structural)]
pub enum SearchBudget {
    Simulations { value: u32 },
    PvDepth { value: u32, simulations: Option<u32> },
}

impl SearchBudget {
    pub fn simulations(value: u32) -> (r: Self)
        ensures
            r == (SearchBudget::Simulations { value }),
    {
        SearchBudget::Simulations { value }
    }

    pub fn pv_depth(value: u32) -> (r: Self)
        ensures
            r == (SearchBudget::PvDepth { value, simulations: None }),
    {
        SearchBudget::PvDepth { value, simulations: None }
    }

    pub fn pv_depth_with_simulations(value: u32, simulations: u32) -> (r: Self)
        ensures
            r == (SearchBudget::PvDepth { value, simulations: Some(simulations) }),
    {
        SearchBudget::PvDepth { value, simulations: Some(simulations) }
    }
}

/// Client → server messages.
#[derive(Clone, Debug, PartialEq, Eq)]
pub enum ClientMsg {
    /// Authenticate the WebSocket before any game state is sent.
    Authenticate {
        token: String,
        anonymous_session: Option<String>,
        clerk_user_id: Option<String>,
        username: Option<String>,
    },
    /// Lightweight keepalive used by the browser to detect stale sockets.
    Ping,
    /// Start a new game (optionally with a seed).
    NewGame { seed: Option<u64> },
    /// Start a game from a browser-edited board layout.
    StartEditedGame {
        terrains: Vec<String>,
        numbers: Vec<Option<u8>>,
        port_layout: Option<String>,
        ports: Option<Vec<String>>,
    },
    /// List saved game logs for this authenticated web session.
    ListReplays,
    /// Load a saved replay by id.
    LoadReplay { id: String },
    /// Load an unlisted shared replay by slug.
    LoadSharedReplay { slug: String },
    /// Delete a saved replay by id.
    DeleteReplay { id: String },
    /// Toggle whether a saved replay is favourited.
    SetReplayFavorite { id: String, favorite: bool },
    /// Save the current live game replay without starting a new game.
    SaveReplay,
    /// Read the current profile for this web session.
    GetProfile,
    /// Legacy username setter. Usernames are managed by Clerk.
    SetUsername { username: String },
    /// Jump to a replay cursor (0..=len).
    SetReplayCursor { cursor: usize },
    /// Human plays an action.
    PlayAction { action: usize },
    /// Resign the current singleplayer game and award the win to the opponent.
    ResignGame,
    /// Create an invite-code multiplayer room.
    CreateMultiplayerRoom {
        preferred_player: Option<u8>,
        code: Option<String>,
        is_public: Option<bool>,
        time_minutes: Option<u32>,
        increment_seconds: Option<u32>,
    },
    /// List visible invite-code multiplayer rooms.
    ListMultiplayerRooms,
    /// Refresh this socket's current multiplayer room state.
    GetMultiplayerRoom,
    /// Join an existing invite-code multiplayer room.
    JoinMultiplayerRoom { code: String },
    /// Leave the current multiplayer room on this socket.
    LeaveMultiplayerRoom,
    /// Human plays an action in the current multiplayer room.
    PlayMultiplayerAction { action: usize },
    /// Send a player-only chat message in the current multiplayer room.
    SendMultiplayerChat { text: String },
    /// Resign the current multiplayer game and award the win to the opponent.
    ResignMultiplayerGame,
    /// Add a small clock bonus to the opponent in the current multiplayer room.
    AddMultiplayerOpponentTime,
    /// Request the bot to play an action.
    BotMove { simulations: Option<u32>, budget: Option<SearchBudget> },
    /// Run N additional simulations on current state (step debugger).
    RunSims { count: u32, target: Option<ViewTarget> },
    /// Run a search with an explicit budget mode.
    RunSearch { budget: SearchBudget, target: Option<ViewTarget> },
    /// Stop an in-progress analysis search, preserving partial results.
    PauseSearch { target: Option<ViewTarget> },
    /// Request current search snapshot.
    GetSnapshot,
    /// Explore a subtree by following an action path.
    ExploreSubtree { action_path: Vec<usize>, depth: usize, target: Option<ViewTarget> },
    /// Take over control of a player (human overrides bot).
    TakeOver { player: u8 },
    /// Release control back to bot.
    ReleaseControl { player: u8 },
    /// Toggle autoplay mode.
    SetAutoplay { enabled: bool, delay_ms: Option<u64> },
    /// Configure singleplayer mode. `None` disables singleplayer-specific UI rules.
    SetSingleplayer { human_player: Option<u8>, bot_level: Option<u8> },
    /// Poll external state. Default: returns current state.
    PollState,
    /// Request current game state.
    GetState,
    /// Undo last action.
    Undo,
    /// Redo previously undone action.
    Redo,
    /// Jump to a raw history cursor (0..=history.len()) from a log entry.
    SetLogCursor { cursor: usize },
    /// Configure per-player settings.
    SetConfig { player: u8, simulations: u32 },
    /// Enable/disable continuous background search with a search budget.
    SetAutoSearch { enabled: bool, target: Option<u32>, budget: Option<SearchBudget> },
}

/// A legal action and its label.
#[derive(Clone, Debug, PartialEq, Eq)]
pub struct ActionInfo {
    pub action: usize,
    pub label: String,
}

/// Messages that address the multiplayer room of the socket.
pub open spec fn spec_is_multiplayer_msg(msg: ClientMsg) -> bool {
    ||| msg is CreateMultiplayerRoom
    ||| msg is ListMultiplayerRooms
    ||| msg is GetMultiplayerRoom
    ||| msg is JoinMultiplayerRoom
    ||| msg is LeaveMultiplayerRoom
    ||| msg is PlayMultiplayerAction
    ||| msg is SendMultiplayerChat
    ||| msg is ResignMultiplayerGame
    ||| msg is AddMultiplayerOpponentTime
}

/// Messages about the socket's own game, which a socket in a multiplayer
/// room may not send.
pub open spec fn spec_is_blocked_while_in_multiplayer(msg: ClientMsg) -> bool {
    ||| msg is NewGame
    ||| msg is StartEditedGame
    ||| msg is SaveReplay
    ||| msg is PlayAction
    ||| msg is ResignGame
    ||| msg is BotMove
    ||| msg is RunSims
    ||| msg is RunSearch
    ||| msg is PauseSearch
    ||| msg is GetSnapshot
    ||| msg is ExploreSubtree
    ||| msg is TakeOver
    ||| msg is ReleaseControl
    ||| msg is SetAutoplay
    ||| msg is SetSingleplayer
    ||| msg is Undo
    ||| msg is Redo
    ||| msg is SetLogCursor
    ||| msg is SetConfig
    ||| msg is SetAutoSearch
}

/// The board a message addresses: replay messages the loaded replay,
/// searches their explicit target (the analysis board by default).
pub open spec fn spec_client_msg_target(msg: ClientMsg) -> ViewTarget {
    match msg {
        ClientMsg::LoadReplay { .. } => ViewTarget::Replay,
        ClientMsg::LoadSharedReplay { .. } => ViewTarget::Replay,
        ClientMsg::SetReplayCursor { .. } => ViewTarget::Replay,
        ClientMsg::RunSims { target, .. } => target.unwrap_or(ViewTarget::Analysis),
        ClientMsg::RunSearch { target, .. } => target.unwrap_or(ViewTarget::Analysis),
        ClientMsg::PauseSearch { target } => target.unwrap_or(ViewTarget::Analysis),
        ClientMsg::ExploreSubtree { target, .. } => target.unwrap_or(ViewTarget::Analysis),
        _ => ViewTarget::Analysis,
    }
}

pub fn is_multiplayer_msg(msg: &ClientMsg) -> (r: bool)
    ensures
        r == spec_is_multiplayer_msg(*msg),
{
    match msg {
        ClientMsg::CreateMultiplayerRoom { .. } | ClientMsg::ListMultiplayerRooms
        | ClientMsg::GetMultiplayerRoom | ClientMsg::JoinMultiplayerRoom { .. }
        | ClientMsg::LeaveMultiplayerRoom | ClientMsg::PlayMultiplayerAction { .. }
        | ClientMsg::SendMultiplayerChat { .. } | ClientMsg::ResignMultiplayerGame
        | ClientMsg::AddMultiplayerOpponentTime => true,
        _ => false,
    }
}

pub fn is_blocked_while_in_multiplayer(msg: &ClientMsg) -> (r: bool)
    ensures
        r == spec_is_blocked_while_in_multiplayer(*msg),
{
    match msg {
        ClientMsg::NewGame { .. } | ClientMsg::StartEditedGame { .. } | ClientMsg::SaveReplay
        | ClientMsg::PlayAction { .. } | ClientMsg::ResignGame | ClientMsg::BotMove { .. }
        | ClientMsg::RunSims { .. } | ClientMsg::RunSearch { .. } | ClientMsg::PauseSearch { .. }
        | ClientMsg::GetSnapshot | ClientMsg::ExploreSubtree { .. } | ClientMsg::TakeOver { .. }
        | ClientMsg::ReleaseControl { .. } | ClientMsg::SetAutoplay { .. }
        | ClientMsg::SetSingleplayer { .. } | ClientMsg::Undo | ClientMsg::Redo
        | ClientMsg::SetLogCursor { .. } | ClientMsg::SetConfig { .. }
        | ClientMsg::SetAutoSearch { .. } => true,
        _ => false,
    }
}

pub fn client_msg_target(msg: &ClientMsg) -> (r: ViewTarget)
    ensures
        r == spec_client_msg_target(*msg),
{
    match msg {
        ClientMsg::LoadReplay { .. } | ClientMsg::LoadSharedReplay { .. }
        | ClientMsg::SetReplayCursor { .. } => ViewTarget::Replay,
        ClientMsg::RunSims { target, .. } | ClientMsg::RunSearch { target, .. }
        | ClientMsg::PauseSearch { target } | ClientMsg::ExploreSubtree { target, .. } => {
            match target {
                Some(t) => *t,
                None => ViewTarget::Analysis,
            }
        },
        _ => ViewTarget::Analysis,
    }
}

/// No message is both a multiplayer message and one blocked while in a
/// multiplayer room.
pub proof fn lemma_multiplayer_messages_are_not_blocked(msg: ClientMsg)
    ensures
        !(spec_is_multiplayer_msg(msg) && spec_is_blocked_while_in_multiplayer(msg)),
{
}

/// The largest WebSocket text message the server reads.
pub const MAX_WEBSOCKET_MESSAGE_BYTES: usize = 65536;

/// Whether a WebSocket text message of `len` bytes is read; a longer one
/// is answered "WebSocket message is too large".
pub fn message_size_accepted(len: usize) -> (r: bool)
    ensures
        r == (len <= MAX_WEBSOCKET_MESSAGE_BYTES),
{
    len <= MAX_WEBSOCKET_MESSAGE_BYTES
}

/// Who handles a message of an authenticated socket.
#[derive(Clone, Copy, Debug, PartialEq, Eq, Structural)]
pub enum MessageRoute {
    /// A keepalive, answered with a pong.
    Pong,
    /// The profile of the user.
    Profile,
    /// The multiplayer room of the socket.
    Multiplayer,
    /// Refused: the socket is in a multiplayer room.
    BlockedInMultiplayer,
    /// The loaded replay.
    Replay,
    /// The socket's own live game.
    Live,
}

/// Where a message goes, given whether the socket is in a multiplayer
/// room: keepalives and profile requests first; then multiplayer messages,
/// and undo and redo inside a room; then, inside a room, the controls of
/// the socket's own game are refused; the rest goes to the board the
/// message addresses.
pub open spec fn spec_route_client_msg(msg: ClientMsg, in_room: bool) -> MessageRoute {
    if msg is Ping {
        MessageRoute::Pong
    } else if msg is GetProfile || msg is SetUsername {
        MessageRoute::Profile
    } else if spec_is_multiplayer_msg(msg) || (in_room && (msg is Undo || msg is Redo)) {
        MessageRoute::Multiplayer
    } else if in_room && spec_is_blocked_while_in_multiplayer(msg) {
        MessageRoute::BlockedInMultiplayer
    } else if spec_client_msg_target(msg) == ViewTarget::Replay {
        MessageRoute::Replay
    } else {
        MessageRoute::Live
    }
}

pub fn route_client_msg(msg: &ClientMsg, in_room: bool) -> (r: MessageRoute)
    ensures
        r == spec_route_client_msg(*msg, in_room),
{
    match msg {
        ClientMsg::Ping => return MessageRoute::Pong,
        ClientMsg::GetProfile | ClientMsg::SetUsername { .. } => return MessageRoute::Profile,
        _ => {},
    }
    let history = match msg {
        ClientMsg::Undo | ClientMsg::Redo => true,
        _ => false,
    };
    if is_multiplayer_msg(msg) || (in_room && history) {
        MessageRoute::Multiplayer
    } else if in_room && is_blocked_while_in_multiplayer(msg) {
        MessageRoute::BlockedInMultiplayer
    } else if client_msg_target(msg) == ViewTarget::Replay {
        MessageRoute::Replay
    } else {
        MessageRoute::Live
    }
}

/// How a message changes the socket's standing search: `SetAutoSearch`
/// sets it (its budget, or that many simulations, none by default) or
/// clears it; other messages leave it (`None`).
pub fn auto_search_update(msg: &ClientMsg) -> (r: Option<Option<SearchBudget>>)
    ensures
        !(msg is SetAutoSearch) ==> r is None,
        *msg matches ClientMsg::SetAutoSearch { enabled, target, budget } ==> r == Some(
            if enabled {
                Some(
                    match budget {
                        Some(b) => b,
                        None => SearchBudget::Simulations {
                            value: match target {
                                Some(t) => t,
                                None => 0,
                            },
                        },
                    },
                )
            } else {
                None::<SearchBudget>
            },
        ),
{
    match msg {
        ClientMsg::SetAutoSearch { enabled, target, budget } => {
            let b = match budget {
                Some(b) => *b,
                None => SearchBudget::simulations(
                    match target {
                        Some(t) => *t,
                        None => 0,
                    },
                ),
            };
            Some(
                if *enabled {
                    Some(b)
                } else {
                    None
                },
            )
        },
        _ => None,
    }
}

} // verus!
