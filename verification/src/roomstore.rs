//! The in-memory multiplayer rooms of a server: creating and joining rooms
//! by code, the public lobby, and the standing rooms where a managed bot
//! waits for an opponent.

use vstd::prelude::*;
use crate::text::str_eq;
use crate::room::{
    lemma_room_code_is_normal, normalize_room_code, normalize_room_increment_seconds, normalize_room_time_minutes,
    spec_normalize_room_code, ManagedBotLobbySlot, MultiplayerViewer, SeatOwner, SeatOwnerKind,
};
use crate::clock::{add_seconds_view, initial_remaining, lemma_added_time_is_settled, refresh_view, ClockView};
use crate::budget::clamp;
use crate::chat::{keep_latest, spec_sanitize_chat_text, MULTIPLAYER_CHAT_HISTORY_LIMIT};
use crate::memroom::{
    copy_history, held_by, multiplayer_command_gate, seat_of, seat_connected, sockets_without_user, spec_command_gate,
    spectator_entries, RoomState, RoomView,
};
use crate::protocol::{ClientMsg, MultiplayerChatMessage, MultiplayerLobbyRoom};
use crate::order::{in_listing_order, sort_lobby_rooms};
use crate::rng::{new_room_code, random_bool};

verus! {

/// How many random codes are tried for a new room.
pub const ROOM_CODE_ATTEMPTS: usize = 64;

/// The order in which the managed-bot slots are kept.
pub open spec fn slot_rank(slot: ManagedBotLobbySlot) -> int {
    match slot {
        ManagedBotLobbySlot::FiveThree => 0,
        ManagedBotLobbySlot::FifteenOne => 1,
        ManagedBotLobbySlot::ThirtyZero => 2,
    }
}

/// The room of a managed-bot slot is due to be replaced.
pub open spec fn slot_due(rooms: Seq<RoomState>, slot: ManagedBotLobbySlot, now_ms: u64) -> bool {
    exists|i: int|
        0 <= i < rooms.len() && (#[trigger] rooms[i]).managed_bot_slot == Some(slot)
            && rooms[i].needs_managed_refresh(now_ms)
}

/// No room stands for a managed-bot slot.
pub open spec fn slot_missing(rooms: Seq<RoomState>, slot: ManagedBotLobbySlot) -> bool {
    forall|i: int| 0 <= i < rooms.len() ==> (#[trigger] rooms[i]).managed_bot_slot != Some(slot)
}

/// A slot that has a room keeps it when another room is added.
proof fn lemma_push_keeps_slot(rooms: Seq<RoomState>, room: RoomState, slot: ManagedBotLobbySlot)
    requires
        !slot_missing(rooms, slot),
    ensures
        !slot_missing(rooms.push(room), slot),
{
    let i = choose|i: int| 0 <= i < rooms.len() && (#[trigger] rooms[i]).managed_bot_slot == Some(slot);
    assert(rooms.push(room)[i] == rooms[i]);
}

/// A slot that has a room keeps it when a room of another slot is removed.
proof fn lemma_remove_keeps_slot(rooms: Seq<RoomState>, index: int, slot: ManagedBotLobbySlot)
    requires
        0 <= index < rooms.len(),
        !slot_missing(rooms, slot),
        rooms[index].managed_bot_slot != Some(slot),
    ensures
        !slot_missing(rooms.remove(index), slot),
{
    let i = choose|i: int| 0 <= i < rooms.len() && (#[trigger] rooms[i]).managed_bot_slot == Some(slot);
    let j = if i < index { i } else { i - 1 };
    assert(rooms.remove(index)[j] == rooms[i]);
}

/// No two rooms stand for the same managed-bot slot.
pub open spec fn slots_distinct(rooms: Seq<RoomState>) -> bool {
    forall|i: int, j: int|
        0 <= i < j < rooms.len() && (#[trigger] rooms[i]).managed_bot_slot is Some
            ==> rooms[i].managed_bot_slot != (#[trigger] rooms[j]).managed_bot_slot
}

/// No two rooms share a code.
pub open spec fn codes_distinct(rooms: Seq<RoomState>) -> bool {
    forall|i: int, j: int| 0 <= i < j < rooms.len() ==> (#[trigger] rooms[i]).code@ != (
    #[trigger] rooms[j]).code@
}

pub open spec fn has_code(rooms: Seq<RoomState>, code: Seq<char>) -> bool {
    exists|i: int| 0 <= i < rooms.len() && (#[trigger] rooms[i]).code@ == code
}

/// The seat a room's creator takes: seat 1 when asked for, a random seat
/// when no seat is asked for, seat 0 otherwise.
pub open spec fn creator_seat(preferred: Option<u8>, coin: bool) -> usize {
    match preferred {
        None => if coin {
            1
        } else {
            0
        },
        Some(p) => if p == 1 {
            1
        } else {
            0
        },
    }
}

/// The lobby entry is how the lobby lists a public room of the store.
pub open spec fn listed_room(rooms: Seq<RoomState>, entry: MultiplayerLobbyRoom) -> bool {
    exists|i: int|
        0 <= i < rooms.len() && (#[trigger] rooms[i]).is_public && rooms[i].is_lobby_entry(entry)
}

/// No seat of the room is connected.
pub open spec fn no_seat_connected(room: RoomState) -> bool {
    !seat_connected(room.seats, room.sockets@, 0) && !seat_connected(room.seats, room.sockets@, 1)
}

/// The room at `i` is the one registered under `code` with this id.
pub open spec fn room_at(rooms: Seq<RoomState>, i: int, code: Seq<char>, room_id: u64) -> bool {
    0 <= i < rooms.len() && rooms[i].code@ == code && rooms[i].room_id == room_id
}

/// How a room stands after a socket left it: the socket is unregistered
/// (`removed` says how it watched, if it was registered at all) and, when
/// `vacated`, the departing player's seat is free; nothing else of the game
/// changes.
pub open spec fn left_room(
    before: RoomState,
    after: RoomState,
    socket_id: u64,
    viewer: MultiplayerViewer,
    removed: Option<MultiplayerViewer>,
    vacated: bool,
) -> bool {
    &&& after.code == before.code
    &&& after.room_id == before.room_id
    &&& after.managed_bot_slot == before.managed_bot_slot
    &&& after.outcome == before.outcome
    &&& after.clock == before.clock
    &&& vacated ==> (viewer matches MultiplayerViewer::Player(p) && p < 2 && after.seats[p as int]
        is None && after.seats[1 - p] == before.seats[1 - p])
    &&& !vacated ==> after.seats == before.seats
    &&& removed is None ==> after.sockets == before.sockets && forall|j: int|
        0 <= j < before.sockets@.len() ==> (#[trigger] before.sockets@[j]).id != socket_id
    &&& removed matches Some(v) ==> exists|j: int|
        0 <= j < before.sockets@.len() && (#[trigger] before.sockets@[j]).id == socket_id
            && before.sockets@[j].viewer == v && after.sockets@ == before.sockets@.remove(j)
}

/// A human player may give up a seat of a managed-bot room on leaving.
pub open spec fn vacates_seat(room: RoomState, viewer: MultiplayerViewer, vacate: bool) -> bool {
    vacate && room.managed_bot_slot is Some && (viewer matches MultiplayerViewer::Player(p) && p < 2
        && (room.seats[p as int] matches Some(s) && s.kind == SeatOwnerKind::Human))
}

/// What a socket leaving a room did.
pub struct DetachOutcome {
    /// The departing human gave up a seat of a managed-bot room.
    pub vacated_managed_seat: bool,
    /// How the socket watched, when it was registered.
    pub removed_viewer: Option<MultiplayerViewer>,
    /// The room was closed: the last connected player left it.
    pub closed_room: bool,
    /// The managed-bot rooms were renewed after the seat was given up.
    pub lobbies_changed: bool,
}

/// Both seats are taken.
pub open spec fn room_full(room: RoomState) -> bool {
    room.seats[0] is Some && room.seats[1] is Some
}

/// The game is decided at `now_ms`: by an outcome, or on the clock.
pub open spec fn decided_at(room: RoomState, now_ms: u64) -> bool {
    room.outcome is Some || refresh_view(room.clock.view(), now_ms).winner is Some
}

/// What a command of `player` in `room` is answered with, whether the
/// lobby is sent again, and how the room stands after it (`after`): moves
/// go ahead only while the game is on; chat needs text and is appended as
/// the player's; resigning needs a seated opponent and, while the game is
/// on, gives the opponent the win; adding time needs clocks and gives the
/// opponent 15 seconds.
pub open spec fn seat_answer_fits(
    room: RoomState,
    after: RoomState,
    player: usize,
    msg: ClientMsg,
    now_ms: u64,
    answer: RoomAnswer,
    lobby_changed: bool,
) -> bool {
    match msg {
        ClientMsg::PlayMultiplayerAction { .. } | ClientMsg::Undo | ClientMsg::Redo => {
            &&& !lobby_changed
            &&& if !room_full(room) {
                answer matches RoomAnswer::Error { message } && message@
                    == "Room is waiting for an opponent"@ && after == room
            } else if !decided_at(room, now_ms) {
                answer matches RoomAnswer::Move { player: p } && p == player
            } else {
                answer is Room
            }
        },
        ClientMsg::SendMultiplayerChat { text } => {
            &&& !lobby_changed
            &&& spec_sanitize_chat_text(text@) is None ==> (answer matches RoomAnswer::Error { message }
                && message@ == "Chat message cannot be empty"@ && after == room)
            &&& spec_sanitize_chat_text(text@) matches Some(t) ==> (answer matches RoomAnswer::Chat {
                messages,
            } && messages@ == after.chat_messages@ && messages@.len() > 0 && after.chat_messages@
                == keep_latest(room.chat_messages@.push(messages@.last()), MULTIPLAYER_CHAT_HISTORY_LIMIT as nat)
                && messages@.last().text@ == t && messages@.last().player == player as u8
                && messages@.last().id == room.next_chat_id && messages@.last().sent_at_ms == now_ms)
        },
        ClientMsg::ResignMultiplayerGame => if !room_full(room) {
            !lobby_changed && (answer matches RoomAnswer::Error { message } && message@
                == "Room is waiting for an opponent"@) && after == room
        } else {
            &&& lobby_changed
            &&& answer matches RoomAnswer::Room { view, .. } && view.status@ == "finished"@
            &&& room.outcome is Some ==> after.outcome == room.outcome
            &&& !decided_at(room, now_ms) ==> (after.outcome matches Some(o) && o.winner == Some(
                (1 - player) as usize,
            ) && o.reason@ == "resignation"@)
        },
        ClientMsg::AddMultiplayerOpponentTime => {
            let v = refresh_view(room.clock.view(), now_ms);
            &&& after.clock.view() == add_seconds_view(room.clock.view(), now_ms, (1 - player) as usize, 15)
            &&& after.outcome == room.outcome
            &&& if v.winner is None && v.remaining is Some {
                !lobby_changed && answer is Room
            } else if room.outcome is Some || v.winner is Some {
                lobby_changed && answer is Room
            } else {
                !lobby_changed && (answer matches RoomAnswer::Error { message } && message@
                    == "This room does not have clocks enabled"@)
            }
            &&& answer matches RoomAnswer::Room { view, .. } ==> view_shows_clock(view, after)
        },
        _ => !lobby_changed && (answer matches RoomAnswer::Error { message } && message@
            == "Unsupported multiplayer message"@) && after == room,
    }
}

/// The view shows the time left on each seat's clock in `room`.
pub open spec fn view_shows_clock(view: RoomView, room: RoomState) -> bool {
    &&& view.players@.len() == 2
    &&& forall|q: int|
        0 <= q < 2 ==> (#[trigger] view.players@[q]).time_millis == (match room.clock.view().remaining {
            Some(t) => Some(if q == 0 { t.0 } else { t.1 }),
            None => None,
        })
}

/// The answer shows `room` as the socket `socket_id` sees it, watching as
/// `viewer`: its role and seat, the spectators with the socket's own entry
/// marked, and the chat history when it is a player's and not empty.
pub open spec fn viewer_sees(room: RoomState, viewer: MultiplayerViewer, socket_id: u64, answer: RoomAnswer) -> bool {
    &&& answer matches RoomAnswer::Room { view, chat }
    &&& answer->Room_view.code == room.code
    &&& answer->Room_view.viewer_role@ == (match viewer {
        MultiplayerViewer::Player(_) => "player"@,
        MultiplayerViewer::Spectator => "spectator"@,
    })
    &&& answer->Room_view.local_player == (match viewer {
        MultiplayerViewer::Player(p) => Some(p as u8),
        MultiplayerViewer::Spectator => None,
    })
    &&& answer->Room_view.spectators@ == spectator_entries(room.sockets@, Some(socket_id))
    &&& (answer->Room_chat is Some <==> (viewer is Player && room.chat_messages@.len() > 0))
    &&& answer->Room_chat matches Some(h) ==> h@ == room.chat_messages@
}

/// A room as it is created for `uid`, seated at `p`: the other seat free,
/// public unless asked otherwise, the time control clamped, the clock not
/// yet started, no outcome and no chat.
pub open spec fn new_room_fits(
    room: RoomState,
    uid: Seq<char>,
    p: usize,
    is_public: Option<bool>,
    time_minutes: Option<u32>,
    increment_seconds: Option<u32>,
) -> bool {
    &&& p < 2
    &&& held_by(room.seats[p as int], uid)
    &&& room.seats[1 - p] is None
    &&& room.is_public == (match is_public {
        Some(b) => b,
        None => true,
    })
    &&& room.managed_bot_slot is None
    &&& room.outcome is None
    &&& room.time_minutes == (match time_minutes {
        Some(v) => Some(clamp(v, 1, 180)),
        None => None,
    })
    &&& room.increment_seconds == (match increment_seconds {
        Some(v) => Some(clamp(v, 0, 120)),
        None => None,
    })
    &&& room.clock.view() == (ClockView {
        remaining: initial_remaining(room.time_minutes),
        active_player: None,
        active_since_ms: None,
        started: false,
        winner: None,
    })
    &&& room.chat_messages@.len() == 0
}

/// A create request that no room's code can stand in the way of: its
/// requested code is valid and free, or it asks for a random code while
/// there is no room at all.
pub open spec fn create_cannot_collide(msg: ClientMsg, rooms: Seq<RoomState>) -> bool {
    match msg {
        ClientMsg::CreateMultiplayerRoom { code, .. } => match code {
            Some(c) => spec_normalize_room_code(c@) is Some && !has_code(
                rooms,
                spec_normalize_room_code(c@)->0,
            ),
            None => rooms.len() == 0,
        },
        _ => false,
    }
}

/// Where a user lands on joining a room with these seats: back in the
/// seat they hold, else in the first free seat, else among the spectators.
pub open spec fn joined_viewer(seats: [Option<SeatOwner>; 2], uid: Seq<char>) -> MultiplayerViewer {
    match seat_of(seats, uid) {
        Some(p) => MultiplayerViewer::Player(p),
        None => if seats[0] is None {
            MultiplayerViewer::Player(0)
        } else if seats[1] is None {
            MultiplayerViewer::Player(1)
        } else {
            MultiplayerViewer::Spectator
        },
    }
}

/// How a user who joined `room` stands after it: the socket takes the
/// place `joined_viewer` gives, replaces the user's other sockets there,
/// and the answer shows the room as that viewer sees it.
pub open spec fn joined_as(
    room: RoomState,
    after: RoomState,
    uid: Seq<char>,
    answer: RoomAnswer,
    active: Option<ActiveRoom>,
) -> bool {
    let v = joined_viewer(room.seats, uid);
    &&& v matches MultiplayerViewer::Player(p) ==> seat_of(after.seats, uid) == Some(p)
    &&& active matches Some(a)
    &&& active->0.viewer == v
    &&& active->0.room_id == room.room_id
    &&& after.sockets@.len() > 0
    &&& after.sockets@ == sockets_without_user(room.sockets@, uid).push(after.sockets@.last())
    &&& after.sockets@.last().id == active->0.socket_id
    &&& after.sockets@.last().viewer == v
    &&& answer matches RoomAnswer::Room { view, .. }
    &&& answer->Room_view.code == room.code
    &&& answer->Room_view.viewer_role@ == (match v {
        MultiplayerViewer::Player(_) => "player"@,
        MultiplayerViewer::Spectator => "spectator"@,
    })
    &&& answer->Room_view.local_player == (match v {
        MultiplayerViewer::Player(p) => Some(p as u8),
        MultiplayerViewer::Spectator => None,
    })
    &&& answer->Room_view.spectators@ == spectator_entries(after.sockets@, Some(active->0.socket_id))
}

/// Joining never takes a seat from anyone: a user who holds a seat gets
/// that seat back; a seat given to a newcomer was free, and seat 0 is
/// given before seat 1; only a user who finds both seats held by others
/// watches.
pub proof fn lemma_joining_takes_no_ones_seat(seats: [Option<SeatOwner>; 2], uid: Seq<char>)
    ensures
        joined_viewer(seats, uid) matches MultiplayerViewer::Player(p) ==> p < 2 && (held_by(
            seats[p as int],
            uid,
        ) || seats[p as int] is None),
        held_by(seats[0], uid) ==> joined_viewer(seats, uid) == MultiplayerViewer::Player(0),
        !held_by(seats[0], uid) && held_by(seats[1], uid) ==> joined_viewer(seats, uid)
            == MultiplayerViewer::Player(1),
        seat_of(seats, uid) is None && seats[0] is None ==> joined_viewer(seats, uid) == MultiplayerViewer::Player(0),
        (joined_viewer(seats, uid) is Spectator) == (seats[0] is Some && seats[1] is Some && !held_by(
            seats[0],
            uid,
        ) && !held_by(seats[1], uid)),
{
}

/// The room a socket has joined: its code and id, the socket, and how it
/// takes part.
pub struct ActiveRoom {
    pub code: String,
    pub room_id: u64,
    pub socket_id: u64,
    pub viewer: MultiplayerViewer,
}

/// A seat of a joined room is one of the two.
pub open spec fn active_wf(active: Option<ActiveRoom>) -> bool {
    active matches Some(a) ==> (a.viewer matches MultiplayerViewer::Player(p) ==> p < 2)
}

/// The socket of `a` still holds its place in the room at `i`.
pub open spec fn place_at(rooms: Seq<RoomState>, a: ActiveRoom, i: int) -> bool {
    room_at(rooms, i, a.code@, a.room_id) && exists|j: int|
        0 <= j < rooms[i].sockets@.len() && (#[trigger] rooms[i].sockets@[j]).id == a.socket_id
}

/// How the socket takes part in its room, if it still holds its place in
/// an open room or in one closed while it watched.
pub open spec fn current_viewer(rooms: Seq<RoomState>, closed: Seq<RoomState>, active: Option<ActiveRoom>) -> Option<
    MultiplayerViewer,
> {
    match active {
        Some(a) => if (exists|i: int| #[trigger] place_at(rooms, a, i)) || (exists|i: int|
            #[trigger] place_at(closed, a, i)) {
            Some(a.viewer)
        } else {
            None
        },
        None => None,
    }
}

/// What a multiplayer command is answered with, as far as the rooms
/// decide it.
pub enum RoomAnswer {
    /// The command was refused.
    Error { message: String },
    /// The public lobby.
    Lobby { rooms: Vec<MultiplayerLobbyRoom> },
    /// The room as the socket sees it, and the chat history for a player
    /// when there is any.
    Room { view: RoomView, chat: Option<Vec<MultiplayerChatMessage>> },
    /// The socket left its room.
    Left,
    /// The room's chat history after the socket's message.
    Chat { messages: Vec<MultiplayerChatMessage> },
    /// The game is on: the caller plays the move, undo or redo for this
    /// seat.
    Move { player: usize },
}

/// The answer to a multiplayer command, and whether the public lobby is
/// to be sent again.
pub struct CommandOutcome {
    pub answer: RoomAnswer,
    pub lobby_changed: bool,
}

/// Where a socket holds its place.
#[derive(Clone, Copy)]
enum Place {
    Open(usize),
    Closed(usize),
    Gone,
}

/// A command in a room: a refresh when no seat is given, else a command
/// of the seat — a move, undo or redo, a chat message, a resignation or
/// time for the opponent.
fn room_command(
    room: &mut RoomState,
    viewer: MultiplayerViewer,
    socket_id: u64,
    seat: Option<usize>,
    msg: &ClientMsg,
    now_ms: u64,
) -> (r: CommandOutcome)
    requires
        old(room).wf(),
        seat matches Some(p) ==> p < 2,
    ensures
        final(room).wf(),
        final(room).code == old(room).code,
        final(room).room_id == old(room).room_id,
        final(room).managed_bot_slot == old(room).managed_bot_slot,
        final(room).sockets == old(room).sockets,
        seat is None ==> viewer_sees(*final(room), viewer, socket_id, r.answer) && !r.lobby_changed,
        seat is None ==> *final(room) == (RoomState {
            clock: final(room).clock,
            outcome: final(room).outcome,
            clock_generation: final(room).clock_generation,
            last_activity_ms: final(room).last_activity_ms,
            ..*old(room)
        }),
        seat matches Some(p) ==> seat_answer_fits(*old(room), *final(room), p, *msg, now_ms, r.answer, r.lobby_changed),
{
    let p = match seat {
        None => {
            let view = room.room_view(viewer, Some(socket_id), now_ms);
            let chat = if viewer.player().is_some() && room.chat_messages.len() > 0 {
                Some(copy_history(&room.chat_messages))
            } else {
                None
            };
            return CommandOutcome { answer: RoomAnswer::Room { view, chat }, lobby_changed: false };
        },
        Some(p) => p,
    };
    match msg {
        ClientMsg::PlayMultiplayerAction { .. } | ClientMsg::Undo | ClientMsg::Redo => {
            match room.game_in_progress(now_ms) {
                Err(message) => CommandOutcome {
                    answer: RoomAnswer::Error { message },
                    lobby_changed: false,
                },
                Ok(true) => CommandOutcome { answer: RoomAnswer::Move { player: p }, lobby_changed: false },
                Ok(false) => CommandOutcome {
                    answer: RoomAnswer::Room {
                        view: room.room_view(viewer, Some(socket_id), now_ms),
                        chat: None,
                    },
                    lobby_changed: false,
                },
            }
        },
        ClientMsg::SendMultiplayerChat { text } => match room.push_chat(p, text.as_str(), now_ms) {
            Err(message) => CommandOutcome { answer: RoomAnswer::Error { message }, lobby_changed: false },
            Ok(messages) => CommandOutcome { answer: RoomAnswer::Chat { messages }, lobby_changed: false },
        },
        ClientMsg::ResignMultiplayerGame => match room.resign_game(p, now_ms) {
            Err(message) => CommandOutcome { answer: RoomAnswer::Error { message }, lobby_changed: false },
            Ok(()) => CommandOutcome {
                answer: RoomAnswer::Room { view: room.room_view(viewer, Some(socket_id), now_ms), chat: None },
                lobby_changed: true,
            },
        },
        ClientMsg::AddMultiplayerOpponentTime => {
            proof {
                lemma_added_time_is_settled(room.clock.view(), now_ms, (1 - p) as usize, 15);
            }
            match room.add_opponent_time(p, now_ms) {
                Err(message) => CommandOutcome { answer: RoomAnswer::Error { message }, lobby_changed: false },
                Ok(added) => CommandOutcome {
                    answer: RoomAnswer::Room { view: room.room_view(viewer, Some(socket_id), now_ms), chat: None },
                    lobby_changed: !added,
                },
            }
        },
        _ => CommandOutcome {
            answer: RoomAnswer::Error { message: "Unsupported multiplayer message".to_string() },
            lobby_changed: false,
        },
    }
}

/// How the rooms closed while spectators watched stand after the socket
/// `socket_id` left the one at `k`: when the socket was registered there
/// (`removed` says how it watched), it is gone, and the room is let go once
/// no socket is left; when it was not, nothing changes but that a room
/// without sockets is let go.
pub open spec fn closed_detach_fits(
    before: Seq<RoomState>,
    after: Seq<RoomState>,
    k: int,
    socket_id: u64,
    removed: Option<MultiplayerViewer>,
) -> bool {
    let room = before[k];
    &&& removed is Some <==> exists|j: int|
        0 <= j < room.sockets@.len() && (#[trigger] room.sockets@[j]).id == socket_id
    &&& removed is None ==> after == (if room.sockets@.len() == 0 {
        before.remove(k)
    } else {
        before
    })
    &&& removed matches Some(v) ==> exists|j: int|
        0 <= j < room.sockets@.len() && (#[trigger] room.sockets@[j]).id == socket_id
            && room.sockets@[j].viewer == v && if room.sockets@.len() == 1 {
            after == before.remove(k)
        } else {
            &&& after.len() == before.len()
            &&& after[k].sockets@ == room.sockets@.remove(j)
            &&& after[k].code == room.code && after[k].room_id == room.room_id
            &&& forall|m: int| 0 <= m < before.len() && m != k ==> #[trigger] after[m] == before[m]
        }
}

/// How the rooms stand after the socket `socket_id` of the room with
/// `code` and `room_id`, watching as `viewer`, left it (`r` says what
/// happened): the socket is no longer registered there; a human leaving a
/// managed-bot room gives up the seat when `vacate` asks it; a room whose
/// last connected player left closes; a room closed while spectators
/// watched lets the socket go and is dropped once empty; other rooms of
/// people stay.
pub open spec fn detach_fits(
    before: RoomStore,
    after: RoomStore,
    code: Seq<char>,
    room_id: u64,
    socket_id: u64,
    viewer: MultiplayerViewer,
    vacate: bool,
    now_ms: u64,
    r: DetachOutcome,
) -> bool {
    &&& after.managed_bot_lobbies_enabled == before.managed_bot_lobbies_enabled
    &&& (forall|i: int| !#[trigger] room_at(before.rooms@, i, code, room_id)) ==> (!r.vacated_managed_seat
        && !r.closed_room && !r.lobbies_changed && after.rooms == before.rooms && after.next_room_id
        == before.next_room_id)
    &&& (forall|i: int| !#[trigger] room_at(before.rooms@, i, code, room_id)) && (forall|i: int|
        !#[trigger] room_at(before.closed_rooms@, i, code, room_id)) ==> (r.removed_viewer is None && after
        == before)
    &&& (forall|i: int| !#[trigger] room_at(before.rooms@, i, code, room_id)) ==> (r.removed_viewer matches Some(
        v,
    ) ==> exists|i: int, j: int|
        #[trigger] room_at(before.closed_rooms@, i, code, room_id) && 0 <= j < before.closed_rooms@[i].sockets@.len()
            && (#[trigger] before.closed_rooms@[i].sockets@[j]).id == socket_id
            && before.closed_rooms@[i].sockets@[j].viewer == v)
    &&& (forall|i: int| !#[trigger] room_at(before.rooms@, i, code, room_id)) ==> forall|k: int|
        #[trigger] room_at(before.closed_rooms@, k, code, room_id) && (forall|k2: int|
            0 <= k2 < k ==> !#[trigger] room_at(before.closed_rooms@, k2, code, room_id))
            ==> closed_detach_fits(before.closed_rooms@, after.closed_rooms@, k, socket_id, r.removed_viewer)
    &&& forall|i: int| #[trigger]
        room_at(before.rooms@, i, code, room_id) ==> {
            &&& r.vacated_managed_seat == vacates_seat(before.rooms@[i], viewer, vacate)
            &&& exists|left: RoomState| #[trigger]
                left_room(before.rooms@[i], left, socket_id, viewer, r.removed_viewer, r.vacated_managed_seat)
                    && r.closed_room == (r.removed_viewer matches Some(MultiplayerViewer::Player(_))
                    && left.managed_bot_slot is None && no_seat_connected(left)) && (r.closed_room
                    ==> after.rooms@ == before.rooms@.remove(i)) && (!r.closed_room && !r.lobbies_changed
                    ==> after.rooms@ == before.rooms@.update(i, left)) && (r.vacated_managed_seat ==> exists|
                    mid: RoomStore,
                | #[trigger] lobbies_refreshed(mid, after, now_ms, r.lobbies_changed) && mid.rooms@
                    == before.rooms@.update(i, left) && mid.managed_bot_lobbies_enabled
                    == before.managed_bot_lobbies_enabled)
        }
    &&& r.lobbies_changed ==> r.vacated_managed_seat
    &&& forall|i: int|
        0 <= i < before.rooms@.len() && (#[trigger] before.rooms@[i]).managed_bot_slot is None && !room_at(
            before.rooms@,
            i,
            code,
            room_id,
        ) ==> after.rooms@.contains(before.rooms@[i])
}

/// How the managed-bot lobbies stand after they were brought up to date
/// at `now_ms` (`changed` as reported): nothing happens while they are
/// switched off; otherwise every room of a slot that needed refreshing is
/// gone, any new room is a fresh managed room, every room that did not
/// need refreshing stays, and `changed` says whether a slot's room was
/// replaced or a slot without a room got one. Rooms closed while
/// spectators watched are not touched.
pub open spec fn lobbies_refreshed(before: RoomStore, after: RoomStore, now_ms: u64, changed: bool) -> bool {
    &&& after.managed_bot_lobbies_enabled == before.managed_bot_lobbies_enabled
    &&& after.closed_rooms == before.closed_rooms
    &&& !before.managed_bot_lobbies_enabled ==> !changed && after == before
    &&& !changed ==> after.rooms@ == before.rooms@
    &&& forall|i: int|
        0 <= i < after.rooms@.len() ==> before.rooms@.contains(#[trigger] after.rooms@[i])
            || after.rooms@[i].is_fresh_managed_room(now_ms)
    &&& forall|i: int|
        0 <= i < before.rooms@.len() && !(#[trigger] before.rooms@[i]).needs_managed_refresh(now_ms)
            ==> after.rooms@.contains(before.rooms@[i])
    &&& before.managed_bot_lobbies_enabled ==> forall|i: int|
        0 <= i < after.rooms@.len() && (#[trigger] after.rooms@[i]).managed_bot_slot is Some
            ==> !after.rooms@[i].needs_managed_refresh(now_ms)
    &&& before.managed_bot_lobbies_enabled ==> forall|slot: ManagedBotLobbySlot|
        #[trigger] slot_due(before.rooms@, slot, now_ms) ==> changed
    &&& changed ==> exists|slot: ManagedBotLobbySlot|
        #![trigger slot_due(before.rooms@, slot, now_ms)]
        #![trigger slot_missing(before.rooms@, slot)]
        slot_due(before.rooms@, slot, now_ms) || slot_missing(before.rooms@, slot)
    &&& before.managed_bot_lobbies_enabled && before.rooms@.len() == 0 ==> !slot_missing(
        after.rooms@,
        ManagedBotLobbySlot::FiveThree,
    )
    &&& before.managed_bot_lobbies_enabled ==> changed == ((exists|slot: ManagedBotLobbySlot|
        #[trigger] slot_due(before.rooms@, slot, now_ms)) || (exists|slot: ManagedBotLobbySlot|
        slot_missing(before.rooms@, slot) && !#[trigger] slot_missing(after.rooms@, slot)))
}

/// The answer is the lobby of `rooms`: one entry for each public room,
/// each as that room lists itself, no code twice, in listing order.
pub open spec fn lobby_lists(rooms: Seq<RoomState>, answer: RoomAnswer) -> bool {
    &&& answer matches RoomAnswer::Lobby { rooms: l }
    &&& in_listing_order(answer->Lobby_rooms@)
    &&& forall|k: int|
        0 <= k < answer->Lobby_rooms@.len() ==> listed_room(rooms, #[trigger] answer->Lobby_rooms@[k])
    &&& forall|i: int|
        0 <= i < rooms.len() && (#[trigger] rooms[i]).is_public ==> exists|k: int|
            0 <= k < answer->Lobby_rooms@.len() && rooms[i].is_lobby_entry(#[trigger] answer->Lobby_rooms@[k])
    &&& forall|k1: int, k2: int|
        0 <= k1 < k2 < answer->Lobby_rooms@.len() ==> (#[trigger] answer->Lobby_rooms@[k1]).code@ != (
        #[trigger] answer->Lobby_rooms@[k2]).code@
}

/// The store `mid` that a socket's leave, create or join starts from: the
/// socket has left the room where it held its place (see `detach_fits`,
/// with a managed-bot seat given up); a socket that held none leaves the
/// store as it was.
pub open spec fn left_first(before: RoomStore, mid: RoomStore, active: Option<ActiveRoom>, now_ms: u64) -> bool {
    if current_viewer(before.rooms@, before.closed_rooms@, active) is Some {
        exists|d: DetachOutcome|
            detach_fits(
                before,
                mid,
                active->0.code@,
                active->0.room_id,
                active->0.socket_id,
                active->0.viewer,
                true,
                now_ms,
                d,
            )
    } else {
        mid == before
    }
}

/// How a join of the room with `code` by `uid` leaves the store: the room
/// with that code takes the user as `joined_as` says, and no other room
/// changes.
pub open spec fn join_fits(
    before: RoomStore,
    after: RoomStore,
    uid: Seq<char>,
    code: Seq<char>,
    answer: RoomAnswer,
    active: Option<ActiveRoom>,
) -> bool {
    forall|i: int|
        0 <= i < before.rooms@.len() && spec_normalize_room_code(code) == Some(
            (#[trigger] before.rooms@[i]).code@,
        ) ==> joined_as(before.rooms@[i], after.rooms@[i], uid, answer, active) && after.rooms@
            == before.rooms@.update(i, after.rooms@[i]) && after.closed_rooms == before.closed_rooms
}

/// All rooms of the server.
pub struct RoomStore {
    pub rooms: Vec<RoomState>,
    /// Rooms closed while spectators still watch them: no longer listed or
    /// joinable, but still shown to the sockets that remain.
    pub closed_rooms: Vec<RoomState>,
    pub next_room_id: u64,
    pub managed_bot_lobbies_enabled: bool,
}

impl RoomStore {
    pub open spec fn wf(&self) -> bool {
        &&& codes_distinct(self.rooms@)
        &&& slots_distinct(self.rooms@)
        &&& forall|i: int| 0 <= i < self.rooms@.len() ==> (#[trigger] self.rooms@[i]).wf()
        &&& forall|i: int| 0 <= i < self.closed_rooms@.len() ==> (#[trigger] self.closed_rooms@[i]).wf()
    }

    pub fn new(managed_bot_lobbies_enabled: bool) -> (r: Self)
        ensures
            r.wf(),
            r.rooms@.len() == 0,
            r.closed_rooms@.len() == 0,
            r.next_room_id == 1,
            r.managed_bot_lobbies_enabled == managed_bot_lobbies_enabled,
    {
        RoomStore {
            rooms: Vec::new(),
            closed_rooms: Vec::new(),
            next_room_id: 1,
            managed_bot_lobbies_enabled,
        }
    }

    /// The index of the room with this code.
    pub fn find_room(&self, code: &str) -> (r: Option<usize>)
        requires
            self.wf(),
        ensures
            r matches Some(i) ==> i < self.rooms@.len() && self.rooms@[i as int].code@ == code@,
            r is None <==> !has_code(self.rooms@, code@),
    {
        let mut i: usize = 0;
        while i < self.rooms.len()
            invariant
                i <= self.rooms@.len(),
                forall|j: int| 0 <= j < i ==> (#[trigger] self.rooms@[j]).code@ != code@,
            decreases self.rooms.len() - i,
        {
            if str_eq(self.rooms[i].code.as_str(), code) {
                return Some(i);
            }
            i += 1;
        }
        None
    }

    fn take_room_id(&mut self) -> (id: u64)
        ensures
            id == old(self).next_room_id,
            final(self).next_room_id == (if old(self).next_room_id == u64::MAX {
                0
            } else {
                old(self).next_room_id + 1
            }),
            final(self).rooms == old(self).rooms,
            final(self).closed_rooms == old(self).closed_rooms,
            final(self).managed_bot_lobbies_enabled == old(self).managed_bot_lobbies_enabled,
    {
        let id = self.next_room_id;
        self.next_room_id = id.wrapping_add(1);
        id
    }

    /// Adds a room whose code no room has.
    fn add_room(&mut self, room: RoomState)
        requires
            old(self).wf(),
            room.wf(),
            !has_code(old(self).rooms@, room.code@),
            room.managed_bot_slot is Some ==> forall|i: int|
                0 <= i < old(self).rooms@.len() ==> (#[trigger] old(self).rooms@[i]).managed_bot_slot
                    != room.managed_bot_slot,
        ensures
            final(self).wf(),
            final(self).rooms@ == old(self).rooms@.push(room),
            final(self).closed_rooms == old(self).closed_rooms,
            final(self).next_room_id == old(self).next_room_id,
            final(self).managed_bot_lobbies_enabled == old(self).managed_bot_lobbies_enabled,
    {
        let ghost before = self.rooms@;
        self.rooms.push(room);
        assert forall|i: int, j: int| 0 <= i < j < self.rooms@.len() implies (
        #[trigger] self.rooms@[i]).code@ != (#[trigger] self.rooms@[j]).code@ by {
            if j == before.len() {
                assert(self.rooms@[i] == before[i]);
            } else {
                assert(self.rooms@[i] == before[i] && self.rooms@[j] == before[j]);
            }
        }
        assert forall|i: int| 0 <= i < self.rooms@.len() implies (#[trigger] self.rooms@[i]).wf() by {
            if i < before.len() {
                assert(self.rooms@[i] == before[i]);
            }
        }
        assert forall|i: int, j: int|
            0 <= i < j < self.rooms@.len() && (#[trigger] self.rooms@[i]).managed_bot_slot is Some implies self.rooms@[i].managed_bot_slot
            != (#[trigger] self.rooms@[j]).managed_bot_slot by {
            if j == before.len() {
                assert(self.rooms@[i] == before[i]);
            } else {
                assert(self.rooms@[i] == before[i] && self.rooms@[j] == before[j]);
            }
        }
    }

    /// Removes the room at an index.
    fn remove_room(&mut self, index: usize) -> (room: RoomState)
        requires
            old(self).wf(),
            index < old(self).rooms@.len(),
        ensures
            room == old(self).rooms@[index as int],
            room.wf(),
            final(self).wf(),
            final(self).rooms@ == old(self).rooms@.remove(index as int),
            final(self).closed_rooms == old(self).closed_rooms,
            final(self).next_room_id == old(self).next_room_id,
            final(self).managed_bot_lobbies_enabled == old(self).managed_bot_lobbies_enabled,
    {
        let ghost before = self.rooms@;
        let room = self.rooms.remove(index);
        assert forall|i: int, j: int| 0 <= i < j < self.rooms@.len() implies (
        #[trigger] self.rooms@[i]).code@ != (#[trigger] self.rooms@[j]).code@ by {
            let i2 = if i < index { i } else { i + 1 };
            let j2 = if j < index { j } else { j + 1 };
            assert(self.rooms@[i] == before[i2] && self.rooms@[j] == before[j2]);
        }
        assert forall|i: int| 0 <= i < self.rooms@.len() implies (#[trigger] self.rooms@[i]).wf() by {
            let i2 = if i < index { i } else { i + 1 };
            assert(self.rooms@[i] == before[i2]);
        }
        room
    }

    /// Creates a room for `user_id`, seated as they asked (or at random),
    /// under the requested code or else a fresh random code; public unless
    /// asked otherwise, with the time control clamped. Returns the code and
    /// the creator's seat.
    pub fn create_room(
        &mut self,
        user_id: &str,
        display_name: Option<&str>,
        preferred_player: Option<u8>,
        requested_code: Option<&str>,
        is_public: Option<bool>,
        time_minutes: Option<u32>,
        increment_seconds: Option<u32>,
        now_ms: u64,
    ) -> (r: Result<(String, usize), String>)
        requires
            old(self).wf(),
        ensures
            final(self).wf(),
            final(self).closed_rooms == old(self).closed_rooms,
            final(self).managed_bot_lobbies_enabled == old(self).managed_bot_lobbies_enabled,
            r is Err ==> final(self).rooms@ == old(self).rooms@,
            requested_code matches Some(c) ==> (spec_normalize_room_code(c@) is None ==> (r matches Err(
                m,
            ) && m@ == "Room code must be 6 letters or numbers"@)),
            requested_code matches Some(c) ==> (spec_normalize_room_code(c@) matches Some(n) ==> (
            has_code(old(self).rooms@, n) ==> (r matches Err(m) && m@
                == "Room code is already in use"@))),
            requested_code matches Some(c) ==> (spec_normalize_room_code(c@) matches Some(n) ==> (
            !has_code(old(self).rooms@, n) ==> (r matches Ok((code, _)) && code@ == n))),
            requested_code is None && r is Err ==> (r matches Err(m) && m@
                == "Could not create a unique room code"@),
            requested_code is None && old(self).rooms@.len() == 0 ==> r is Ok,
            r matches Ok((code, p)) ==> {
                &&& !has_code(old(self).rooms@, code@)
                &&& spec_normalize_room_code(code@) == Some(code@)
                &&& final(self).rooms@.len() == old(self).rooms@.len() + 1
                &&& final(self).rooms@.drop_last() == old(self).rooms@
                &&& final(self).rooms@.last().code == code
                &&& final(self).rooms@.last().room_id == old(self).next_room_id
                &&& (preferred_player is Some ==> p == creator_seat(preferred_player, false))
                &&& new_room_fits(
                    final(self).rooms@.last(),
                    user_id@,
                    p,
                    is_public,
                    time_minutes,
                    increment_seconds,
                )
                &&& final(self).rooms@.last().sockets@.len() == 0
                &&& final(self).rooms@.last().last_activity_ms == now_ms
            },
    {
        let player: usize = match preferred_player {
            None => if random_bool() {
                1
            } else {
                0
            },
            Some(p) => if p == 1 {
                1
            } else {
                0
            },
        };
        let owner = SeatOwner::human(user_id, display_name);
        let room_id = self.take_room_id();
        let public = match is_public {
            Some(b) => b,
            None => true,
        };
        let minutes = normalize_room_time_minutes(time_minutes);
        let increment = normalize_room_increment_seconds(increment_seconds);
        if let Some(requested) = requested_code {
            let code = normalize_room_code(requested)?;
            proof {
                lemma_room_code_is_normal(code@);
            }
            if self.find_room(code.as_str()).is_some() {
                return Err("Room code is already in use".to_string());
            }
            let room = RoomState::new(
                code.clone(),
                room_id,
                owner,
                player,
                public,
                minutes,
                increment,
                now_ms,
            );
            self.add_room(room);
            return Ok((code, player));
        }
        let mut attempt: usize = 0;
        while attempt < ROOM_CODE_ATTEMPTS
            invariant
                self.wf(),
                self.closed_rooms == old(self).closed_rooms,
                self.rooms@ == old(self).rooms@,
                self.managed_bot_lobbies_enabled == old(self).managed_bot_lobbies_enabled,
                room_id == old(self).next_room_id,
                player < 2,
                held_by(Some(owner), user_id@),
                preferred_player is Some ==> player == creator_seat(preferred_player, false),
                requested_code is None,
                old(self).rooms@.len() == 0 ==> attempt == 0,
                minutes == (match time_minutes {
                    Some(v) => Some(clamp(v, 1, 180)),
                    None => None,
                }),
                increment == (match increment_seconds {
                    Some(v) => Some(clamp(v, 0, 120)),
                    None => None,
                }),
                public == (match is_public {
                    Some(b) => b,
                    None => true,
                }),
            decreases ROOM_CODE_ATTEMPTS - attempt,
        {
            let code = new_room_code();
            proof {
                lemma_room_code_is_normal(code@);
            }
            if self.find_room(code.as_str()).is_none() {
                let room = RoomState::new(
                    code.clone(),
                    room_id,
                    owner,
                    player,
                    public,
                    minutes,
                    increment,
                    now_ms,
                );
                self.add_room(room);
                return Ok((code, player));
            }
            attempt += 1;
        }
        Err("Could not create a unique room code".to_string())
    }

    /// Joins the room with this code as a player: the seat the user holds
    /// or the first free one; a full room is refused.
    pub fn join_room(&mut self, user_id: &str, code: &str, now_ms: u64) -> (r: Result<(String, usize), String>)
        requires
            old(self).wf(),
        ensures
            final(self).wf(),
            final(self).managed_bot_lobbies_enabled == old(self).managed_bot_lobbies_enabled,
            spec_normalize_room_code(code@) is None ==> (r matches Err(m) && m@
                == "Room code must be 6 letters or numbers"@),
            spec_normalize_room_code(code@) matches Some(n) ==> (!has_code(old(self).rooms@, n) ==> (
            r matches Err(m) && m@ == "Room not found"@)),
            r is Err ==> final(self).rooms@ == old(self).rooms@,
            forall|i: int|
                0 <= i < old(self).rooms@.len() && spec_normalize_room_code(code@) == Some(
                    (#[trigger] old(self).rooms@[i]).code@,
                ) ==> match joined_viewer(old(self).rooms@[i].seats, user_id@) {
                    MultiplayerViewer::Player(p) => r matches Ok((c, q)) && c@ == old(self).rooms@[i].code@
                        && q == p && seat_of(final(self).rooms@[i].seats, user_id@) == Some(p)
                        && final(self).rooms@[i].seats[1 - p] == old(self).rooms@[i].seats[1 - p]
                        && final(self).rooms@[i].code == old(self).rooms@[i].code
                        && final(self).rooms@[i].room_id == old(self).rooms@[i].room_id
                        && final(self).rooms@[i].sockets == old(self).rooms@[i].sockets
                        && final(self).rooms@ == old(self).rooms@.update(i, final(self).rooms@[i]),
                    MultiplayerViewer::Spectator => r matches Err(m) && m@ == "Room is full"@
                        && final(self).rooms@ == old(self).rooms@,
                },
    {
        let ghost before = self.rooms@;
        let (joined, viewer) = self.join_room_with_display_name(user_id, None, code, now_ms)?;
        match viewer {
            MultiplayerViewer::Player(player) => Ok((joined, player)),
            MultiplayerViewer::Spectator => {
                proof {
                    assert forall|i: int|
                        0 <= i < before.len() && spec_normalize_room_code(code@) == Some(
                            (#[trigger] before[i]).code@,
                        ) implies self.rooms@ == before by {
                        assert(self.rooms@ =~= before.update(i, self.rooms@[i]));
                    }
                }
                Err("Room is full".to_string())
            },
        }
    }

    /// Joins the room with this code: a seat when the user holds one or
    /// one is free, else a place among the spectators.
    pub fn join_room_with_display_name(&mut self, user_id: &str, display_name: Option<&str>, code: &str, now_ms: u64) -> (r:
        Result<(String, MultiplayerViewer), String>)
        requires
            old(self).wf(),
        ensures
            final(self).wf(),
            final(self).closed_rooms == old(self).closed_rooms,
            final(self).managed_bot_lobbies_enabled == old(self).managed_bot_lobbies_enabled,
            final(self).rooms@.len() == old(self).rooms@.len(),
            spec_normalize_room_code(code@) is None ==> (r matches Err(m) && m@
                == "Room code must be 6 letters or numbers"@),
            spec_normalize_room_code(code@) matches Some(n) ==> (!has_code(old(self).rooms@, n) ==> (
            r matches Err(m) && m@ == "Room not found"@)),
            spec_normalize_room_code(code@) matches Some(n) ==> (has_code(old(self).rooms@, n) ==> (
            r matches Ok((c, _)) && c@ == n)),
            r is Err ==> final(self).rooms@ == old(self).rooms@,
            r matches Ok((c, v)) ==> (v matches MultiplayerViewer::Player(p) ==> p < 2),
            r matches Ok((c, v)) ==> (v matches MultiplayerViewer::Player(p) ==> exists|i: int|
                0 <= i < final(self).rooms@.len() && (#[trigger] final(self).rooms@[i]).code@ == c@
                    && held_by(final(self).rooms@[i].seats[p as int], user_id@)),
            forall|i: int|
                0 <= i < old(self).rooms@.len() && spec_normalize_room_code(code@) == Some(
                    (#[trigger] old(self).rooms@[i]).code@,
                ) ==> (r matches Ok((_, v)) && v == joined_viewer(old(self).rooms@[i].seats, user_id@)
                    && final(self).rooms@ == old(self).rooms@.update(i, final(self).rooms@[i])
                    && final(self).rooms@[i].code == old(self).rooms@[i].code
                    && final(self).rooms@[i].room_id == old(self).rooms@[i].room_id
                    && final(self).rooms@[i].sockets == old(self).rooms@[i].sockets
                    && (v matches MultiplayerViewer::Player(p) ==> seat_of(final(self).rooms@[i].seats, user_id@)
                    == Some(p) && final(self).rooms@[i].seats[1 - p] == old(self).rooms@[i].seats[1 - p])
                    && (v is Spectator ==> final(self).rooms@[i] == old(self).rooms@[i])),
    {
        let code = normalize_room_code(code)?;
        let index = match self.find_room(code.as_str()) {
            Some(i) => i,
            None => return Err("Room not found".to_string()),
        };
        let owner = SeatOwner::human(user_id, display_name);
        let ghost before = self.rooms@;
        let mut room = self.rooms.remove(index);
        let viewer = room.assign_or_find_viewer(owner, now_ms);
        self.rooms.insert(index, room);
        proof {
            assert(self.rooms@ =~= before.update(index as int, self.rooms@[index as int]));
            assert forall|i: int, j: int| 0 <= i < j < self.rooms@.len() implies (
            #[trigger] self.rooms@[i]).code@ != (#[trigger] self.rooms@[j]).code@ by {
                assert(self.rooms@[i].code == before[i].code);
                assert(self.rooms@[j].code == before[j].code);
            }
            assert forall|i: int| 0 <= i < self.rooms@.len() implies (#[trigger] self.rooms@[i]).wf() by {
                if i != index {
                    assert(self.rooms@[i] == before[i]);
                }
            }
        }
        proof {
            assert forall|i: int|
                0 <= i < before.len() && Some(code@) == Some((#[trigger] before[i]).code@) implies i
                == index by {
                if i != index {
                    assert(before[i].code@ != before[index as int].code@);
                }
            }
            if let MultiplayerViewer::Player(p) = viewer {
                assert(self.rooms@[index as int].code@ == code@);
                assert(held_by(self.rooms@[index as int].seats[p as int], user_id@));
            }
        }
        Ok((code, viewer))
    }

    /// The public rooms as the lobby lists them: one entry for each public
    /// room, in listing order.
    pub fn lobby_rooms(&self) -> (r: Vec<MultiplayerLobbyRoom>)
        requires
            self.wf(),
        ensures
            in_listing_order(r@),
            r@.len() <= self.rooms@.len(),
            forall|k: int| 0 <= k < r@.len() ==> listed_room(self.rooms@, #[trigger] r@[k]),
            forall|i: int|
                0 <= i < self.rooms@.len() && (#[trigger] self.rooms@[i]).is_public ==> exists|k: int|
                    0 <= k < r@.len() && self.rooms@[i].is_lobby_entry(#[trigger] r@[k]),
            forall|k1: int, k2: int|
                0 <= k1 < k2 < r@.len() ==> (#[trigger] r@[k1]).code@ != (#[trigger] r@[k2]).code@,
    {
        let mut out: Vec<MultiplayerLobbyRoom> = Vec::new();
        let ghost mut src: Seq<int> = Seq::empty();
        let mut i: usize = 0;
        while i < self.rooms.len()
            invariant
                self.wf(),
                i <= self.rooms@.len(),
                out@.len() <= i,
                src.len() == out@.len(),
                forall|k: int|
                    0 <= k < out@.len() ==> 0 <= #[trigger] src[k] < i && self.rooms@[src[k]].is_public
                        && self.rooms@[src[k]].is_lobby_entry(out@[k]),
                forall|k1: int, k2: int| 0 <= k1 < k2 < out@.len() ==> #[trigger] src[k1] < #[trigger] src[k2],
                forall|j: int|
                    0 <= j < i && (#[trigger] self.rooms@[j]).is_public ==> exists|k: int|
                        0 <= k < out@.len() && src[k] == j,
            decreases self.rooms.len() - i,
        {
            let ghost old_src = src;
            let ghost old_len = out@.len();
            if self.rooms[i].is_public {
                let entry = self.rooms[i].lobby_entry();
                out.push(entry);
                proof {
                    src = src.push(i as int);
                    assert(src[out@.len() - 1] == i);
                }
            }
            proof {
                assert forall|j: int|
                    0 <= j < i + 1 && (#[trigger] self.rooms@[j]).is_public implies exists|k: int|
                    0 <= k < out@.len() && src[k] == j by {
                    if j == i {
                        assert(src[old_len as int] == j);
                    } else {
                        let k = choose|k: int| 0 <= k < old_len && old_src[k] == j;
                        assert(src[k] == old_src[k]);
                    }
                }
            }
            i += 1;
        }
        proof {
            assert forall|k: int| 0 <= k < out@.len() implies listed_room(self.rooms@, #[trigger] out@[k]) by {
                assert(self.rooms@[src[k]].is_lobby_entry(out@[k]));
            }
            assert forall|k1: int, k2: int| 0 <= k1 < out@.len() && 0 <= k2 < out@.len() && k1 != k2
                implies (#[trigger] out@[k1]).code@ != (#[trigger] out@[k2]).code@ by {
                let a = src[k1];
                let b = src[k2];
                if k1 < k2 {
                    assert(a < b);
                    assert(self.rooms@[a].code@ != self.rooms@[b].code@);
                } else {
                    assert(b < a);
                    assert(self.rooms@[b].code@ != self.rooms@[a].code@);
                }
            }
        }
        let ghost unsorted = out@;
        let sorted = sort_lobby_rooms(out);
        proof {
            vstd::seq_lib::to_multiset_len(sorted@);
            vstd::seq_lib::to_multiset_len(unsorted);
            assert forall|k: int| 0 <= k < sorted@.len() implies listed_room(
                self.rooms@,
                #[trigger] sorted@[k],
            ) by {
                vstd::seq_lib::to_multiset_contains(sorted@, sorted@[k]);
                vstd::seq_lib::to_multiset_contains(unsorted, sorted@[k]);
                assert(sorted@.contains(sorted@[k]));
                let m = choose|m: int| 0 <= m < unsorted.len() && unsorted[m] == sorted@[k];
                assert(unsorted[m] == sorted@[k]);
            }
            assert forall|i: int|
                0 <= i < self.rooms@.len() && (#[trigger] self.rooms@[i]).is_public implies exists|k: int|
                0 <= k < sorted@.len() && self.rooms@[i].is_lobby_entry(#[trigger] sorted@[k]) by {
                let k = choose|k: int| 0 <= k < unsorted.len() && src[k] == i;
                let e = unsorted[k];
                assert(unsorted.contains(e));
                vstd::seq_lib::to_multiset_contains(unsorted, e);
                vstd::seq_lib::to_multiset_contains(sorted@, e);
                let k2 = choose|k2: int| 0 <= k2 < sorted@.len() && sorted@[k2] == e;
                assert(self.rooms@[i].is_lobby_entry(sorted@[k2]));
            }
            let idx = choose|idx: Seq<int>| crate::order::stable_reordering(sorted@, unsorted, idx);
            assert forall|k1: int, k2: int| 0 <= k1 < k2 < sorted@.len() implies (
            #[trigger] sorted@[k1]).code@ != (#[trigger] sorted@[k2]).code@ by {
                assert(sorted@[k1] == unsorted[idx[k1]]);
                assert(sorted@[k2] == unsorted[idx[k2]]);
                assert(idx[k1] != idx[k2]);
            }
        }
        sorted
    }

    /// Closes a room nobody plays in any more: not a managed-bot room, no
    /// seat connected, and still the room registered under its code.
    pub fn close_room_if_no_connected_players(&mut self, code: &str, room_id: u64) -> (r: bool)
        requires
            old(self).wf(),
        ensures
            final(self).wf(),
            !r ==> final(self).rooms@ == old(self).rooms@,
            final(self).managed_bot_lobbies_enabled == old(self).managed_bot_lobbies_enabled,
            r == exists|i: int|
                #[trigger] room_at(old(self).rooms@, i, code@, room_id) && old(self).rooms@[i].managed_bot_slot
                    is None && no_seat_connected(old(self).rooms@[i]),
            r ==> exists|i: int|
                0 <= i < old(self).rooms@.len() && (#[trigger] old(self).rooms@[i]).code@ == code@
                    && old(self).rooms@[i].room_id == room_id && old(self).rooms@[i].managed_bot_slot is None
                    && final(self).rooms@ == old(self).rooms@.remove(i) && final(self).closed_rooms@ == (
                if old(self).rooms@[i].sockets@.len() > 0 {
                    old(self).closed_rooms@.push(old(self).rooms@[i])
                } else {
                    old(self).closed_rooms@
                }),
            !r ==> final(self).closed_rooms == old(self).closed_rooms,
            final(self).next_room_id == old(self).next_room_id,
    {
        let index = match self.find_room(code) {
            Some(i) => i,
            None => return false,
        };
        proof {
            assert forall|i: int| #[trigger] room_at(self.rooms@, i, code@, room_id) implies i == index by {
                if i != index {
                    if i < index {
                        assert(self.rooms@[i].code@ != self.rooms@[index as int].code@);
                    } else {
                        assert(self.rooms@[index as int].code@ != self.rooms@[i].code@);
                    }
                }
            }
        }
        if self.rooms[index].room_id != room_id || self.rooms[index].managed_bot_slot.is_some() {
            return false;
        }
        if self.rooms[index].connected_player_count() > 0 {
            return false;
        }
        assert(room_at(self.rooms@, index as int, code@, room_id));
        let room = self.remove_room(index);
        if room.sockets.len() > 0 {
            self.closed_rooms.push(room);
        }
        true
    }

    /// A socket leaves a room that was closed while it watched; the room is
    /// let go once no socket is left.
    fn detach_closed(&mut self, code: &str, room_id: u64, socket_id: u64, now_ms: u64) -> (removed:
        Option<MultiplayerViewer>)
        requires
            old(self).wf(),
        ensures
            final(self).wf(),
            final(self).rooms == old(self).rooms,
            final(self).next_room_id == old(self).next_room_id,
            final(self).managed_bot_lobbies_enabled == old(self).managed_bot_lobbies_enabled,
            (forall|i: int| !#[trigger] room_at(old(self).closed_rooms@, i, code@, room_id)) ==> (
            removed is None && *final(self) == *old(self)),
            removed matches Some(v) ==> exists|i: int, j: int|
                #[trigger] room_at(old(self).closed_rooms@, i, code@, room_id) && 0 <= j
                    < old(self).closed_rooms@[i].sockets@.len() && (#[trigger] old(
                    self,
                ).closed_rooms@[i].sockets@[j]).id == socket_id
                    && old(self).closed_rooms@[i].sockets@[j].viewer == v,
            forall|k: int|
                #[trigger] room_at(old(self).closed_rooms@, k, code@, room_id) && (forall|k2: int|
                    0 <= k2 < k ==> !#[trigger] room_at(old(self).closed_rooms@, k2, code@, room_id))
                    ==> closed_detach_fits(old(self).closed_rooms@, final(self).closed_rooms@, k, socket_id, removed),
    {
        let mut i: usize = 0;
        while i < self.closed_rooms.len()
            invariant
                i <= self.closed_rooms@.len(),
                *self == *old(self),
                old(self).wf(),
                forall|k: int| 0 <= k < i ==> !#[trigger] room_at(self.closed_rooms@, k, code@, room_id),
            decreases self.closed_rooms.len() - i,
        {
            if str_eq(self.closed_rooms[i].code.as_str(), code) && self.closed_rooms[i].room_id == room_id {
                let ghost before = self.closed_rooms@;
                let mut room = self.closed_rooms.remove(i);
                assert(room.wf());
                let ghost start = room;
                let removed = room.unregister_socket(socket_id, now_ms);
                if room.sockets.len() > 0 {
                    self.closed_rooms.insert(i, room);
                    assert(self.closed_rooms@ =~= before.update(i as int, room));
                    assert forall|k: int| 0 <= k < self.closed_rooms@.len() implies (
                    #[trigger] self.closed_rooms@[k]).wf() by {
                        if k < i {
                            assert(self.closed_rooms@[k] == before[k]);
                        } else if k > i {
                            assert(self.closed_rooms@[k] == before[k]);
                        }
                    }
                } else {
                    assert forall|k: int| 0 <= k < self.closed_rooms@.len() implies (
                    #[trigger] self.closed_rooms@[k]).wf() by {
                        if k < i {
                            assert(self.closed_rooms@[k] == before[k]);
                        } else {
                            assert(self.closed_rooms@[k] == before[k + 1]);
                        }
                    }
                }
                assert(room_at(before, i as int, code@, room_id));
                proof {
                    assert forall|k: int|
                        #[trigger] room_at(before, k, code@, room_id) && (forall|k2: int|
                            0 <= k2 < k ==> !#[trigger] room_at(before, k2, code@, room_id))
                            implies closed_detach_fits(before, self.closed_rooms@, k, socket_id, removed) by {
                        if k > i {
                            assert(room_at(before, i as int, code@, room_id));
                        }
                        assert(k == i);
                        assert(start == before[k]);
                        if removed is None {
                            assert(room == start);
                            if start.sockets@.len() == 0 {
                                assert(self.closed_rooms@ =~= before.remove(k));
                            } else {
                                assert(self.closed_rooms@ =~= before);
                            }
                        } else {
                            let j = choose|j: int|
                                0 <= j < start.sockets@.len() && (#[trigger] start.sockets@[j]).id
                                    == socket_id && start.sockets@[j].viewer == removed->0
                                    && room.sockets@ == start.sockets@.remove(j);
                            if start.sockets@.len() == 1 {
                                assert(self.closed_rooms@ =~= before.remove(k));
                            }
                        }
                    }
                }
                return removed;
            }
            i += 1;
        }
        None
    }

    /// A socket leaves the room registered under `code` with `room_id`. In
    /// a managed-bot room a departing human player gives up the seat when
    /// `vacate_managed_human_seat` asks for it; the socket is unregistered;
    /// a room that a player's socket left with no seat connected is closed
    /// (managed-bot rooms stay open); and after a seat was given up the
    /// managed-bot rooms are renewed. A room no longer registered is left
    /// alone.
    pub fn detach_socket(
        &mut self,
        code: &str,
        room_id: u64,
        socket_id: u64,
        viewer: MultiplayerViewer,
        vacate_managed_human_seat: bool,
        now_ms: u64,
    ) -> (r: DetachOutcome)
        requires
            old(self).wf(),
        ensures
            final(self).wf(),
            detach_fits(*old(self), *final(self), code@, room_id, socket_id, viewer, vacate_managed_human_seat, now_ms, r),
    {
        let nothing = DetachOutcome {
            vacated_managed_seat: false,
            removed_viewer: None,
            closed_room: false,
            lobbies_changed: false,
        };
        let index = match self.find_room(code) {
            Some(i) => i,
            None => {
                assert forall|i: int| !#[trigger] room_at(old(self).rooms@, i, code@, room_id) by {
                    if room_at(old(self).rooms@, i, code@, room_id) {
                        assert(has_code(old(self).rooms@, code@));
                    }
                }
                let removed = self.detach_closed(code, room_id, socket_id, now_ms);
                return DetachOutcome { removed_viewer: removed, ..nothing };
            },
        };
        proof {
            assert forall|i: int| #[trigger] room_at(self.rooms@, i, code@, room_id) implies i == index by {
                if i != index {
                    if i < index {
                        assert(self.rooms@[i].code@ != self.rooms@[index as int].code@);
                    } else {
                        assert(self.rooms@[index as int].code@ != self.rooms@[i].code@);
                    }
                }
            }
        }
        if self.rooms[index].room_id != room_id {
            assert forall|i: int| !#[trigger] room_at(old(self).rooms@, i, code@, room_id) by {
                if room_at(old(self).rooms@, i, code@, room_id) {
                    assert(i == index);
                }
            }
            let removed = self.detach_closed(code, room_id, socket_id, now_ms);
            return DetachOutcome { removed_viewer: removed, ..nothing };
        }
        let ghost before = self.rooms@;
        let mut room = self.rooms.remove(index);
        let vacated = match viewer {
            MultiplayerViewer::Player(p) => if vacate_managed_human_seat {
                room.vacate_human_player(p, now_ms)
            } else {
                false
            },
            MultiplayerViewer::Spectator => false,
        };
        let removed = room.unregister_socket(socket_id, now_ms);
        let ghost left = room;
        self.rooms.insert(index, room);
        proof {
            assert(self.rooms@ =~= before.update(index as int, left));
            assert forall|i: int, j: int| 0 <= i < j < self.rooms@.len() implies (
            #[trigger] self.rooms@[i]).code@ != (#[trigger] self.rooms@[j]).code@ by {
                assert(self.rooms@[i].code == before[i].code);
                assert(self.rooms@[j].code == before[j].code);
            }
            assert forall|i: int| 0 <= i < self.rooms@.len() implies (#[trigger] self.rooms@[i]).wf() by {
                if i != index {
                    assert(self.rooms@[i] == before[i]);
                }
            }
            assert forall|i: int| #[trigger] room_at(self.rooms@, i, code@, room_id) implies i == index by {
                if i != index {
                    if i < index {
                        assert(self.rooms@[i].code@ != self.rooms@[index as int].code@);
                    } else {
                        assert(self.rooms@[index as int].code@ != self.rooms@[i].code@);
                    }
                }
            }
            assert(room_at(self.rooms@, index as int, code@, room_id));
        }
        let closed = match removed {
            Some(MultiplayerViewer::Player(_)) => self.close_room_if_no_connected_players(code, room_id),
            _ => false,
        };
        proof {
            if closed {
                assert(self.rooms@ =~= before.remove(index as int));
            }
            assert forall|i: int|
                0 <= i < before.len() && (#[trigger] before[i]).managed_bot_slot is None && !room_at(
                    before,
                    i,
                    code@,
                    room_id,
                ) implies self.rooms@.contains(before[i]) by {
                assert(i != index);
                if closed {
                    let k = if i < index { i } else { i - 1 };
                    assert(self.rooms@[k] == before[i]);
                } else {
                    assert(self.rooms@[i] == before[i]);
                }
            }
        }
        let ghost pre_lobbies = self.rooms@;
        let ghost pre_store = *self;
        let lobbies_changed = if vacated {
            self.ensure_managed_bot_lobbies(now_ms)
        } else {
            false
        };
        proof {
            assert forall|i: int|
                0 <= i < before.len() && (#[trigger] before[i]).managed_bot_slot is None && !room_at(
                    before,
                    i,
                    code@,
                    room_id,
                ) implies self.rooms@.contains(before[i]) by {
                assert(pre_lobbies.contains(before[i]));
                if vacated {
                    let k = choose|k: int| 0 <= k < pre_lobbies.len() && pre_lobbies[k] == before[i];
                    assert(pre_lobbies[k].managed_bot_slot is None);
                }
            }
            assert forall|i: int| #[trigger] room_at(before, i, code@, room_id) implies i == index by {
                if i != index {
                    if i < index {
                        assert(before[i].code@ != before[index as int].code@);
                    } else {
                        assert(before[index as int].code@ != before[i].code@);
                    }
                }
            }
            assert(room_at(before, index as int, code@, room_id));
            assert(left_room(before[index as int], left, socket_id, viewer, removed, vacated));
        }
        let out = DetachOutcome {
            vacated_managed_seat: vacated,
            removed_viewer: removed,
            closed_room: closed,
            lobbies_changed,
        };
        proof {
            assert forall|i: int| #[trigger] room_at(old(self).rooms@, i, code@, room_id) implies exists|
                a: RoomState,
            | #[trigger] left_room(
                old(self).rooms@[i],
                a,
                socket_id,
                viewer,
                out.removed_viewer,
                out.vacated_managed_seat,
            ) && out.closed_room == (out.removed_viewer matches Some(MultiplayerViewer::Player(_))
                && a.managed_bot_slot is None && no_seat_connected(a)) && (out.closed_room
                ==> self.rooms@ == old(self).rooms@.remove(i)) && (!out.closed_room
                && !out.lobbies_changed ==> self.rooms@ == old(self).rooms@.update(i, a)) && (
            out.vacated_managed_seat ==> exists|mid: RoomStore|
                #[trigger] lobbies_refreshed(mid, *self, now_ms, out.lobbies_changed) && mid.rooms@
                    == old(self).rooms@.update(i, a) && mid.managed_bot_lobbies_enabled
                    == old(self).managed_bot_lobbies_enabled) by {
                assert(i == index);
                if vacated {
                    assert(!closed);
                    assert(lobbies_refreshed(pre_store, *self, now_ms, out.lobbies_changed));
                    assert(pre_store.rooms@ == old(self).rooms@.update(i, left));
                }
                assert(left_room(
                    old(self).rooms@[i],
                    left,
                    socket_id,
                    viewer,
                    out.removed_viewer,
                    out.vacated_managed_seat,
                ));
            }
        }
        out
    }

    /// Puts a room taken out at `index` back in its place.
    fn put_back(&mut self, index: usize, room: RoomState, Ghost(before): Ghost<Seq<RoomState>>)
        requires
            index < before.len(),
            codes_distinct(before),
            slots_distinct(before),
            forall|i: int| 0 <= i < before.len() ==> (#[trigger] before[i]).wf(),
            old(self).rooms@ == before.remove(index as int),
            room.wf(),
            room.code@ == before[index as int].code@,
            room.managed_bot_slot == before[index as int].managed_bot_slot,
            forall|i: int|
                0 <= i < old(self).closed_rooms@.len() ==> (#[trigger] old(self).closed_rooms@[i]).wf(),
        ensures
            final(self).rooms@ == before.update(index as int, room),
            final(self).closed_rooms == old(self).closed_rooms,
            final(self).wf(),
            final(self).next_room_id == old(self).next_room_id,
            final(self).managed_bot_lobbies_enabled == old(self).managed_bot_lobbies_enabled,
    {
        self.rooms.insert(index, room);
        assert(self.rooms@ =~= before.update(index as int, room));
        assert forall|i: int, j: int| 0 <= i < j < self.rooms@.len() implies (
        #[trigger] self.rooms@[i]).code@ != (#[trigger] self.rooms@[j]).code@ by {
            assert(self.rooms@[i].code@ == before[i].code@);
            assert(self.rooms@[j].code@ == before[j].code@);
        }
        assert forall|i: int| 0 <= i < self.rooms@.len() implies (#[trigger] self.rooms@[i]).wf() by {
            if i != index {
                assert(self.rooms@[i] == before[i]);
            }
        }
        assert forall|i: int, j: int|
            0 <= i < j < self.rooms@.len() && (#[trigger] self.rooms@[i]).managed_bot_slot is Some implies self.rooms@[i].managed_bot_slot
            != (#[trigger] self.rooms@[j]).managed_bot_slot by {
            assert(self.rooms@[i].managed_bot_slot == before[i].managed_bot_slot);
            assert(self.rooms@[j].managed_bot_slot == before[j].managed_bot_slot);
        }
    }

    /// Where the socket of `a` still holds its place: in an open room, in
    /// one closed while it watched, or nowhere.
    fn active_place(&self, a: &ActiveRoom) -> (r: Place)
        requires
            self.wf(),
        ensures
            r matches Place::Open(i) ==> place_at(self.rooms@, *a, i as int),
            r matches Place::Closed(k) ==> place_at(self.closed_rooms@, *a, k as int) && forall|i: int|
                !#[trigger] place_at(self.rooms@, *a, i),
            r is Gone ==> (forall|i: int| !#[trigger] place_at(self.rooms@, *a, i)) && (forall|i: int|
                !#[trigger] place_at(self.closed_rooms@, *a, i)),
    {
        let mut open = false;
        let mut index: usize = 0;
        match self.find_room(a.code.as_str()) {
            Some(i) => {
                proof {
                    assert forall|j: int| #[trigger] room_at(self.rooms@, j, a.code@, a.room_id) implies j
                        == i by {
                        if j != i {
                            if j < i {
                                assert(self.rooms@[j].code@ != self.rooms@[i as int].code@);
                            } else {
                                assert(self.rooms@[i as int].code@ != self.rooms@[j].code@);
                            }
                        }
                    }
                }
                if self.rooms[i].room_id == a.room_id && self.rooms[i].socket_registered(a.socket_id) {
                    return Place::Open(i);
                }
                assert forall|j: int| !#[trigger] place_at(self.rooms@, *a, j) by {
                    if place_at(self.rooms@, *a, j) {
                        assert(j == i);
                    }
                }
            },
            None => {
                assert forall|j: int| !#[trigger] place_at(self.rooms@, *a, j) by {
                    if place_at(self.rooms@, *a, j) {
                        assert(has_code(self.rooms@, a.code@));
                    }
                }
            },
        }
        let mut k: usize = 0;
        while k < self.closed_rooms.len()
            invariant
                k <= self.closed_rooms@.len(),
                forall|j: int| 0 <= j < k ==> !#[trigger] place_at(self.closed_rooms@, *a, j),
                forall|j: int| !#[trigger] place_at(self.rooms@, *a, j),
            decreases self.closed_rooms.len() - k,
        {
            let room = &self.closed_rooms[k];
            if str_eq(room.code.as_str(), a.code.as_str()) && room.room_id == a.room_id
                && room.socket_registered(a.socket_id) {
                return Place::Closed(k);
            }
            k += 1;
        }
        Place::Gone
    }

    /// The socket leaves the room it had joined, giving up a seat of a
    /// managed-bot room. Returns whether it had joined one.
    fn detach_active(&mut self, active: &mut Option<ActiveRoom>, now_ms: u64) -> (detached: bool)
        requires
            old(self).wf(),
        ensures
            final(self).wf(),
            final(self).managed_bot_lobbies_enabled == old(self).managed_bot_lobbies_enabled,
            detached == (*old(active) is Some),
            *final(active) is None,
            *old(active) is None ==> *final(self) == *old(self),
            *old(active) is Some ==> exists|d: DetachOutcome|
                detach_fits(
                    *old(self),
                    *final(self),
                    (*old(active))->0.code@,
                    (*old(active))->0.room_id,
                    (*old(active))->0.socket_id,
                    (*old(active))->0.viewer,
                    true,
                    now_ms,
                    d,
                ),
    {
        let taken = match active {
            Some(a) => Some(
                ActiveRoom {
                    code: a.code.clone(),
                    room_id: a.room_id,
                    socket_id: a.socket_id,
                    viewer: a.viewer,
                },
            ),
            None => None,
        };
        *active = None;
        match taken {
            Some(a) => {
                let d = self.detach_socket(a.code.as_str(), a.room_id, a.socket_id, a.viewer, true, now_ms);
                assert(detach_fits(
                    *old(self),
                    *self,
                    (*old(active))->0.code@,
                    (*old(active))->0.room_id,
                    (*old(active))->0.socket_id,
                    (*old(active))->0.viewer,
                    true,
                    now_ms,
                    d,
                ));
                true
            },
            None => false,
        }
    }

    /// Carries out a command in the room where the socket holds its place:
    /// a refresh (no seat) or a command of the seat `seat`.
    fn command_at(
        &mut self,
        place: Place,
        viewer: MultiplayerViewer,
        socket_id: u64,
        seat: Option<usize>,
        msg: &ClientMsg,
        now_ms: u64,
    ) -> (r: CommandOutcome)
        requires
            old(self).wf(),
            place matches Place::Open(i) ==> i < old(self).rooms@.len(),
            place matches Place::Closed(k) ==> k < old(self).closed_rooms@.len(),
            seat matches Some(p) ==> p < 2,
        ensures
            final(self).wf(),
            final(self).managed_bot_lobbies_enabled == old(self).managed_bot_lobbies_enabled,
            final(self).rooms@.len() == old(self).rooms@.len(),
            final(self).closed_rooms@.len() == old(self).closed_rooms@.len(),
            seat is None && !(place is Gone) ==> r.answer is Room && !r.lobby_changed,
            seat is None && place is Open ==> viewer_sees(
                final(self).rooms@[place->Open_0 as int],
                viewer,
                socket_id,
                r.answer,
            ),
            seat is None && place is Closed ==> viewer_sees(
                final(self).closed_rooms@[place->Closed_0 as int],
                viewer,
                socket_id,
                r.answer,
            ),
            place is Gone ==> *final(self) == *old(self) && r.answer is Error && !r.lobby_changed,
            place is Open && seat is Some ==> seat_answer_fits(
                old(self).rooms@[place->Open_0 as int],
                final(self).rooms@[place->Open_0 as int],
                seat->0,
                *msg,
                now_ms,
                r.answer,
                r.lobby_changed,
            ),
            place is Closed && seat is Some ==> seat_answer_fits(
                old(self).closed_rooms@[place->Closed_0 as int],
                final(self).closed_rooms@[place->Closed_0 as int],
                seat->0,
                *msg,
                now_ms,
                r.answer,
                r.lobby_changed,
            ),
            place is Closed ==> final(self).rooms == old(self).rooms,
    {
        match place {
            Place::Open(i) => {
                let ghost before = self.rooms@;
                let mut room = self.rooms.remove(i);
                assert(room == before[i as int]);
                let out = room_command(&mut room, viewer, socket_id, seat, msg, now_ms);
                self.put_back(i, room, Ghost(before));
                out
            },
            Place::Closed(k) => {
                let ghost before = self.closed_rooms@;
                let mut room = self.closed_rooms.remove(k);
                assert(room == before[k as int]);
                assert(before == old(self).closed_rooms@);
                assert(room.wf());
                let out = room_command(&mut room, viewer, socket_id, seat, msg, now_ms);
                self.closed_rooms.insert(k, room);
                assert forall|j: int| 0 <= j < self.closed_rooms@.len() implies (
                #[trigger] self.closed_rooms@[j]).wf() by {
                    if j != k {
                        assert(self.closed_rooms@[j] == before[j]);
                    }
                }
                out
            },
            Place::Gone => CommandOutcome {
                answer: RoomAnswer::Error { message: "Room not found".to_string() },
                lobby_changed: false,
            },
        }
    }

    /// Registers the socket in the room with this code as `viewer` and
    /// answers with the room.
    fn activate(
        &mut self,
        user_id: &str,
        display_name: Option<&str>,
        code: String,
        viewer: MultiplayerViewer,
        active: &mut Option<ActiveRoom>,
        now_ms: u64,
    ) -> (r: RoomAnswer)
        requires
            old(self).wf(),
            viewer matches MultiplayerViewer::Player(p) ==> p < 2,
            *old(active) is None,
        ensures
            final(self).wf(),
            final(self).closed_rooms == old(self).closed_rooms,
            final(self).managed_bot_lobbies_enabled == old(self).managed_bot_lobbies_enabled,
            final(self).rooms@.len() == old(self).rooms@.len(),
            active_wf(*final(active)),
            r is Room ==> (*final(active) matches Some(a) && a.code@ == code@ && a.viewer == viewer
                && exists|i: int| #[trigger] place_at(final(self).rooms@, a, i)),
            !(r is Room) ==> *final(active) is None,
            r is Room || r is Error,
            !has_code(old(self).rooms@, code@) ==> (r matches RoomAnswer::Error { message } && message@
                == "Room not found"@ && final(self).rooms@ == old(self).rooms@),
            forall|i: int|
                0 <= i < old(self).rooms@.len() && (#[trigger] old(self).rooms@[i]).code@ == code@ ==> {
                    let room = old(self).rooms@[i];
                    let seated = viewer is Spectator || seat_of(room.seats, user_id@) == Some(viewer->0);
                    &&& !seated ==> (r matches RoomAnswer::Error { message } && message@
                        == "You are not seated in this room"@ && final(self).rooms@ == old(self).rooms@)
                    &&& seated ==> (r matches RoomAnswer::Room { view, chat } && view.code == room.code
                        && view.viewer_role@ == (match viewer {
                        MultiplayerViewer::Player(_) => "player"@,
                        MultiplayerViewer::Spectator => "spectator"@,
                    }) && (chat is Some ==> viewer is Player))
                    &&& seated ==> (*final(active) matches Some(a) && a.room_id == room.room_id
                        && final(self).rooms@[i].seats == room.seats && final(self).rooms@[i].sockets@.len()
                        > 0 && final(self).rooms@[i].sockets@ == sockets_without_user(room.sockets@, user_id@).push(
                        final(self).rooms@[i].sockets@.last(),
                    ) && (r matches RoomAnswer::Room { view, .. } && view.spectators@ == spectator_entries(
                        final(self).rooms@[i].sockets@,
                        Some(a.socket_id),
                    ) && view.local_player == (match viewer {
                        MultiplayerViewer::Player(p) => Some(p as u8),
                        MultiplayerViewer::Spectator => None,
                    })) && final(self).rooms@[i].sockets@.last().id == a.socket_id
                        && final(self).rooms@[i].sockets@.last().user_id@ == user_id@
                        && final(self).rooms@[i].sockets@.last().viewer == viewer)
                    &&& seated ==> (*final(active) matches Some(a) && viewer_sees(
                        final(self).rooms@[i],
                        viewer,
                        a.socket_id,
                        r,
                    ))
                    &&& seated ==> final(self).rooms@[i] == (RoomState {
                        sockets: final(self).rooms@[i].sockets,
                        next_socket_id: final(self).rooms@[i].next_socket_id,
                        last_activity_ms: final(self).rooms@[i].last_activity_ms,
                        clock: final(self).rooms@[i].clock,
                        outcome: final(self).rooms@[i].outcome,
                        clock_generation: final(self).rooms@[i].clock_generation,
                        ..room
                    })
                    &&& seated && refresh_view(room.clock.view(), now_ms) == room.clock.view() ==> (final(self).rooms@[i].clock.view() == room.clock.view() && final(self).rooms@[i].outcome
                        == room.outcome)
                    &&& seated && room.outcome is Some ==> final(self).rooms@[i].outcome == room.outcome
                    &&& forall|k: int|
                        0 <= k < old(self).rooms@.len() && k != i ==> #[trigger] final(self).rooms@[k]
                            == old(self).rooms@[k]
                },
    {
        let index = match self.find_room(code.as_str()) {
            Some(i) => i,
            None => return RoomAnswer::Error { message: "Room not found".to_string() },
        };
        let ghost before = self.rooms@;
        proof {
            assert forall|i: int|
                0 <= i < before.len() && (#[trigger] before[i]).code@ == code@ implies i == index by {
                if i != index {
                    if i < index {
                        assert(before[i].code@ != before[index as int].code@);
                    } else {
                        assert(before[index as int].code@ != before[i].code@);
                    }
                }
            }
        }
        let mut room = self.rooms.remove(index);
        let registered = room.register_socket(user_id, display_name, viewer, now_ms);
        let socket_id = match registered {
            Ok(id) => id,
            Err(message) => {
                self.put_back(index, room, Ghost(before));
                assert(self.rooms@ =~= before);
                return RoomAnswer::Error { message };
            },
        };
        let room_id = room.room_id;
        let view = room.room_view(viewer, Some(socket_id), now_ms);
        let chat = if viewer.player().is_some() && room.chat_messages.len() > 0 {
            Some(copy_history(&room.chat_messages))
        } else {
            None
        };
        let ghost placed = room;
        self.put_back(index, room, Ghost(before));
        *active = Some(ActiveRoom { code, room_id, socket_id, viewer });
        proof {
            let a = active->0;
            assert(self.rooms@[index as int] == placed);
            assert(placed.sockets@.last().id == socket_id);
            let j = placed.sockets@.len() - 1;
            assert(self.rooms@[index as int].sockets@[j].id == a.socket_id);
            assert(place_at(self.rooms@, a, index as int));
        }
        RoomAnswer::Room { view, chat }
    }

    /// Carries out a multiplayer command of a socket, as far as the rooms
    /// decide it: a socket that no longer holds its place in its room has
    /// left it; the command is checked against the socket's place (see
    /// `spec_command_gate`); then the lobby is listed, the room refreshed,
    /// a room created or joined (after leaving the current one), the room
    /// left, a chat message added, the game resigned or the opponent given
    /// time. A move, undo or redo in a room whose game is on is handed back
    /// to the caller (`Move`), which plays it on the game itself.
    pub fn handle_command(
        &mut self,
        user_id: &str,
        display_name: Option<&str>,
        active: &mut Option<ActiveRoom>,
        msg: &ClientMsg,
        now_ms: u64,
    ) -> (r: CommandOutcome)
        requires
            old(self).wf(),
            active_wf(*old(active)),
        ensures
            final(self).wf(),
            final(self).managed_bot_lobbies_enabled == old(self).managed_bot_lobbies_enabled,
            active_wf(*final(active)),
            spec_command_gate(*msg, current_viewer(old(self).rooms@, old(self).closed_rooms@, *old(active))) matches Err(m) ==> (
            r.answer matches RoomAnswer::Error { message } && message@ == m && !r.lobby_changed
                && final(self).rooms@ == old(self).rooms@),
            msg is ListMultiplayerRooms ==> (exists|c: bool| lobbies_refreshed(*old(self), *final(self), now_ms, c))
                && lobby_lists(final(self).rooms@, r.answer) && !r.lobby_changed,
            msg is GetMultiplayerRoom && current_viewer(old(self).rooms@, old(self).closed_rooms@, *old(active)) is Some ==> (
            r.answer is Room && !r.lobby_changed),
            forall|i: int|
                #![trigger place_at(old(self).rooms@, (*old(active))->0, i)]
                msg is GetMultiplayerRoom && *old(active) is Some && place_at(old(self).rooms@, (*old(active))->0, i)
                    ==> viewer_sees(final(self).rooms@[i], (*old(active))->0.viewer, (*old(active))->0.socket_id, r.answer),
            msg is GetMultiplayerRoom && *old(active) is Some && (forall|i: int|
                !#[trigger] place_at(old(self).rooms@, (*old(active))->0, i)) && (exists|k: int|
                #[trigger] place_at(old(self).closed_rooms@, (*old(active))->0, k)) ==> exists|k: int|
                #[trigger] place_at(old(self).closed_rooms@, (*old(active))->0, k) && viewer_sees(
                    final(self).closed_rooms@[k],
                    (*old(active))->0.viewer,
                    (*old(active))->0.socket_id,
                    r.answer,
                ),
            msg is LeaveMultiplayerRoom ==> r.answer is Left && *final(active) is None && r.lobby_changed
                == (current_viewer(old(self).rooms@, old(self).closed_rooms@, *old(active)) is Some)
                && left_first(*old(self), *final(self), *old(active), now_ms),
            msg is CreateMultiplayerRoom || msg is JoinMultiplayerRoom ==> (r.answer is Room
                || r.answer is Error) && (r.answer is Room ==> (*final(active) matches Some(a) && exists|
                i: int,
            | #[trigger] place_at(final(self).rooms@, a, i)) && r.lobby_changed) && (r.answer is Error
                ==> *final(active) is None),
            msg is JoinMultiplayerRoom ==> exists|mid: RoomStore|
                left_first(*old(self), mid, *old(active), now_ms) && join_fits(
                    mid,
                    *final(self),
                    user_id@,
                    (*msg)->JoinMultiplayerRoom_code@,
                    r.answer,
                    *final(active),
                ),
            *msg matches ClientMsg::JoinMultiplayerRoom { code } && spec_normalize_room_code(code@) is None
                ==> (r.answer matches RoomAnswer::Error { message } && message@
                == "Room code must be 6 letters or numbers"@),
            msg is JoinMultiplayerRoom && r.answer is Room ==> (*final(active) matches Some(a)
                && spec_normalize_room_code((*msg)->JoinMultiplayerRoom_code@) == Some(a.code@)),
            msg is CreateMultiplayerRoom && (*msg)->CreateMultiplayerRoom_code is Some && r.answer is Room
                ==> (*final(active) matches Some(a) && spec_normalize_room_code(
                (*msg)->CreateMultiplayerRoom_code->0@,
            ) == Some(a.code@)),
            msg is CreateMultiplayerRoom && r.answer is Room ==> (*final(active) matches Some(a)
                && a.viewer is Player && ((*msg)->CreateMultiplayerRoom_preferred_player is Some
                ==> a.viewer == MultiplayerViewer::Player(
                creator_seat((*msg)->CreateMultiplayerRoom_preferred_player, false),
            )) && exists|i: int|
                #[trigger] place_at(final(self).rooms@, a, i) && new_room_fits(
                    final(self).rooms@[i],
                    user_id@,
                    a.viewer->Player_0,
                    (*msg)->CreateMultiplayerRoom_is_public,
                    (*msg)->CreateMultiplayerRoom_time_minutes,
                    (*msg)->CreateMultiplayerRoom_increment_seconds,
                )),
            msg is CreateMultiplayerRoom ==> exists|mid: RoomStore|
                left_first(*old(self), mid, *old(active), now_ms) && (create_cannot_collide(*msg, mid.rooms@)
                    ==> r.answer is Room),
            *msg matches ClientMsg::CreateMultiplayerRoom { code: Some(c), .. } && spec_normalize_room_code(
                c@,
            ) is None ==> (r.answer matches RoomAnswer::Error { message } && message@
                == "Room code must be 6 letters or numbers"@),
            !(msg is CreateMultiplayerRoom || msg is JoinMultiplayerRoom || msg is LeaveMultiplayerRoom)
                ==> *final(active) == (if current_viewer(old(self).rooms@, old(self).closed_rooms@, *old(active)) is Some {
                *old(active)
            } else {
                None::<ActiveRoom>
            }),
            forall|i: int|
                #![trigger place_at(old(self).rooms@, (*old(active))->0, i)]
                *old(active) is Some && place_at(old(self).rooms@, (*old(active))->0, i) ==> (
                spec_command_gate(*msg, Some((*old(active))->0.viewer)) matches Ok(Some(p))
                    ==> seat_answer_fits(
                    old(self).rooms@[i],
                    final(self).rooms@[i],
                    p,
                    *msg,
                    now_ms,
                    r.answer,
                    r.lobby_changed,
                )),
            *old(active) is Some && (forall|i: int|
                !#[trigger] place_at(old(self).rooms@, (*old(active))->0, i)) && (exists|k: int|
                #[trigger] place_at(old(self).closed_rooms@, (*old(active))->0, k)) ==> (
            spec_command_gate(*msg, Some((*old(active))->0.viewer)) matches Ok(Some(p)) ==> exists|k: int|
                #[trigger] place_at(old(self).closed_rooms@, (*old(active))->0, k) && seat_answer_fits(
                    old(self).closed_rooms@[k],
                    final(self).closed_rooms@[k],
                    p,
                    *msg,
                    now_ms,
                    r.answer,
                    r.lobby_changed,
                )),
    {
        let place = match active {
            Some(a) => self.active_place(a),
            None => Place::Gone,
        };
        if let Place::Gone = place {
            *active = None;
        }
        let viewer = match active {
            Some(a) => Some(a.viewer),
            None => None,
        };
        let seat = match multiplayer_command_gate(msg, viewer) {
            Ok(s) => s,
            Err(message) => {
                return CommandOutcome { answer: RoomAnswer::Error { message }, lobby_changed: false };
            },
        };
        match msg {
            ClientMsg::ListMultiplayerRooms => {
                let changed = self.ensure_managed_bot_lobbies(now_ms);
                assert(lobbies_refreshed(*old(self), *self, now_ms, changed));
                CommandOutcome { answer: RoomAnswer::Lobby { rooms: self.lobby_rooms() }, lobby_changed: false }
            },
            ClientMsg::GetMultiplayerRoom => match active {
                Some(a) => self.command_at(place, a.viewer, a.socket_id, None, msg, now_ms),
                None => CommandOutcome {
                    answer: RoomAnswer::Error {
                        message: "Join a multiplayer room before refreshing it".to_string(),
                    },
                    lobby_changed: false,
                },
            },
            ClientMsg::CreateMultiplayerRoom {
                preferred_player,
                code,
                is_public,
                time_minutes,
                increment_seconds,
            } => {
                let detached = self.detach_active(active, now_ms);
                let ghost mid = *self;
                assert(left_first(*old(self), mid, *old(active), now_ms));
                let requested = match code {
                    Some(c) => Some(c.as_str()),
                    None => None,
                };
                match self.create_room(
                    user_id,
                    display_name,
                    *preferred_player,
                    requested,
                    *is_public,
                    *time_minutes,
                    *increment_seconds,
                    now_ms,
                ) {
                    Err(message) => CommandOutcome {
                        answer: RoomAnswer::Error { message },
                        lobby_changed: detached,
                    },
                    Ok((code, player)) => CommandOutcome {
                        answer: self.activate(
                            user_id,
                            display_name,
                            code,
                            MultiplayerViewer::Player(player),
                            active,
                            now_ms,
                        ),
                        lobby_changed: true,
                    },
                }
            },
            ClientMsg::JoinMultiplayerRoom { code } => {
                let detached = self.detach_active(active, now_ms);
                let ghost mid = *self;
                assert(left_first(*old(self), mid, *old(active), now_ms));
                match self.join_room_with_display_name(user_id, display_name, code.as_str(), now_ms) {
                    Err(message) => {
                        proof {
                            assert forall|i: int|
                                0 <= i < mid.rooms@.len() && spec_normalize_room_code(code@) == Some(
                                    (#[trigger] mid.rooms@[i]).code@,
                                ) implies false by {
                                assert(has_code(mid.rooms@, mid.rooms@[i].code@));
                            }
                        }
                        CommandOutcome { answer: RoomAnswer::Error { message }, lobby_changed: detached }
                    },
                    Ok((joined, viewer)) => {
                        let ghost after_join = *self;
                        let answer = self.activate(user_id, display_name, joined, viewer, active, now_ms);
                        proof {
                            assert forall|i: int|
                                0 <= i < mid.rooms@.len() && spec_normalize_room_code(code@) == Some(
                                    (#[trigger] mid.rooms@[i]).code@,
                                ) implies joined_as(mid.rooms@[i], self.rooms@[i], user_id@, answer, *active)
                                && self.rooms@ == mid.rooms@.update(i, self.rooms@[i]) && self.closed_rooms
                                == mid.closed_rooms by {
                                assert(after_join.rooms@[i].code == mid.rooms@[i].code);
                                assert(self.rooms@ =~= mid.rooms@.update(i, self.rooms@[i]));
                            }
                        }
                        CommandOutcome { answer, lobby_changed: true }
                    },
                }
            },
            ClientMsg::LeaveMultiplayerRoom => {
                let detached = self.detach_active(active, now_ms);
                CommandOutcome { answer: RoomAnswer::Left, lobby_changed: detached }
            },
            _ => match (active, seat) {
                (Some(a), Some(p)) => self.command_at(place, a.viewer, a.socket_id, Some(p), msg, now_ms),
                _ => CommandOutcome {
                    answer: RoomAnswer::Error { message: "Unsupported multiplayer message".to_string() },
                    lobby_changed: false,
                },
            },
        }
    }

    /// The index of the room standing for a managed-bot slot.
    fn find_slot_room(&self, slot: ManagedBotLobbySlot) -> (r: Option<usize>)
        ensures
            r matches Some(i) ==> i < self.rooms@.len() && self.rooms@[i as int].managed_bot_slot == Some(
                slot,
            ),
            r is None ==> forall|i: int|
                0 <= i < self.rooms@.len() ==> (#[trigger] self.rooms@[i]).managed_bot_slot != Some(
                    slot,
                ),
    {
        let mut i: usize = 0;
        while i < self.rooms.len()
            invariant
                i <= self.rooms@.len(),
                forall|j: int| 0 <= j < i ==> (#[trigger] self.rooms@[j]).managed_bot_slot != Some(slot),
            decreases self.rooms.len() - i,
        {
            if self.rooms[i].managed_bot_slot == Some(slot) {
                return Some(i);
            }
            i += 1;
        }
        None
    }

    /// Opens the room of a managed-bot slot that has none under the drawn
    /// `code`, unless a room already holds that code; the bot takes a
    /// random seat. Returns whether the room was opened.
    pub fn place_managed_bot_room(&mut self, slot: ManagedBotLobbySlot, code: String, now_ms: u64) -> (placed: bool)
        requires
            old(self).wf(),
            slot_missing(old(self).rooms@, slot),
        ensures
            final(self).wf(),
            final(self).managed_bot_lobbies_enabled == old(self).managed_bot_lobbies_enabled,
            final(self).closed_rooms == old(self).closed_rooms,
            placed == !has_code(old(self).rooms@, code@),
            !placed ==> *final(self) == *old(self),
            placed ==> {
                &&& final(self).rooms@ == old(self).rooms@.push(final(self).rooms@.last())
                &&& final(self).rooms@.last().code == code
                &&& final(self).rooms@.last().room_id == old(self).next_room_id
                &&& final(self).rooms@.last().managed_bot_slot == Some(slot)
                &&& final(self).rooms@.last().is_fresh_managed_room(now_ms)
            },
    {
        if self.find_room(code.as_str()).is_some() {
            return false;
        }
        let room_id = self.take_room_id();
        let bot_player: usize = if random_bool() {
            1
        } else {
            0
        };
        let room = RoomState::new_managed_bot(code, room_id, slot, bot_player, now_ms);
        self.add_room(room);
        true
    }

    /// Keeps one open room per managed-bot slot: a slot's room is replaced
    /// once it should be refreshed, and a slot without a room gets a new one
    /// under a fresh code. Returns whether any room changed. Rooms of people
    /// are never touched. A new room needs a drawn code that no room holds,
    /// and the draws are random: whether every slot ends with a room is
    /// not stated, beyond the first slot of a store without rooms, where
    /// no draw can collide.
    pub fn ensure_managed_bot_lobbies(&mut self, now_ms: u64) -> (changed: bool)
        requires
            old(self).wf(),
        ensures
            final(self).wf(),
            lobbies_refreshed(*old(self), *final(self), now_ms, changed),
    {
        if !self.managed_bot_lobbies_enabled {
            proof {
                assert forall|i: int| 0 <= i < self.rooms@.len() implies self.rooms@.contains(
                    #[trigger] self.rooms@[i],
                ) by {}
            }
            return false;
        }
        let mut changed = false;
        let mut s: usize = 0;
        while s < 3
            invariant
                s <= 3,
                self.wf(),
                self.managed_bot_lobbies_enabled == old(self).managed_bot_lobbies_enabled,
                self.closed_rooms == old(self).closed_rooms,
                !changed ==> self.rooms@ == old(self).rooms@,
                forall|i: int|
                    0 <= i < self.rooms@.len() ==> old(self).rooms@.contains(#[trigger] self.rooms@[i])
                        || self.rooms@[i].is_fresh_managed_room(now_ms),
                forall|i: int|
                    0 <= i < old(self).rooms@.len() && !(#[trigger] old(
                        self,
                    ).rooms@[i]).needs_managed_refresh(now_ms) ==> self.rooms@.contains(
                        old(self).rooms@[i],
                    ),
                forall|i: int|
                    0 <= i < self.rooms@.len() && (#[trigger] self.rooms@[i]).managed_bot_slot is Some
                        && slot_rank(self.rooms@[i].managed_bot_slot->0) < s
                        ==> !self.rooms@[i].needs_managed_refresh(now_ms),
                forall|i: int|
                    0 <= i < self.rooms@.len() && (#[trigger] self.rooms@[i]).managed_bot_slot is Some
                        && slot_rank(self.rooms@[i].managed_bot_slot->0) >= s ==> old(self).rooms@.contains(
                        self.rooms@[i],
                    ),
                forall|i: int|
                    0 <= i < old(self).rooms@.len() && (#[trigger] old(self).rooms@[i]).managed_bot_slot
                        is Some && slot_rank(old(self).rooms@[i].managed_bot_slot->0) >= s
                        ==> self.rooms@.contains(old(self).rooms@[i]),
                forall|t: ManagedBotLobbySlot|
                    slot_rank(t) < s && #[trigger] slot_due(old(self).rooms@, t, now_ms) ==> changed,
                changed ==> (exists|t: ManagedBotLobbySlot| #[trigger] slot_due(old(self).rooms@, t, now_ms))
                    || (exists|t: ManagedBotLobbySlot|
                    slot_missing(old(self).rooms@, t) && !#[trigger] slot_missing(self.rooms@, t)),
                old(self).rooms@.len() == 0 && s >= 1 ==> !slot_missing(self.rooms@, ManagedBotLobbySlot::FiveThree),
                old(self).rooms@.len() == 0 && s == 0 ==> !changed,
            decreases 3 - s,
        {
            let slot = if s == 0 {
                ManagedBotLobbySlot::FiveThree
            } else if s == 1 {
                ManagedBotLobbySlot::FifteenOne
            } else {
                ManagedBotLobbySlot::ThirtyZero
            };
            assert(slot_rank(slot) == s);
            let ghost start = self.rooms@;
            let ghost due = slot_due(old(self).rooms@, slot, now_ms);
            proof {
                if due {
                    let j = choose|j: int|
                        0 <= j < old(self).rooms@.len() && (#[trigger] old(self).rooms@[j]).managed_bot_slot
                            == Some(slot) && old(self).rooms@[j].needs_managed_refresh(now_ms);
                    assert(start.contains(old(self).rooms@[j]));
                }
            }
            match self.find_slot_room(slot) {
                Some(index) => {
                    proof {
                        assert forall|j: int|
                            0 <= j < start.len() && (#[trigger] start[j]).managed_bot_slot == Some(slot)
                                implies j == index by {
                            if j < index {
                                assert(start[j].managed_bot_slot != start[index as int].managed_bot_slot);
                            } else if j > index {
                                assert(start[index as int].managed_bot_slot != start[j].managed_bot_slot);
                            }
                        }
                    }
                    if !self.rooms[index].should_refresh_managed_bot(now_ms) {
                        proof {
                            if due {
                                let j = choose|j: int|
                                    0 <= j < old(self).rooms@.len() && (#[trigger] old(
                                        self,
                                    ).rooms@[j]).managed_bot_slot == Some(slot) && old(
                                        self,
                                    ).rooms@[j].needs_managed_refresh(now_ms);
                                let r = old(self).rooms@[j];
                                let m = choose|m: int| 0 <= m < start.len() && start[m] == r;
                                assert(m == index);
                            }
                        }
                        s += 1;
                        continue;
                    }
                    proof {
                        assert(start.contains(start[index as int]));
                        assert(slot_due(old(self).rooms@, slot, now_ms)) by {
                            let r = start[index as int];
                            let j = choose|j: int| 0 <= j < old(self).rooms@.len() && old(self).rooms@[j] == r;
                            assert(old(self).rooms@[j].managed_bot_slot == Some(slot));
                        }
                    }
                    let ghost pre_remove = self.rooms@;
                    self.remove_room(index);
                    proof {
                        if old(self).rooms@.len() == 0 && s >= 1 {
                            assert(slot != ManagedBotLobbySlot::FiveThree);
                            lemma_remove_keeps_slot(pre_remove, index as int, ManagedBotLobbySlot::FiveThree);
                        }
                    }
                    proof {
                        assert forall|i: int|
                            0 <= i < old(self).rooms@.len() && !(#[trigger] old(
                                self,
                            ).rooms@[i]).needs_managed_refresh(now_ms) implies self.rooms@.contains(
                            old(self).rooms@[i],
                        ) by {
                            let r = old(self).rooms@[i];
                            assert(start.contains(r));
                            let j = choose|j: int| 0 <= j < start.len() && start[j] == r;
                            assert(j != index);
                            let j2 = if j < index { j } else { j - 1 };
                            assert(self.rooms@[j2] == r);
                        }
                        assert forall|i: int|
                            0 <= i < old(self).rooms@.len() && (#[trigger] old(self).rooms@[i]).managed_bot_slot
                                is Some && slot_rank(old(self).rooms@[i].managed_bot_slot->0) >= s + 1
                                implies self.rooms@.contains(old(self).rooms@[i]) by {
                            let r = old(self).rooms@[i];
                            assert(start.contains(r));
                            let j = choose|j: int| 0 <= j < start.len() && start[j] == r;
                            assert(j != index);
                            let j2 = if j < index { j } else { j - 1 };
                            assert(self.rooms@[j2] == r);
                        }
                        assert forall|i: int|
                            0 <= i < self.rooms@.len() implies (#[trigger] self.rooms@[i]).managed_bot_slot
                                != Some(slot) by {
                            let j = if i < index { i } else { i + 1 };
                            assert(self.rooms@[i] == start[j]);
                        }
                    }
                    proof {
                        assert(slot_due(old(self).rooms@, slot, now_ms));
                    }
                    changed = true;
                },
                None => {
                    proof {
                        assert(slot_missing(old(self).rooms@, slot)) by {
                            assert forall|i: int| 0 <= i < old(self).rooms@.len() implies (
                            #[trigger] old(self).rooms@[i]).managed_bot_slot != Some(slot) by {
                                if old(self).rooms@[i].managed_bot_slot == Some(slot) {
                                    assert(start.contains(old(self).rooms@[i]));
                                }
                            }
                        }
                    }
                },
            }
            let ghost pre_add = self.rooms@;
            let mut placed = false;
            let mut attempt: usize = 0;
            while attempt < ROOM_CODE_ATTEMPTS && !placed
                invariant
                    slot_rank(slot) == s,
                    s < 3,
                    self.wf(),
                    self.managed_bot_lobbies_enabled == old(self).managed_bot_lobbies_enabled,
                    self.closed_rooms == old(self).closed_rooms,
                    !changed ==> self.rooms@ == old(self).rooms@,
                    forall|i: int|
                        0 <= i < self.rooms@.len() ==> old(self).rooms@.contains(
                            #[trigger] self.rooms@[i],
                        ) || self.rooms@[i].is_fresh_managed_room(now_ms),
                    forall|i: int|
                        0 <= i < old(self).rooms@.len() && !(#[trigger] old(
                            self,
                        ).rooms@[i]).needs_managed_refresh(now_ms) ==> self.rooms@.contains(
                            old(self).rooms@[i],
                        ),
                    forall|i: int|
                        0 <= i < self.rooms@.len() && (#[trigger] self.rooms@[i]).managed_bot_slot
                            is Some && slot_rank(self.rooms@[i].managed_bot_slot->0) < s
                            ==> !self.rooms@[i].needs_managed_refresh(now_ms),
                    forall|i: int|
                        0 <= i < self.rooms@.len() && (#[trigger] self.rooms@[i]).managed_bot_slot
                            == Some(slot) ==> self.rooms@[i].is_fresh_managed_room(now_ms),
                    !placed ==> forall|i: int|
                        0 <= i < self.rooms@.len() ==> (#[trigger] self.rooms@[i]).managed_bot_slot
                            != Some(slot),
                    forall|i: int|
                        0 <= i < self.rooms@.len() && (#[trigger] self.rooms@[i]).managed_bot_slot
                            is Some && slot_rank(self.rooms@[i].managed_bot_slot->0) > s
                            ==> old(self).rooms@.contains(self.rooms@[i]),
                    forall|i: int|
                        0 <= i < old(self).rooms@.len() && (#[trigger] old(self).rooms@[i]).managed_bot_slot
                            is Some && slot_rank(old(self).rooms@[i].managed_bot_slot->0) > s
                            ==> self.rooms@.contains(old(self).rooms@[i]),
                    slot_due(old(self).rooms@, slot, now_ms) || slot_missing(old(self).rooms@, slot),
                    slot_due(old(self).rooms@, slot, now_ms) ==> changed,
                    forall|t: ManagedBotLobbySlot|
                        slot_rank(t) < s && #[trigger] slot_due(old(self).rooms@, t, now_ms) ==> changed,
                    changed ==> (exists|t: ManagedBotLobbySlot| #[trigger] slot_due(old(self).rooms@, t, now_ms))
                        || (exists|t: ManagedBotLobbySlot|
                        slot_missing(old(self).rooms@, t) && !#[trigger] slot_missing(self.rooms@, t)),
                    old(self).rooms@.len() == 0 && s >= 1 ==> !slot_missing(self.rooms@, ManagedBotLobbySlot::FiveThree),
                    old(self).rooms@.len() == 0 && s == 0 ==> changed == placed,
                    old(self).rooms@.len() == 0 && s == 0 && !placed ==> attempt == 0,
                    placed ==> !slot_missing(self.rooms@, slot),
                decreases ROOM_CODE_ATTEMPTS - attempt,
            {
                let code = new_room_code();
                let ghost before = self.rooms@;
                if self.place_managed_bot_room(slot, code, now_ms) {
                    let ghost room = self.rooms@.last();
                    proof {
                        assert forall|i: int|
                            0 <= i < old(self).rooms@.len() && !(#[trigger] old(
                                self,
                            ).rooms@[i]).needs_managed_refresh(now_ms) implies self.rooms@.contains(
                            old(self).rooms@[i],
                        ) by {
                            let r = old(self).rooms@[i];
                            let j = choose|j: int| 0 <= j < before.len() && before[j] == r;
                            assert(self.rooms@[j] == r);
                        }
                        assert forall|i: int|
                            0 <= i < old(self).rooms@.len() && (#[trigger] old(self).rooms@[i]).managed_bot_slot
                                is Some && slot_rank(old(self).rooms@[i].managed_bot_slot->0) > s
                                implies self.rooms@.contains(old(self).rooms@[i]) by {
                            let r = old(self).rooms@[i];
                            let j = choose|j: int| 0 <= j < before.len() && before[j] == r;
                            assert(self.rooms@[j] == r);
                        }
                    }
                    proof {
                        let last = self.rooms@.len() - 1;
                        assert(self.rooms@[last].managed_bot_slot == Some(slot));
                        assert(!slot_missing(self.rooms@, slot));
                        if old(self).rooms@.len() == 0 && s >= 1 {
                            lemma_push_keeps_slot(before, room, ManagedBotLobbySlot::FiveThree);
                        }
                        if changed && !(exists|t: ManagedBotLobbySlot| #[trigger] slot_due(old(self).rooms@, t, now_ms)) {
                            let t = choose|t: ManagedBotLobbySlot|
                                slot_missing(old(self).rooms@, t) && !#[trigger] slot_missing(before, t);
                            lemma_push_keeps_slot(before, room, t);
                        }
                        if !(exists|t: ManagedBotLobbySlot| #[trigger] slot_due(old(self).rooms@, t, now_ms)) {
                            assert(!slot_due(old(self).rooms@, slot, now_ms));
                            assert(slot_missing(old(self).rooms@, slot));
                        }
                    }
                    changed = true;
                    placed = true;
                }
                attempt += 1;
            }
            proof {
                assert forall|i: int|
                    0 <= i < self.rooms@.len() && (#[trigger] self.rooms@[i]).managed_bot_slot is Some
                        && slot_rank(self.rooms@[i].managed_bot_slot->0) < s + 1
                        implies !self.rooms@[i].needs_managed_refresh(now_ms) by {
                    if self.rooms@[i].managed_bot_slot == Some(slot) {
                        assert(self.rooms@[i].is_fresh_managed_room(now_ms));
                    } else {
                        let t = self.rooms@[i].managed_bot_slot->0;
                        assert(slot_rank(t) != s) by {
                            if slot_rank(t) == s {
                                assert(t == slot);
                            }
                        }
                    }
                }
                assert forall|t: ManagedBotLobbySlot|
                    slot_rank(t) < s + 1 && #[trigger] slot_due(old(self).rooms@, t, now_ms) implies changed by {
                    if slot_rank(t) == s {
                        assert(t == slot);
                    }
                }
            }
            s += 1;
        }
        proof {
            assert(forall|i: int|
                0 <= i < self.rooms@.len() && (#[trigger] self.rooms@[i]).managed_bot_slot is Some
                    ==> !self.rooms@[i].needs_managed_refresh(now_ms)) by {
                assert forall|i: int|
                    0 <= i < self.rooms@.len() && (#[trigger] self.rooms@[i]).managed_bot_slot is Some implies
                    !self.rooms@[i].needs_managed_refresh(now_ms) by {
                    assert(slot_rank(self.rooms@[i].managed_bot_slot->0) < 3);
                }
            }
            assert(forall|slot: ManagedBotLobbySlot| #[trigger] slot_due(old(self).rooms@, slot, now_ms) ==> changed) by {
                assert forall|slot: ManagedBotLobbySlot| #[trigger] slot_due(old(self).rooms@, slot, now_ms) implies changed by {
                    assert(slot_rank(slot) < 3);
                }
            }
            assert(changed ==> exists|t: ManagedBotLobbySlot|
                #![trigger slot_due(old(self).rooms@, t, now_ms)]
                #![trigger slot_missing(old(self).rooms@, t)]
                slot_due(old(self).rooms@, t, now_ms) || slot_missing(old(self).rooms@, t));
        }
        changed
    }
}

} // verus!
