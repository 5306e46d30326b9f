//! The state of an in-memory multiplayer room: its seats, the sockets
//! watching it, its chat, its clock and how its game ended.

use vstd::prelude::*;
use crate::text::str_eq;
use crate::room::{
    clone_opt_string, managed_bot_should_refresh, ManagedBotLobbySlot, MultiplayerViewer,
    RoomOutcome, SeatOwner, SeatOwnerKind,
};
use crate::clock::{add_seconds_view, finish_turn_view, refresh_view, ClockView, RoomClock, RoomClockSnapshot};
use crate::protocol::{
    ClientMsg, MultiplayerChatMessage, MultiplayerLobbyRoom, MultiplayerPlayer, MultiplayerSpectator,
};
use crate::replay::ReplayParticipant;
use crate::room::{replay_result_for_room_outcome, spec_replay_result_for_room_outcome};
use crate::chat::{keep_latest, push_chat_message, sanitize_multiplayer_chat_text, MULTIPLAYER_CHAT_HISTORY_LIMIT};

verus! {

/// A socket registered with a room. The channel that reaches it is kept
/// by the caller under the same id.
#[derive(Clone, Debug)]
pub struct RoomSocket {
    pub id: u64,
    pub user_id: String,
    pub display_name: Option<String>,
    pub viewer: MultiplayerViewer,
}

impl RoomSocket {
    pub fn duplicate(&self) -> (r: RoomSocket)
        ensures
            r == *self,
    {
        RoomSocket {
            id: self.id,
            user_id: self.user_id.clone(),
            display_name: clone_opt_string(&self.display_name),
            viewer: self.viewer,
        }
    }
}

/// A copy of a chat history.
pub fn copy_history(v: &Vec<MultiplayerChatMessage>) -> (r: Vec<MultiplayerChatMessage>)
    ensures
        r@ == v@,
{
    let mut out: Vec<MultiplayerChatMessage> = Vec::new();
    let mut i: usize = 0;
    while i < v.len()
        invariant
            i <= v@.len(),
            out@ == v@.subrange(0, i as int),
        decreases v.len() - i,
    {
        let m = &v[i];
        out.push(
            MultiplayerChatMessage {
                id: m.id,
                sent_at_ms: m.sent_at_ms,
                player: m.player,
                name: clone_opt_string(&m.name),
                text: m.text.clone(),
            },
        );
        i += 1;
        assert(out@ =~= v@.subrange(0, i as int));
    }
    assert(v@.subrange(0, v@.len() as int) =~= v@);
    out
}

/// Everything an in-memory room decides with, apart from its game.
pub struct RoomState {
    pub code: String,
    pub room_id: u64,
    pub seats: [Option<SeatOwner>; 2],
    pub sockets: Vec<RoomSocket>,
    pub chat_messages: Vec<MultiplayerChatMessage>,
    pub clock: RoomClock,
    pub outcome: Option<RoomOutcome>,
    pub clock_generation: u64,
    pub next_socket_id: u64,
    pub next_chat_id: u64,
    pub last_activity_ms: u64,
    pub is_public: bool,
    pub time_minutes: Option<u32>,
    pub increment_seconds: Option<u32>,
    pub managed_bot_slot: Option<ManagedBotLobbySlot>,
    pub managed_bot_player: Option<usize>,
    pub managed_human_ever_joined: bool,
    pub replay_saved: bool,
    pub next_replay_counter: u64,
}

/// Whether a seat is held by the user `uid`.
pub open spec fn held_by(seat: Option<SeatOwner>, uid: Seq<char>) -> bool {
    seat matches Some(owner) && owner.user_id@ == uid
}

/// The first seat held by `uid`.
pub open spec fn seat_of(seats: [Option<SeatOwner>; 2], uid: Seq<char>) -> Option<usize> {
    if held_by(seats[0], uid) {
        Some(0)
    } else if held_by(seats[1], uid) {
        Some(1)
    } else {
        None
    }
}

/// The two seats are not held by the same user.
pub open spec fn distinct_seats(seats: [Option<SeatOwner>; 2]) -> bool {
    !(seats[0] matches Some(a) && seats[1] matches Some(b) && a.user_id@ == b.user_id@)
}

/// Sockets of users other than `uid`.
pub open spec fn sockets_without_user(s: Seq<RoomSocket>, uid: Seq<char>) -> Seq<RoomSocket> {
    s.filter(not_user(uid))
}

pub open spec fn not_user(uid: Seq<char>) -> spec_fn(RoomSocket) -> bool {
    |s: RoomSocket| s.user_id@ != uid
}

/// After a socket of `uid` is registered, it is the only socket of `uid`
/// in the room: registering replaces the user's earlier sockets.
pub proof fn lemma_one_socket_per_user(sockets: Seq<RoomSocket>, added: RoomSocket, uid: Seq<char>)
    requires
        added.user_id@ == uid,
    ensures
        ({
            let after = sockets_without_user(sockets, uid).push(added);
            forall|i: int|
                0 <= i < after.len() && (#[trigger] after[i]).user_id@ == uid ==> i == after.len() - 1
        }),
{
    let kept = sockets_without_user(sockets, uid);
    let after = kept.push(added);
    assert forall|i: int| 0 <= i < after.len() && (#[trigger] after[i]).user_id@ == uid implies i
        == after.len() - 1 by {
        if i < kept.len() {
            assert(after[i] == kept[i]);
            sockets.filter_lemma(not_user(uid));
            assert(not_user(uid)(kept[i]));
        }
    }
}

/// Whether a seat counts as connected: a managed bot always does; a human
/// when one of their sockets watches from that seat.
pub open spec fn seat_connected(seats: [Option<SeatOwner>; 2], sockets: Seq<RoomSocket>, player: usize) -> bool {
    seats[player as int] matches Some(owner) && (owner.kind == SeatOwnerKind::ManagedBot || exists|
        i: int,
    |
        0 <= i < sockets.len() && (#[trigger] sockets[i]).user_id@ == owner.user_id@
            && sockets[i].viewer == MultiplayerViewer::Player(player))
}

pub open spec fn count_true(a: bool, b: bool) -> nat {
    (if a {
        1nat
    } else {
        0nat
    }) + (if b {
        1nat
    } else {
        0nat
    })
}

/// How many sockets watch as spectators among the first `n`.
pub open spec fn spectator_count(s: Seq<RoomSocket>, n: int) -> nat
    decreases n,
{
    if n <= 0 {
        0
    } else {
        spectator_count(s, n - 1) + if s[n - 1].viewer == MultiplayerViewer::Spectator {
            1nat
        } else {
            0nat
        }
    }
}

/// The spectator entries of a room: one per socket watching as a
/// spectator, in order, marked when it is the viewer's own socket.
pub open spec fn spectator_entries(sockets: Seq<RoomSocket>, local: Option<u64>) -> Seq<MultiplayerSpectator>
    decreases sockets.len(),
{
    if sockets.len() == 0 {
        Seq::empty()
    } else {
        let rest = spectator_entries(sockets.drop_last(), local);
        let s = sockets.last();
        if s.viewer == MultiplayerViewer::Spectator {
            rest.push(MultiplayerSpectator { you: local == Some(s.id), name: s.display_name })
        } else {
            rest
        }
    }
}

/// What a room tells one viewer about itself.
pub struct RoomView {
    pub code: String,
    pub status: &'static str,
    pub viewer_role: &'static str,
    pub local_player: Option<u8>,
    pub players: Vec<MultiplayerPlayer>,
    pub spectators: Vec<MultiplayerSpectator>,
    pub time_minutes: Option<u32>,
    pub increment_seconds: Option<u32>,
    pub winner: Option<u8>,
    pub finish_reason: Option<String>,
    pub replay_share_slug: Option<String>,
}

impl RoomState {
    pub open spec fn wf(&self) -> bool {
        &&& self.clock.wf()
        &&& self.managed_bot_player matches Some(p) ==> p < 2
        &&& self.outcome matches Some(o) ==> (o.winner matches Some(w) ==> w < 2)
    }

    /// A new room with its creator in seat `creator_player`.
    pub fn new(
        code: String,
        room_id: u64,
        creator: SeatOwner,
        creator_player: usize,
        is_public: bool,
        time_minutes: Option<u32>,
        increment_seconds: Option<u32>,
        now_ms: u64,
    ) -> (r: Self)
        requires
            creator_player < 2,
        ensures
            r.wf(),
            r.code == code,
            r.room_id == room_id,
            r.seats[creator_player as int] == Some(creator),
            r.seats[1 - creator_player] is None,
            r.sockets@.len() == 0,
            r.chat_messages@.len() == 0,
            r.clock.view() == (ClockView {
                remaining: crate::clock::initial_remaining(time_minutes),
                active_player: None,
                active_since_ms: None,
                started: false,
                winner: None,
            }),
            r.outcome is None,
            r.clock_generation == 0,
            r.next_socket_id == 1,
            r.next_chat_id == 1,
            r.last_activity_ms == now_ms,
            r.is_public == is_public,
            r.time_minutes == time_minutes,
            r.increment_seconds == increment_seconds,
            r.managed_bot_slot is None,
            r.managed_bot_player is None,
            !r.managed_human_ever_joined,
            !r.replay_saved,
            r.next_replay_counter == 1,
    {
        let mut seats: [Option<SeatOwner>; 2] = [None, None];
        seats[creator_player] = Some(creator);
        RoomState {
            code,
            room_id,
            seats,
            sockets: Vec::new(),
            chat_messages: Vec::new(),
            clock: RoomClock::new(time_minutes),
            outcome: None,
            clock_generation: 0,
            next_socket_id: 1,
            next_chat_id: 1,
            last_activity_ms: now_ms,
            is_public,
            time_minutes,
            increment_seconds,
            managed_bot_slot: None,
            managed_bot_player: None,
            managed_human_ever_joined: false,
            replay_saved: false,
            next_replay_counter: 1,
        }
    }

    /// A public lobby room of a managed-bot slot, with the bot seated as
    /// `bot_player` and the slot's time control.
    pub fn new_managed_bot(
        code: String,
        room_id: u64,
        slot: ManagedBotLobbySlot,
        bot_player: usize,
        now_ms: u64,
    ) -> (r: Self)
        requires
            bot_player < 2,
        ensures
            r.wf(),
            r.code == code,
            r.room_id == room_id,
            r.seats[bot_player as int] matches Some(b) && b.kind == SeatOwnerKind::ManagedBot,
            r.seats[1 - bot_player] is None,
            r.is_public,
            r.time_minutes == Some(slot.spec_time_control().0),
            r.increment_seconds == Some(slot.spec_time_control().1),
            r.managed_bot_slot == Some(slot),
            r.managed_bot_player == Some(bot_player),
            r.outcome is None,
            r.clock.winner is None,
            r.sockets@.len() == 0,
            r.last_activity_ms == now_ms,
            !r.managed_human_ever_joined,
    {
        let (time_minutes, increment_seconds) = slot.time_control();
        let bot = SeatOwner::managed_bot(slot, code.as_str());
        let mut room = RoomState::new(
            code,
            room_id,
            bot,
            bot_player,
            true,
            Some(time_minutes),
            Some(increment_seconds),
            now_ms,
        );
        room.managed_bot_slot = Some(slot);
        room.managed_bot_player = Some(bot_player);
        room
    }

    pub fn seat_for_user(&self, user_id: &str) -> (r: Option<usize>)
        ensures
            r == seat_of(self.seats, user_id@),
    {
        let mut i: usize = 0;
        while i < 2
            invariant
                i <= 2,
                forall|j: int| 0 <= j < i ==> !held_by(self.seats[j], user_id@),
            decreases 2 - i,
        {
            match &self.seats[i] {
                Some(seat) => {
                    if str_eq(seat.user_id.as_str(), user_id) {
                        return Some(i);
                    }
                },
                None => {},
            }
            i += 1;
        }
        None
    }

    pub fn is_full(&self) -> (r: bool)
        ensures
            r == (self.seats[0] is Some && self.seats[1] is Some),
    {
        self.seats[0].is_some() && self.seats[1].is_some()
    }

    /// Seats `owner`: a user already seated keeps their seat (taking the new
    /// display name when one is given); otherwise the first free seat is
    /// taken; otherwise the owner watches as a spectator and nothing
    /// changes.
    pub fn assign_or_find_viewer(&mut self, owner: SeatOwner, now_ms: u64) -> (r: MultiplayerViewer)
        requires
            old(self).wf(),
        ensures
            final(self).wf(),
            seat_of(old(self).seats, owner.user_id@) matches Some(p) ==> {
                &&& r == MultiplayerViewer::Player(p)
                &&& final(self).seats[1 - p] == old(self).seats[1 - p]
                &&& final(self).seats[p as int] == (if owner.display_name is Some {
                    Some(owner)
                } else {
                    old(self).seats[p as int]
                })
                &&& final(self).last_activity_ms == (if owner.display_name is Some {
                    now_ms
                } else {
                    old(self).last_activity_ms
                })
                &&& final(self).managed_human_ever_joined == old(self).managed_human_ever_joined
            },
            seat_of(old(self).seats, owner.user_id@) is None && old(self).seats[0] is None ==> {
                &&& r == MultiplayerViewer::Player(0)
                &&& final(self).seats[0] == Some(owner)
                &&& final(self).seats[1] == old(self).seats[1]
                &&& final(self).last_activity_ms == now_ms
            },
            seat_of(old(self).seats, owner.user_id@) is None && old(self).seats[0] is Some
                && old(self).seats[1] is None ==> {
                &&& r == MultiplayerViewer::Player(1)
                &&& final(self).seats[1] == Some(owner)
                &&& final(self).seats[0] == old(self).seats[0]
                &&& final(self).last_activity_ms == now_ms
            },
            seat_of(old(self).seats, owner.user_id@) is None && old(self).seats[0] is Some
                && old(self).seats[1] is Some ==> r == MultiplayerViewer::Spectator && *final(self)
                == *old(self),
            seat_of(old(self).seats, owner.user_id@) is None && (old(self).seats[0] is None
                || old(self).seats[1] is None) ==> final(self).managed_human_ever_joined == (old(
                self).managed_human_ever_joined || (old(self).managed_bot_slot is Some
                && owner.kind != SeatOwnerKind::ManagedBot)),
            r matches MultiplayerViewer::Player(p) ==> p < 2 && held_by(
                final(self).seats[p as int],
                owner.user_id@,
            ),
            distinct_seats(old(self).seats) ==> distinct_seats(final(self).seats),
            final(self).sockets == old(self).sockets,
            final(self).outcome == old(self).outcome,
            final(self).clock == old(self).clock,
            final(self).managed_bot_slot == old(self).managed_bot_slot,
            final(self).managed_bot_player == old(self).managed_bot_player,
            final(self).code == old(self).code,
            final(self).room_id == old(self).room_id,
            final(self).is_public == old(self).is_public,
            final(self).time_minutes == old(self).time_minutes,
            final(self).increment_seconds == old(self).increment_seconds,
            final(self).chat_messages == old(self).chat_messages,
    {
        match self.seat_for_user(owner.user_id.as_str()) {
            Some(player) => {
                if owner.display_name.is_some() {
                    self.seats[player] = Some(owner);
                    self.last_activity_ms = now_ms;
                }
                MultiplayerViewer::Player(player)
            },
            None => {
                let free = if self.seats[0].is_none() {
                    Some(0usize)
                } else if self.seats[1].is_none() {
                    Some(1usize)
                } else {
                    None
                };
                match free {
                    Some(player) => {
                        if self.managed_bot_slot.is_some() && !owner.is_managed_bot() {
                            self.managed_human_ever_joined = true;
                        }
                        self.seats[player] = Some(owner);
                        self.last_activity_ms = now_ms;
                        MultiplayerViewer::Player(player)
                    },
                    None => MultiplayerViewer::Spectator,
                }
            },
        }
    }

    /// Registers a socket watching as `viewer`, replacing any earlier
    /// socket of the same user. A player socket must belong to the user
    /// seated there.
    pub fn register_socket(
        &mut self,
        user_id: &str,
        display_name: Option<&str>,
        viewer: MultiplayerViewer,
        now_ms: u64,
    ) -> (r: Result<u64, String>)
        requires
            old(self).wf(),
        ensures
            final(self).managed_bot_slot == old(self).managed_bot_slot,
            final(self).code == old(self).code,
            final(self).room_id == old(self).room_id,
            final(self).wf(),
            viewer matches MultiplayerViewer::Player(p) && seat_of(old(self).seats, user_id@) != Some(
                p,
            ) ==> (r matches Err(m) && m@ == "You are not seated in this room"@ && *final(self)
                == *old(self)),
            r matches Ok(id) ==> {
                &&& id == old(self).next_socket_id
                &&& final(self).next_socket_id == (if id == u64::MAX {
                    0
                } else {
                    (id + 1) as u64
                })
                &&& final(self).sockets@ == sockets_without_user(old(self).sockets@, user_id@).push(
                    final(self).sockets@.last(),
                )
                &&& final(self).sockets@.last().id == id
                &&& final(self).sockets@.last().user_id@ == user_id@
                &&& crate::identity::opt_string_view(final(self).sockets@.last().display_name)
                    == crate::identity::opt_str_view(display_name)
                &&& final(self).sockets@.last().viewer == viewer
                &&& final(self).last_activity_ms == (if viewer is Player {
                    now_ms
                } else {
                    old(self).last_activity_ms
                })
                &&& final(self).seats == old(self).seats
                &&& final(self).outcome == old(self).outcome
                &&& final(self).clock == old(self).clock
                &&& *final(self) == (RoomState {
                    sockets: final(self).sockets,
                    next_socket_id: final(self).next_socket_id,
                    last_activity_ms: final(self).last_activity_ms,
                    ..*old(self)
                })
            },
            r is Err ==> *final(self) == *old(self),
            (viewer is Spectator || seat_of(old(self).seats, user_id@) == Some(viewer->0)) ==> r is Ok,
    {
        if let MultiplayerViewer::Player(player) = viewer {
            if self.seat_for_user(user_id) != Some(player) {
                return Err("You are not seated in this room".to_string());
            }
        }
        let id = self.next_socket_id;
        self.next_socket_id = id.wrapping_add(1);
        let mut kept: Vec<RoomSocket> = Vec::new();
        let mut i: usize = 0;
        let ghost old_sockets = self.sockets@;
        while i < self.sockets.len()
            invariant
                i <= self.sockets@.len(),
                self.sockets@ == old_sockets,
                kept@ == old_sockets.subrange(0, i as int).filter(not_user(user_id@)),
            decreases self.sockets.len() - i,
        {
            let s = self.sockets[i].duplicate();
            proof {
                let pre = old_sockets.subrange(0, i as int);
                assert(old_sockets.subrange(0, i + 1) =~= pre.push(old_sockets[i as int]));
                pre.lemma_filter_push(old_sockets[i as int], not_user(user_id@));
            }
            if !str_eq(s.user_id.as_str(), user_id) {
                kept.push(s);
            }
            i += 1;
        }
        assert(old_sockets.subrange(0, old_sockets.len() as int) =~= old_sockets);
        kept.push(
            RoomSocket {
                id,
                user_id: user_id.to_string(),
                display_name: match display_name {
                    Some(n) => Some(n.to_string()),
                    None => None,
                },
                viewer,
            },
        );
        self.sockets = kept;
        if viewer.player().is_some() {
            self.last_activity_ms = now_ms;
        }
        Ok(id)
    }

    /// Unregisters a socket; returns how it watched, if it was registered.
    pub fn unregister_socket(&mut self, socket_id: u64, now_ms: u64) -> (r: Option<MultiplayerViewer>)
        requires
            old(self).wf(),
        ensures
            final(self).wf(),
            r is None ==> (forall|i: int|
                0 <= i < old(self).sockets@.len() ==> (#[trigger] old(self).sockets@[i]).id
                    != socket_id) && *final(self) == *old(self),
            r matches Some(v) ==> exists|i: int|
                0 <= i < old(self).sockets@.len() && (#[trigger] old(self).sockets@[i]).id
                    == socket_id && old(self).sockets@[i].viewer == v && final(self).sockets@
                    == old(self).sockets@.remove(i),
            r matches Some(v) ==> final(self).last_activity_ms == (if v is Player {
                now_ms
            } else {
                old(self).last_activity_ms
            }),
            final(self).seats == old(self).seats,
            final(self).outcome == old(self).outcome,
            final(self).clock == old(self).clock,
            final(self).code == old(self).code,
            final(self).room_id == old(self).room_id,
            final(self).managed_bot_slot == old(self).managed_bot_slot,
    {
        let mut i: usize = 0;
        while i < self.sockets.len()
            invariant
                i <= self.sockets@.len(),
                *self == *old(self),
                old(self).wf(),
                forall|j: int| 0 <= j < i ==> (#[trigger] self.sockets@[j]).id != socket_id,
            decreases self.sockets.len() - i,
        {
            if self.sockets[i].id == socket_id {
                let removed = self.sockets.remove(i);
                if removed.viewer.player().is_some() {
                    self.last_activity_ms = now_ms;
                }
                return Some(removed.viewer);
            }
            i += 1;
        }
        None
    }

    /// Whether a socket is registered.
    pub fn socket_registered(&self, socket_id: u64) -> (r: bool)
        ensures
            r == exists|i: int| 0 <= i < self.sockets@.len() && (#[trigger] self.sockets@[i]).id == socket_id,
    {
        let mut i: usize = 0;
        while i < self.sockets.len()
            invariant
                i <= self.sockets@.len(),
                forall|j: int| 0 <= j < i ==> (#[trigger] self.sockets@[j]).id != socket_id,
            decreases self.sockets.len() - i,
        {
            if self.sockets[i].id == socket_id {
                return true;
            }
            i += 1;
        }
        false
    }

    fn seat_is_connected(&self, player: usize) -> (r: bool)
        requires
            player < 2,
        ensures
            r == seat_connected(self.seats, self.sockets@, player),
    {
        let owner = match &self.seats[player] {
            Some(o) => o,
            None => return false,
        };
        if owner.is_managed_bot() {
            return true;
        }
        let mut i: usize = 0;
        while i < self.sockets.len()
            invariant
                i <= self.sockets@.len(),
                self.seats[player as int] == Some(*owner),
                owner.kind != SeatOwnerKind::ManagedBot,
                forall|j: int|
                    0 <= j < i ==> !((#[trigger] self.sockets@[j]).user_id@ == owner.user_id@
                        && self.sockets@[j].viewer == MultiplayerViewer::Player(player)),
            decreases self.sockets.len() - i,
        {
            let s = &self.sockets[i];
            if str_eq(s.user_id.as_str(), owner.user_id.as_str()) && s.viewer == MultiplayerViewer::Player(player) {
                return true;
            }
            i += 1;
        }
        false
    }

    /// How many seats are connected.
    pub fn connected_player_count(&self) -> (r: usize)
        ensures
            r == count_true(
                seat_connected(self.seats, self.sockets@, 0),
                seat_connected(self.seats, self.sockets@, 1),
            ),
    {
        let a: usize = if self.seat_is_connected(0) { 1 } else { 0 };
        let b: usize = if self.seat_is_connected(1) { 1 } else { 0 };
        a + b
    }

    fn spectator_total(&self) -> (r: usize)
        ensures
            r == spectator_count(self.sockets@, self.sockets@.len() as int),
            r <= self.sockets@.len(),
    {
        let mut n: usize = 0;
        let mut i: usize = 0;
        while i < self.sockets.len()
            invariant
                i <= self.sockets@.len(),
                n == spectator_count(self.sockets@, i as int),
                n <= i,
            decreases self.sockets.len() - i,
        {
            if self.sockets[i].viewer == MultiplayerViewer::Spectator {
                n = n + 1;
            }
            i += 1;
        }
        n
    }

    /// `e` is the room as the lobby lists it.
    pub open spec fn is_lobby_entry(&self, e: MultiplayerLobbyRoom) -> bool {
        &&& e.code == self.code
        &&& e.status@ == (if self.outcome is Some {
            "finished"@
        } else if self.seats[0] is Some && self.seats[1] is Some {
            "active"@
        } else {
            "waiting"@
        })
        &&& e.occupied as nat == count_true(self.seats[0] is Some, self.seats[1] is Some)
        &&& e.connected as nat == count_true(
            seat_connected(self.seats, self.sockets@, 0),
            seat_connected(self.seats, self.sockets@, 1),
        )
        &&& e.spectator_count == spectator_count(self.sockets@, self.sockets@.len() as int) as u8
        &&& e.is_public == self.is_public
        &&& e.time_minutes == self.time_minutes
        &&& e.increment_seconds == self.increment_seconds
        &&& e.last_activity_ms == self.last_activity_ms
        &&& e.empty_room_closes_at_ms is None
    }

    /// The room as the lobby lists it.
    pub fn lobby_entry(&self) -> (r: MultiplayerLobbyRoom)
        ensures
            self.is_lobby_entry(r),
            r.code == self.code,
            r.status@ == (if self.outcome is Some {
                "finished"@
            } else if self.seats[0] is Some && self.seats[1] is Some {
                "active"@
            } else {
                "waiting"@
            }),
            r.occupied as nat == count_true(self.seats[0] is Some, self.seats[1] is Some),
            r.connected as nat == count_true(
                seat_connected(self.seats, self.sockets@, 0),
                seat_connected(self.seats, self.sockets@, 1),
            ),
            r.spectator_count == spectator_count(self.sockets@, self.sockets@.len() as int) as u8,
            r.is_public == self.is_public,
            r.time_minutes == self.time_minutes,
            r.increment_seconds == self.increment_seconds,
            r.last_activity_ms == self.last_activity_ms,
            r.empty_room_closes_at_ms is None,
    {
        let occupied: u8 = (if self.seats[0].is_some() { 1u8 } else { 0u8 }) + (if self.seats[1].is_some() {
            1u8
        } else {
            0u8
        });
        let connected = self.connected_player_count() as u8;
        let spectators = self.spectator_total() as u8;
        assert(spectators == spectator_count(self.sockets@, self.sockets@.len() as int) as u8);
        let status = if self.outcome.is_some() {
            "finished"
        } else if occupied == 2 {
            "active"
        } else {
            "waiting"
        };
        MultiplayerLobbyRoom {
            code: self.code.clone(),
            status: status.to_string(),
            occupied,
            connected,
            spectator_count: spectators,
            is_public: self.is_public,
            time_minutes: self.time_minutes,
            increment_seconds: self.increment_seconds,
            last_activity_ms: self.last_activity_ms,
            empty_room_closes_at_ms: None,
        }
    }

    /// Whether a human holds a seat.
    pub fn has_human_player_occupant(&self) -> (r: bool)
        ensures
            r == ((self.seats[0] matches Some(a) && a.kind == SeatOwnerKind::Human) || (
            self.seats[1] matches Some(b) && b.kind == SeatOwnerKind::Human)),
    {
        let a = match &self.seats[0] {
            Some(s) => !s.is_managed_bot(),
            None => false,
        };
        let b = match &self.seats[1] {
            Some(s) => !s.is_managed_bot(),
            None => false,
        };
        a || b
    }

    /// In a managed-bot room, frees the seat of a human who left.
    pub fn vacate_human_player(&mut self, player: usize, now_ms: u64) -> (r: bool)
        requires
            old(self).wf(),
        ensures
            final(self).wf(),
            r == (old(self).managed_bot_slot is Some && player < 2 && (old(
                self).seats[player as int] matches Some(s) && s.kind == SeatOwnerKind::Human)),
            r ==> final(self).seats[player as int] is None && final(self).seats[1 - player]
                == old(self).seats[1 - player] && final(self).last_activity_ms == now_ms,
            !r ==> *final(self) == *old(self),
            final(self).code == old(self).code,
            final(self).room_id == old(self).room_id,
            final(self).managed_bot_slot == old(self).managed_bot_slot,
            final(self).sockets == old(self).sockets,
            final(self).outcome == old(self).outcome,
            final(self).clock == old(self).clock,
    {
        if self.managed_bot_slot.is_none() || player >= 2 {
            return false;
        }
        let human = match &self.seats[player] {
            Some(s) => !s.is_managed_bot(),
            None => false,
        };
        if !human {
            return false;
        }
        self.seats[player] = None;
        self.last_activity_ms = now_ms;
        true
    }

    /// Whether the game has ended: by an outcome or on the clock.
    pub fn is_finished(&self) -> (r: bool)
        ensures
            r == (self.outcome is Some || self.clock.winner is Some),
    {
        self.outcome.is_some() || self.clock.winner.is_some()
    }

    /// The seat of the managed bot when it should start a move: the room
    /// has a bot seat, both seats are taken and the game is not decided,
    /// and the bot is `to_move`.
    pub fn managed_bot_move_due(&self, to_move: usize) -> (r: Option<usize>)
        ensures
            r == (if self.managed_bot_player == Some(to_move) && self.seats[0] is Some
                && self.seats[1] is Some && !(self.outcome is Some || self.clock.winner is Some) {
                Some(to_move)
            } else {
                None::<usize>
            }),
    {
        match self.managed_bot_player {
            Some(bot) => if bot == to_move && self.is_full() && !self.is_finished() {
                Some(bot)
            } else {
                None
            },
            None => None,
        }
    }

    /// Whether the managed bot moves again right after its move: the game
    /// goes on, the bot is to move next and both seats are still taken.
    pub fn managed_bot_moves_again(&self, game_over: bool, next_player: usize) -> (r: bool)
        ensures
            r == (!game_over && self.managed_bot_player == Some(next_player) && self.seats[0] is Some
                && self.seats[1] is Some),
    {
        !game_over && self.managed_bot_player == Some(next_player) && self.is_full()
    }

    /// A managed-bot lobby room is replaced once its game is decided, or
    /// once no human holds a seat and either a human has been and gone or
    /// it has stood idle for the refresh period.
    pub open spec fn needs_managed_refresh(&self, now_ms: u64) -> bool {
        self.managed_bot_slot is Some && ((self.outcome is Some || self.clock.winner is Some) || (!((
        self.seats[0] matches Some(a) && a.kind == SeatOwnerKind::Human) || (self.seats[1] matches Some(
            b,
        ) && b.kind == SeatOwnerKind::Human)) && (self.managed_human_ever_joined || (if now_ms
            > self.last_activity_ms {
            now_ms - self.last_activity_ms
        } else {
            0
        }) >= crate::room::MANAGED_BOT_LOBBY_REFRESH_MS)))
    }

    /// A human at the table keeps a bot room: while a human holds a seat
    /// and the game is undecided the room is not replaced, however long it
    /// stood; a decided game's bot room always is; a room that stands for
    /// no slot never is.
    pub proof fn lemma_humans_keep_bot_rooms(&self, now_ms: u64)
        ensures
            self.managed_bot_slot is None ==> !self.needs_managed_refresh(now_ms),
            self.outcome is None && self.clock.winner is None && ((self.seats[0] matches Some(a) && a.kind
                == SeatOwnerKind::Human) || (self.seats[1] matches Some(b) && b.kind == SeatOwnerKind::Human))
                ==> !self.needs_managed_refresh(now_ms),
            self.managed_bot_slot is Some && (self.outcome is Some || self.clock.winner is Some)
                ==> self.needs_managed_refresh(now_ms),
    {
    }

    /// A room just opened for a managed-bot slot at `now_ms`: public, with
    /// the slot's time control, the bot in one seat and the other free, no
    /// sockets and no outcome.
    pub open spec fn is_fresh_managed_room(&self, now_ms: u64) -> bool {
        &&& self.managed_bot_slot matches Some(slot) && self.time_minutes == Some(
            slot.spec_time_control().0,
        ) && self.increment_seconds == Some(slot.spec_time_control().1)
        &&& self.managed_bot_player matches Some(p) && p < 2 && (self.seats[p as int] matches Some(b)
            && b.kind == SeatOwnerKind::ManagedBot) && self.seats[1 - p] is None
        &&& self.is_public
        &&& self.outcome is None
        &&& self.clock.winner is None
        &&& self.sockets@.len() == 0
        &&& self.last_activity_ms == now_ms
        &&& !self.managed_human_ever_joined
    }

    /// Whether a managed-bot lobby room should be replaced by a fresh one.
    pub fn should_refresh_managed_bot(&self, now_ms: u64) -> (r: bool)
        ensures
            r == self.needs_managed_refresh(now_ms),
    {
        managed_bot_should_refresh(
            self.managed_bot_slot.is_some(),
            self.is_finished(),
            self.has_human_player_occupant(),
            self.managed_human_ever_joined,
            self.last_activity_ms,
            now_ms,
        )
    }

    /// Records how the game ended, once: later calls change nothing and
    /// return false. The clock stops with the same winner.
    pub fn mark_finished(&mut self, winner: Option<usize>, reason: &str, now_ms: u64) -> (r: bool)
        requires
            old(self).wf(),
            winner matches Some(w) ==> w < 2,
        ensures
            final(self).managed_bot_slot == old(self).managed_bot_slot,
            final(self).code == old(self).code,
            final(self).room_id == old(self).room_id,
            final(self).wf(),
            r == old(self).outcome is None,
            !r ==> *final(self) == *old(self),
            r ==> (final(self).outcome matches Some(o) && o.winner == winner && o.reason@ == reason@
                && o.replay_share_slug is None),
            r ==> final(self).clock.view() == (ClockView {
                winner,
                active_player: None,
                active_since_ms: None,
                ..old(self).clock.view()
            }),
            r ==> final(self).clock_generation == (if old(self).clock_generation == u64::MAX {
                0
            } else {
                old(self).clock_generation + 1
            }),
            r ==> final(self).last_activity_ms == now_ms,
            final(self).seats == old(self).seats,
            final(self).sockets == old(self).sockets,
            *final(self) == (RoomState {
                clock: final(self).clock,
                outcome: final(self).outcome,
                clock_generation: final(self).clock_generation,
                last_activity_ms: final(self).last_activity_ms,
                ..*old(self)
            }),
    {
        if self.outcome.is_some() {
            return false;
        }
        self.outcome = Some(
            RoomOutcome { winner, reason: reason.to_string(), replay_share_slug: None },
        );
        self.clock.finish(winner);
        self.clock_generation = self.clock_generation.wrapping_add(1);
        self.last_activity_ms = now_ms;
        true
    }

    /// Records the share slug of the saved replay, once.
    pub fn set_replay_share_slug(&mut self, slug: String)
        ensures
            final(self).managed_bot_slot == old(self).managed_bot_slot,
            final(self).code == old(self).code,
            final(self).room_id == old(self).room_id,
            old(self).outcome matches Some(o) ==> (o.replay_share_slug is None ==> final(
                self).outcome == Some(RoomOutcome { replay_share_slug: Some(slug), ..o })),
            !(old(self).outcome matches Some(o) && o.replay_share_slug is None) ==> *final(self)
                == *old(self),
            final(self).seats == old(self).seats,
            final(self).clock == old(self).clock,
    {
        let update = match &self.outcome {
            Some(o) => o.replay_share_slug.is_none(),
            None => false,
        };
        if update {
            let o = self.outcome.take().unwrap();
            self.outcome = Some(RoomOutcome { replay_share_slug: Some(slug), ..o });
        }
    }

    fn note_clock_change(&mut self, now_ms: u64)
        ensures
            final(self).clock_generation == (if old(self).clock_generation == u64::MAX {
                0
            } else {
                old(self).clock_generation + 1
            }),
            final(self).last_activity_ms == now_ms,
            *final(self) == (RoomState {
                clock_generation: final(self).clock_generation,
                last_activity_ms: now_ms,
                ..*old(self)
            }),
    {
        self.clock_generation = self.clock_generation.wrapping_add(1);
        self.last_activity_ms = now_ms;
    }

    /// The clock as the room shows it now: the running seat is charged
    /// first, and a seat that ran out of time loses the game.
    pub fn clock_snapshot(&mut self, now_ms: u64) -> (s: RoomClockSnapshot)
        requires
            old(self).wf(),
        ensures
            final(self).managed_bot_slot == old(self).managed_bot_slot,
            final(self).code == old(self).code,
            final(self).room_id == old(self).room_id,
            final(self).wf(),
            final(self).clock.view().winner == refresh_view(old(self).clock.view(), now_ms).winner,
            s.winner == final(self).clock.winner,
            s.active_player == final(self).clock.active_player,
            s.time_millis[0] == (match final(self).clock.view().remaining {
                Some(t) => Some(t.0),
                None => None,
            }),
            s.time_millis[1] == (match final(self).clock.view().remaining {
                Some(t) => Some(t.1),
                None => None,
            }),
            refresh_view(old(self).clock.view(), now_ms) == old(self).clock.view() ==> *final(self)
                == (RoomState { clock: final(self).clock, ..*old(self) }) && final(self).clock.view()
                == old(self).clock.view(),
            refresh_view(old(self).clock.view(), now_ms).winner is Some && old(
                self).clock.winner is None && old(self).outcome is None ==> (final(self).outcome matches Some(
                o,
            ) && o.winner == refresh_view(old(self).clock.view(), now_ms).winner && o.reason@ == "timeout"@),
            old(self).outcome is Some ==> final(self).outcome == old(self).outcome,
            final(self).outcome is Some ==> old(self).outcome is Some || refresh_view(
                old(self).clock.view(),
                now_ms,
            ).winner is Some,
            final(self).seats == old(self).seats,
            final(self).sockets == old(self).sockets,
            *final(self) == (RoomState {
                clock: final(self).clock,
                outcome: final(self).outcome,
                clock_generation: final(self).clock_generation,
                last_activity_ms: final(self).last_activity_ms,
                ..*old(self)
            }),
    {
        let changed = self.clock.refresh(now_ms);
        let snapshot = self.clock.snapshot();
        if changed && snapshot.winner.is_some() {
            self.note_clock_change(now_ms);
            self.mark_finished(snapshot.winner, "timeout", now_ms);
        }
        self.clock.snapshot()
    }

    /// Runs the clock on after `moved_player` moved: see
    /// `RoomClock::finish_turn`; the room's increment applies.
    pub fn finish_clock_turn(&mut self, moved_player: usize, next_player: usize, game_over: bool, now_ms: u64)
        requires
            old(self).wf(),
            moved_player < 2,
            next_player < 2,
        ensures
            final(self).managed_bot_slot == old(self).managed_bot_slot,
            final(self).code == old(self).code,
            final(self).room_id == old(self).room_id,
            final(self).wf(),
            final(self).clock.view() == finish_turn_view(
                old(self).clock.view(),
                now_ms,
                moved_player,
                next_player,
                game_over,
                old(self).increment_seconds,
            ),
            final(self).seats == old(self).seats,
            final(self).sockets == old(self).sockets,
            final(self).outcome == old(self).outcome,
    {
        let changed = self.clock.finish_turn(now_ms, moved_player, next_player, game_over, self.increment_seconds);
        if changed {
            self.note_clock_change(now_ms);
        }
    }

    /// Gives a seat more time; false when the game is decided, there is
    /// no clock, or the seat does not exist.
    pub fn add_clock_seconds(&mut self, player: usize, seconds: u32, now_ms: u64) -> (r: bool)
        requires
            old(self).wf(),
        ensures
            final(self).managed_bot_slot == old(self).managed_bot_slot,
            final(self).code == old(self).code,
            final(self).room_id == old(self).room_id,
            final(self).wf(),
            r == ({
                let v = refresh_view(old(self).clock.view(), now_ms);
                v.winner is None && v.remaining is Some && player < 2
            }),
            final(self).clock.view() == add_seconds_view(old(self).clock.view(), now_ms, player, seconds),
            final(self).seats == old(self).seats,
            final(self).sockets == old(self).sockets,
            final(self).outcome == old(self).outcome,
    {
        let change = self.clock.add_seconds(now_ms, player, seconds);
        if change.changed {
            self.note_clock_change(now_ms);
        }
        change.applied
    }

    /// Whether moves can be made in the room at `now_ms`: both seats must be
    /// taken, else the move is refused; once the game is decided (the
    /// clock is brought up to date first) the answer is `Ok(false)` and the
    /// mover is shown the room as it stands.
    pub fn game_in_progress(&mut self, now_ms: u64) -> (r: Result<bool, String>)
        requires
            old(self).wf(),
        ensures
            final(self).managed_bot_slot == old(self).managed_bot_slot,
            final(self).code == old(self).code,
            final(self).room_id == old(self).room_id,
            final(self).wf(),
            !(old(self).seats[0] is Some && old(self).seats[1] is Some) ==> (r matches Err(m) && m@
                == "Room is waiting for an opponent"@ && *final(self) == *old(self)),
            old(self).seats[0] is Some && old(self).seats[1] is Some ==> r == Ok::<bool, String>(
                !(old(self).outcome is Some || refresh_view(old(self).clock.view(), now_ms).winner
                    is Some),
            ),
            old(self).seats[0] is Some && old(self).seats[1] is Some ==> r == Ok::<bool, String>(
                !(final(self).outcome is Some || final(self).clock.winner is Some),
            ),
            final(self).seats == old(self).seats,
            final(self).sockets == old(self).sockets,
    {
        if !self.is_full() {
            return Err("Room is waiting for an opponent".to_string());
        }
        self.clock_snapshot(now_ms);
        Ok(!self.is_finished())
    }

    /// `player` resigns: the opponent wins by resignation, unless the game
    /// is already decided (the clock is brought up to date first). Refused
    /// while a seat is free.
    pub fn resign_game(&mut self, player: usize, now_ms: u64) -> (r: Result<(), String>)
        requires
            old(self).wf(),
            player < 2,
        ensures
            final(self).managed_bot_slot == old(self).managed_bot_slot,
            final(self).code == old(self).code,
            final(self).room_id == old(self).room_id,
            final(self).wf(),
            !(old(self).seats[0] is Some && old(self).seats[1] is Some) ==> (r matches Err(m) && m@
                == "Room is waiting for an opponent"@ && *final(self) == *old(self)),
            old(self).seats[0] is Some && old(self).seats[1] is Some ==> r is Ok,
            old(self).seats[0] is Some && old(self).seats[1] is Some ==> (final(self).outcome is Some
                || final(self).clock.winner is Some),
            old(self).outcome is Some ==> final(self).outcome == old(self).outcome,
            old(self).seats[0] is Some && old(self).seats[1] is Some && !(old(self).outcome is Some
                || refresh_view(old(self).clock.view(), now_ms).winner is Some) ==> (final(
                self).outcome matches Some(o) && o.winner == Some((1 - player) as usize) && o.reason@
                == "resignation"@ && o.replay_share_slug is None),
            old(self).outcome is None && old(self).clock.winner is None && refresh_view(
                old(self).clock.view(),
                now_ms,
            ).winner is Some && old(self).seats[0] is Some && old(self).seats[1] is Some ==> (final(
                self).outcome matches Some(o) && o.winner == refresh_view(
                old(self).clock.view(),
                now_ms,
            ).winner && o.reason@ == "timeout"@),
            final(self).seats == old(self).seats,
            final(self).sockets == old(self).sockets,
    {
        if !self.is_full() {
            return Err("Room is waiting for an opponent".to_string());
        }
        self.clock_snapshot(now_ms);
        if !self.is_finished() {
            self.mark_finished(Some(1 - player), "resignation", now_ms);
        }
        Ok(())
    }

    /// `player` gives the opponent fifteen seconds: `Ok(true)` when the
    /// time was added, `Ok(false)` when the game is already decided, and an
    /// error for a room without clocks.
    pub fn add_opponent_time(&mut self, player: usize, now_ms: u64) -> (r: Result<bool, String>)
        requires
            old(self).wf(),
            player < 2,
        ensures
            final(self).managed_bot_slot == old(self).managed_bot_slot,
            final(self).code == old(self).code,
            final(self).room_id == old(self).room_id,
            final(self).wf(),
            final(self).clock.view() == add_seconds_view(old(self).clock.view(), now_ms, (1 - player) as usize, 15),
            final(self).outcome == old(self).outcome,
            final(self).seats == old(self).seats,
            final(self).sockets == old(self).sockets,
            ({
                let v = refresh_view(old(self).clock.view(), now_ms);
                let added = v.winner is None && v.remaining is Some;
                if added {
                    r == Ok::<bool, String>(true)
                } else if old(self).outcome is Some || v.winner is Some {
                    r == Ok::<bool, String>(false)
                } else {
                    r matches Err(m) && m@ == "This room does not have clocks enabled"@
                }
            }),
    {
        if self.add_clock_seconds(1 - player, 15, now_ms) {
            return Ok(true);
        }
        if self.is_finished() {
            return Ok(false);
        }
        Err("This room does not have clocks enabled".to_string())
    }

    /// The clock generation and remaining time of the running seat, when a
    /// timeout can still come.
    pub fn clock_timeout_schedule(&mut self, now_ms: u64) -> (r: Option<(u64, u64)>)
        requires
            old(self).wf(),
        ensures
            final(self).managed_bot_slot == old(self).managed_bot_slot,
            final(self).code == old(self).code,
            final(self).room_id == old(self).room_id,
            final(self).wf(),
            r == (match final(self).clock.active_player {
                Some(p) => match final(self).clock.view().remaining {
                    Some(t) => {
                        let ms = crate::clock::pair_get(t, p as int);
                        if ms == 0 || final(self).clock.winner is Some {
                            None
                        } else {
                            Some((final(self).clock_generation, ms))
                        }
                    },
                    None => None,
                },
                None => None,
            }),
            final(self).seats == old(self).seats,
            final(self).sockets == old(self).sockets,
    {
        let snapshot = self.clock_snapshot(now_ms);
        match snapshot.timeout_remaining() {
            Some(ms) => Some((self.clock_generation, ms)),
            None => None,
        }
    }

    /// Ends the game on the clock when the timeout scheduled under
    /// `generation` is still current and the running seat has run out.
    pub fn mark_clock_timeout_if_current(&mut self, generation: u64, now_ms: u64) -> (timed_out: bool)
        requires
            old(self).wf(),
        ensures
            final(self).managed_bot_slot == old(self).managed_bot_slot,
            final(self).code == old(self).code,
            final(self).room_id == old(self).room_id,
            final(self).wf(),
            old(self).clock_generation != generation ==> !timed_out && *final(self) == *old(self),
            old(self).clock_generation == generation ==> timed_out == (old(self).clock.winner is None
                && refresh_view(old(self).clock.view(), now_ms).winner is Some),
            timed_out && old(self).outcome is None ==> (final(self).outcome matches Some(o) && o.reason@
                == "timeout"@ && o.winner == refresh_view(old(self).clock.view(), now_ms).winner),
            final(self).seats == old(self).seats,
            final(self).sockets == old(self).sockets,
    {
        if self.clock_generation != generation {
            return false;
        }
        let before = self.clock.winner;
        let changed = self.clock.refresh(now_ms);
        let timed_out = before.is_none() && self.clock.winner.is_some();
        let winner = self.clock.winner;
        if changed {
            self.note_clock_change(now_ms);
        }
        if timed_out {
            self.mark_finished(winner, "timeout", now_ms);
        }
        timed_out
    }

    fn player_entry(&self, snapshot: &RoomClockSnapshot, viewer: MultiplayerViewer, player: usize) -> (r:
        MultiplayerPlayer)
        requires
            player < 2,
        ensures
            r.occupied == self.seats[player as int] is Some,
            r.connected == seat_connected(self.seats, self.sockets@, player),
            r.you == (viewer == MultiplayerViewer::Player(player)),
            r.name == (match self.seats[player as int] {
                Some(o) => o.display_name,
                None => None,
            }),
            r.time_millis == snapshot.time_millis[player as int],
            r.clock_active == (snapshot.active_player == Some(player)),
    {
        MultiplayerPlayer {
            occupied: self.seats[player].is_some(),
            connected: self.seat_is_connected(player),
            you: viewer == MultiplayerViewer::Player(player),
            name: match &self.seats[player] {
                Some(o) => clone_opt_string(&o.display_name),
                None => None,
            },
            time_millis: snapshot.time_millis[player],
            clock_active: snapshot.active_player == Some(player),
        }
    }

    /// What the room tells a viewer: each seat with its occupant, clock
    /// and connection; the spectators (marking the viewer's own socket);
    /// the time control; and how the game ended, when it has. The clock is
    /// brought up to `now_ms` first.
    pub fn room_view(&mut self, viewer: MultiplayerViewer, local_socket_id: Option<u64>, now_ms: u64) -> (r:
        RoomView)
        requires
            old(self).wf(),
        ensures
            final(self).managed_bot_slot == old(self).managed_bot_slot,
            old(self).outcome is Some ==> final(self).outcome == old(self).outcome,
            old(self).clock.winner is Some ==> final(self).clock.winner == old(self).clock.winner,
            final(self).code == old(self).code,
            final(self).room_id == old(self).room_id,
            final(self).wf(),
            final(self).seats == old(self).seats,
            final(self).sockets == old(self).sockets,
            refresh_view(old(self).clock.view(), now_ms) == old(self).clock.view() ==> *final(self)
                == (RoomState { clock: final(self).clock, ..*old(self) }) && final(self).clock.view()
                == old(self).clock.view(),
            *final(self) == (RoomState {
                clock: final(self).clock,
                outcome: final(self).outcome,
                clock_generation: final(self).clock_generation,
                last_activity_ms: final(self).last_activity_ms,
                ..*old(self)
            }),
            r.code == final(self).code,
            r.status@ == (if final(self).outcome is Some || final(self).clock.winner is Some {
                "finished"@
            } else if final(self).seats[0] is Some && final(self).seats[1] is Some {
                "active"@
            } else {
                "waiting"@
            }),
            r.viewer_role@ == (match viewer {
                MultiplayerViewer::Player(_) => "player"@,
                MultiplayerViewer::Spectator => "spectator"@,
            }),
            r.local_player == (match viewer {
                MultiplayerViewer::Player(p) => Some(p as u8),
                MultiplayerViewer::Spectator => None,
            }),
            r.players@.len() == 2,
            forall|p: int|
                0 <= p < 2 ==> (#[trigger] r.players@[p]).occupied == final(self).seats[p] is Some
                    && r.players@[p].connected == seat_connected(
                    final(self).seats,
                    final(self).sockets@,
                    p as usize,
                ) && r.players@[p].you == (viewer == MultiplayerViewer::Player(p as usize))
                    && r.players@[p].clock_active == (final(self).clock.active_player == Some(
                    p as usize,
                )) && r.players@[p].name == (match final(self).seats[p] {
                    Some(o) => o.display_name,
                    None => None,
                }) && r.players@[p].time_millis == (match final(self).clock.view().remaining {
                    Some(t) => Some(if p == 0 { t.0 } else { t.1 }),
                    None => None,
                }),
            r.spectators@ == spectator_entries(final(self).sockets@, local_socket_id),
            r.time_minutes == final(self).time_minutes,
            r.increment_seconds == final(self).increment_seconds,
            r.winner == (match (match final(self).outcome {
                Some(o) => o.winner,
                None => None,
            }) {
                Some(w) => Some(w as u8),
                None => match final(self).clock.winner {
                    Some(w) => Some(w as u8),
                    None => None,
                },
            }),
            r.finish_reason == (match final(self).outcome {
                Some(o) => Some(o.reason),
                None => None,
            }),
            r.replay_share_slug == (match final(self).outcome {
                Some(o) => o.replay_share_slug,
                None => None,
            }),
    {
        let snapshot = self.clock_snapshot(now_ms);
        let mut players: Vec<MultiplayerPlayer> = Vec::new();
        players.push(self.player_entry(&snapshot, viewer, 0));
        players.push(self.player_entry(&snapshot, viewer, 1));
        let spectators = self.spectator_list(local_socket_id);
        let (winner_seat, finish_reason, replay_share_slug) = match &self.outcome {
            Some(o) => (o.winner, Some(o.reason.clone()), clone_opt_string(&o.replay_share_slug)),
            None => (None, None, None),
        };
        let winner_seat = match winner_seat {
            Some(w) => Some(w),
            None => self.clock.winner,
        };
        let status = if self.outcome.is_some() || self.clock.winner.is_some() {
            "finished"
        } else if self.seats[0].is_some() && self.seats[1].is_some() {
            "active"
        } else {
            "waiting"
        };
        RoomView {
            code: self.code.clone(),
            status,
            viewer_role: viewer.role_name(),
            local_player: match viewer.player() {
                Some(p) => Some(p as u8),
                None => None,
            },
            players,
            spectators,
            time_minutes: self.time_minutes,
            increment_seconds: self.increment_seconds,
            winner: match winner_seat {
                Some(w) => Some(w as u8),
                None => None,
            },
            finish_reason,
            replay_share_slug,
        }
    }

    fn spectator_list(&self, local_socket_id: Option<u64>) -> (r: Vec<MultiplayerSpectator>)
        ensures
            r@ == spectator_entries(self.sockets@, local_socket_id),
    {
        let mut out: Vec<MultiplayerSpectator> = Vec::new();
        let mut i: usize = 0;
        while i < self.sockets.len()
            invariant
                i <= self.sockets@.len(),
                out@ == spectator_entries(self.sockets@.subrange(0, i as int), local_socket_id),
            decreases self.sockets.len() - i,
        {
            let s = &self.sockets[i];
            assert(self.sockets@.subrange(0, i + 1).drop_last() =~= self.sockets@.subrange(0, i as int));
            if s.viewer == MultiplayerViewer::Spectator {
                out.push(
                    MultiplayerSpectator {
                        you: local_socket_id == Some(s.id),
                        name: clone_opt_string(&s.display_name),
                    },
                );
            }
            i += 1;
        }
        assert(self.sockets@.subrange(0, self.sockets@.len() as int) =~= self.sockets@);
        out
    }

    /// The result a seat's replay is saved with: from the outcome after a
    /// resignation or a timeout, else `incomplete`.
    pub open spec fn seat_result(&self, player: usize) -> Seq<char> {
        match self.outcome {
            Some(o) => match spec_replay_result_for_room_outcome(o.winner, o.reason@, player) {
                Some(r) => r,
                None => "incomplete"@,
            },
            None => "incomplete"@,
        }
    }

    /// `ps` are the seated players in seat order, each with their account,
    /// display name and replay result.
    pub open spec fn are_replay_participants(&self, ps: Seq<ReplayParticipant>) -> bool {
        &&& ps.len() == count_true(self.seats[0] is Some, self.seats[1] is Some)
        &&& forall|k: int|
            0 <= k < ps.len() ==> {
                let p = (#[trigger] ps[k]).player;
                &&& p < 2
                &&& self.seats[p as int] matches Some(o) && ps[k].account_key == o.account_key
                    && ps[k].display_name == o.display_name
                &&& ps[k].result@ == self.seat_result(p)
            }
        &&& ps.len() == 2 ==> ps[0].player == 0 && ps[1].player == 1
        &&& ps.len() == 1 ==> ps[0].player == (if self.seats[0] is Some {
            0usize
        } else {
            1usize
        })
    }

    /// Claims the room's one replay save: the first call marks the replay
    /// as saved and hands out the counter to save it under with the seated
    /// participants; every later call gets `None` and changes nothing.
    pub fn claim_replay_save(&mut self) -> (r: Option<(u64, Vec<ReplayParticipant>)>)
        requires
            old(self).wf(),
        ensures
            final(self).wf(),
            final(self).replay_saved,
            old(self).replay_saved ==> r is None && *final(self) == *old(self),
            !old(self).replay_saved ==> (r matches Some((counter, ps)) && counter
                == old(self).next_replay_counter && old(self).are_replay_participants(ps@)),
            !old(self).replay_saved ==> *final(self) == (RoomState {
                replay_saved: true,
                next_replay_counter: if old(self).next_replay_counter == u64::MAX {
                    0
                } else {
                    (old(self).next_replay_counter + 1) as u64
                },
                ..*old(self)
            }),
    {
        if self.replay_saved {
            return None;
        }
        self.replay_saved = true;
        let counter = self.next_replay_counter;
        self.next_replay_counter = counter.wrapping_add(1);
        Some((counter, self.replay_participants()))
    }

    fn seat_participant(&self, player: usize) -> (r: Option<ReplayParticipant>)
        requires
            player < 2,
        ensures
            self.seats[player as int] is None ==> r is None,
            self.seats[player as int] matches Some(o) ==> (r matches Some(pt) && pt.player == player
                && pt.account_key == o.account_key && pt.display_name == o.display_name
                && pt.result@ == self.seat_result(player)),
    {
        let owner = match &self.seats[player] {
            Some(o) => o,
            None => return None,
        };
        let result = match &self.outcome {
            Some(o) => match replay_result_for_room_outcome(o, player) {
                Some(r) => r.to_string(),
                None => "incomplete".to_string(),
            },
            None => "incomplete".to_string(),
        };
        Some(
            ReplayParticipant {
                player,
                account_key: owner.account_key.clone(),
                display_name: clone_opt_string(&owner.display_name),
                result,
            },
        )
    }

    /// The seated players a finished game's replay is saved for, in seat
    /// order, each with their replay result.
    pub fn replay_participants(&self) -> (r: Vec<ReplayParticipant>)
        ensures
            self.are_replay_participants(r@),
    {
        let mut out: Vec<ReplayParticipant> = Vec::new();
        if let Some(p) = self.seat_participant(0) {
            out.push(p);
        }
        if let Some(p) = self.seat_participant(1) {
            out.push(p);
        }
        out
    }

    /// The display name of a seat's owner.
    pub fn player_chat_name(&self, player: usize) -> (r: Option<String>)
        ensures
            r == (if player < 2 && self.seats[player as int] is Some {
                self.seats[player as int].unwrap().display_name
            } else {
                None
            }),
    {
        if player >= 2 {
            return None;
        }
        match &self.seats[player] {
            Some(s) => clone_opt_string(&s.display_name),
            None => None,
        }
    }

    /// Adds a chat message from a seat and returns the history to send.
    /// Over many messages the history is the latest hundred of all of them,
    /// in order (`lemma_chat_history_keeps_latest`).
    pub fn push_chat(&mut self, player: usize, text: &str, now_ms: u64) -> (r: Result<
        Vec<MultiplayerChatMessage>,
        String,
    >)
        requires
            old(self).wf(),
            player < 2,
        ensures
            final(self).managed_bot_slot == old(self).managed_bot_slot,
            final(self).code == old(self).code,
            final(self).room_id == old(self).room_id,
            final(self).wf(),
            r matches Err(m) ==> *final(self) == *old(self) && crate::chat::spec_sanitize_chat_text(
                text@,
            ) is None && m@ == "Chat message cannot be empty"@,
            r matches Ok(history) ==> {
                &&& crate::chat::spec_sanitize_chat_text(text@) is Some
                &&& history@ == final(self).chat_messages@
                &&& final(self).chat_messages@.len() > 0
                &&& final(self).chat_messages@ == keep_latest(
                    old(self).chat_messages@.push(final(self).chat_messages@.last()),
                    MULTIPLAYER_CHAT_HISTORY_LIMIT as nat,
                )
                &&& final(self).chat_messages@.last().id == old(self).next_chat_id
                &&& final(self).chat_messages@.last().sent_at_ms == now_ms
                &&& final(self).chat_messages@.last().player == player as u8
                &&& final(self).chat_messages@.last().text@ == crate::chat::spec_sanitize_chat_text(
                    text@,
                ).unwrap()
                &&& final(self).next_chat_id == (if old(self).next_chat_id == u64::MAX {
                    0
                } else {
                    (old(self).next_chat_id + 1) as u64
                })
                &&& final(self).last_activity_ms == now_ms
            },
            final(self).seats == old(self).seats,
            final(self).sockets == old(self).sockets,
    {
        let text = match sanitize_multiplayer_chat_text(text) {
            Ok(t) => t,
            Err(e) => return Err(e),
        };
        let id = self.next_chat_id;
        self.next_chat_id = id.wrapping_add(1);
        let message = MultiplayerChatMessage {
            id,
            sent_at_ms: now_ms,
            player: player as u8,
            name: self.player_chat_name(player),
            text,
        };
        push_chat_message(&mut self.chat_messages, message);
        proof {
            crate::chat::lemma_chat_history_bounded(old(self).chat_messages@, message);
        }
        self.last_activity_ms = now_ms;
        Ok(copy_history(&self.chat_messages))
    }
}

/// A command of a seat: refused without a joined room, and refused to a
/// spectator; a player gets their seat.
pub open spec fn seat_gate(viewer: Option<MultiplayerViewer>, join: Seq<char>, spectator: Seq<char>) -> Result<
    Option<usize>,
    Seq<char>,
> {
    match viewer {
        None => Err(join),
        Some(MultiplayerViewer::Spectator) => Err(spectator),
        Some(MultiplayerViewer::Player(p)) => Ok(Some(p)),
    }
}

/// What a multiplayer message needs of the socket's place in a room before
/// it is carried out: `Ok` with the seat a player command acts for (`None`
/// for commands that need no seat), or the error text it is answered with.
pub open spec fn spec_command_gate(msg: ClientMsg, viewer: Option<MultiplayerViewer>) -> Result<
    Option<usize>,
    Seq<char>,
> {
    match msg {
        ClientMsg::ListMultiplayerRooms => Ok(None),
        ClientMsg::CreateMultiplayerRoom { .. } => Ok(None),
        ClientMsg::JoinMultiplayerRoom { .. } => Ok(None),
        ClientMsg::LeaveMultiplayerRoom => Ok(None),
        ClientMsg::GetMultiplayerRoom => if viewer is None {
            Err("Join a multiplayer room before refreshing it"@)
        } else {
            Ok(None)
        },
        ClientMsg::PlayMultiplayerAction { .. } => seat_gate(
            viewer,
            "Join a multiplayer room before playing"@,
            "Spectators cannot play multiplayer actions"@,
        ),
        ClientMsg::SendMultiplayerChat { .. } => seat_gate(
            viewer,
            "Join a multiplayer room before chatting"@,
            "Spectators cannot send multiplayer chat"@,
        ),
        ClientMsg::Undo => seat_gate(
            viewer,
            "Join a multiplayer room before using history controls"@,
            "Spectators cannot use multiplayer history controls"@,
        ),
        ClientMsg::Redo => seat_gate(
            viewer,
            "Join a multiplayer room before using history controls"@,
            "Spectators cannot use multiplayer history controls"@,
        ),
        ClientMsg::ResignMultiplayerGame => seat_gate(
            viewer,
            "Join a multiplayer room before resigning"@,
            "Spectators cannot resign multiplayer games"@,
        ),
        ClientMsg::AddMultiplayerOpponentTime => seat_gate(
            viewer,
            "Join a multiplayer room before adjusting clocks"@,
            "Spectators cannot adjust multiplayer clocks"@,
        ),
        _ => Err("Unsupported multiplayer message"@),
    }
}

/// A command never acts for a seat the socket does not hold: spectators
/// act for no seat, a player only for their own, and without a room only
/// listing, creating, joining and leaving pass.
pub proof fn lemma_commands_act_only_for_the_own_seat(msg: ClientMsg, player: usize)
    ensures
        spec_command_gate(msg, Some(MultiplayerViewer::Spectator)) matches Ok(seat) ==> seat is None,
        spec_command_gate(msg, Some(MultiplayerViewer::Player(player))) matches Ok(Some(seat)) ==> seat
            == player,
        spec_command_gate(msg, None) is Ok ==> (msg is ListMultiplayerRooms || msg is CreateMultiplayerRoom
            || msg is JoinMultiplayerRoom || msg is LeaveMultiplayerRoom),
{
}

fn seat_gate_exec(viewer: Option<MultiplayerViewer>, join: &str, spectator: &str) -> (r: Result<
    Option<usize>,
    String,
>)
    ensures
        r matches Ok(p) ==> seat_gate(viewer, join@, spectator@) == Ok::<Option<usize>, Seq<char>>(p),
        r matches Err(e) ==> seat_gate(viewer, join@, spectator@) == Err::<Option<usize>, Seq<char>>(
            e@,
        ),
{
    match viewer {
        None => Err(join.to_string()),
        Some(MultiplayerViewer::Spectator) => Err(spectator.to_string()),
        Some(MultiplayerViewer::Player(p)) => Ok(Some(p)),
    }
}

/// Checks a multiplayer message against the socket's place in a room
/// (`None` when it has joined none): see `spec_command_gate`.
pub fn multiplayer_command_gate(msg: &ClientMsg, viewer: Option<MultiplayerViewer>) -> (r: Result<
    Option<usize>,
    String,
>)
    ensures
        r matches Ok(p) ==> spec_command_gate(*msg, viewer) == Ok::<Option<usize>, Seq<char>>(p),
        r matches Err(e) ==> spec_command_gate(*msg, viewer) == Err::<Option<usize>, Seq<char>>(e@),
{
    match msg {
        ClientMsg::ListMultiplayerRooms => Ok(None),
        ClientMsg::CreateMultiplayerRoom { .. } => Ok(None),
        ClientMsg::JoinMultiplayerRoom { .. } => Ok(None),
        ClientMsg::LeaveMultiplayerRoom => Ok(None),
        ClientMsg::GetMultiplayerRoom => match viewer {
            None => Err("Join a multiplayer room before refreshing it".to_string()),
            Some(_) => Ok(None),
        },
        ClientMsg::PlayMultiplayerAction { .. } => seat_gate_exec(
            viewer,
            "Join a multiplayer room before playing",
            "Spectators cannot play multiplayer actions",
        ),
        ClientMsg::SendMultiplayerChat { .. } => seat_gate_exec(
            viewer,
            "Join a multiplayer room before chatting",
            "Spectators cannot send multiplayer chat",
        ),
        ClientMsg::Undo | ClientMsg::Redo => seat_gate_exec(
            viewer,
            "Join a multiplayer room before using history controls",
            "Spectators cannot use multiplayer history controls",
        ),
        ClientMsg::ResignMultiplayerGame => seat_gate_exec(
            viewer,
            "Join a multiplayer room before resigning",
            "Spectators cannot resign multiplayer games",
        ),
        ClientMsg::AddMultiplayerOpponentTime => seat_gate_exec(
            viewer,
            "Join a multiplayer room before adjusting clocks",
            "Spectators cannot adjust multiplayer clocks",
        ),
        _ => Err("Unsupported multiplayer message".to_string()),
    }
}

} // verus!
