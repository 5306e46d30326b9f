//! Multiplayer room state that is stored in a shared snapshot: seats,
//! connections, spectators, clock and outcome, with the rules for joining,
//! leaving, resigning and running out of time.

use vstd::prelude::*;
use crate::clock::{RedisRoomClock, shared_turn_view, tick_view, tick_times_out, ClockView};
use crate::text::{
    chars_of, extend_chars, extend_str, is_ascii_digit, is_ascii_digit_char, is_ascii_upper_char,
    str_eq, string_of, trim_str, trim, trim_end, trim_start, is_space_char, uppercase_ascii, uppercase_chars,
};
use crate::identity::redacted_account_key;
use crate::numtext::hex_fixed;

verus! {

// ── managed lobby slots ─────────────────────────────────────────────

/// The three always-open public rooms seated by the managed bot.
#[derive(Clone, Copy, Debug, PartialEq, Eq, Hash, Structural)]
pub enum ManagedBotLobbySlot {
    FiveThree,
    FifteenOne,
    ThirtyZero,
}

/// Lobby bot rooms are replaced after this long without a human seat.
pub const MANAGED_BOT_LOBBY_REFRESH_MS: u64 = 900_000;

impl ManagedBotLobbySlot {
    pub open spec fn spec_time_control(self) -> (u32, u32) {
        match self {
            ManagedBotLobbySlot::FiveThree => (5u32, 3u32),
            ManagedBotLobbySlot::FifteenOne => (15u32, 1u32),
            ManagedBotLobbySlot::ThirtyZero => (30u32, 0u32),
        }
    }

    /// Minutes and increment seconds of the slot's time control.
    pub fn time_control(self) -> (r: (u32, u32))
        ensures
            r == self.spec_time_control(),
    {
        match self {
            ManagedBotLobbySlot::FiveThree => (5, 3),
            ManagedBotLobbySlot::FifteenOne => (15, 1),
            ManagedBotLobbySlot::ThirtyZero => (30, 0),
        }
    }

    pub open spec fn spec_key(self) -> Seq<char> {
        match self {
            ManagedBotLobbySlot::FiveThree => "5+3"@,
            ManagedBotLobbySlot::FifteenOne => "15+1"@,
            ManagedBotLobbySlot::ThirtyZero => "30+0"@,
        }
    }

    /// The slot's time control as a short key.
    pub fn key(self) -> (r: &'static str)
        ensures
            r@ == self.spec_key(),
    {
        match self {
            ManagedBotLobbySlot::FiveThree => "5+3",
            ManagedBotLobbySlot::FifteenOne => "15+1",
            ManagedBotLobbySlot::ThirtyZero => "30+0",
        }
    }
}

/// The user id of the managed bot seated in room `code` of a slot.
pub fn managed_bot_user_id(slot: ManagedBotLobbySlot, code: &str) -> (r: String)
    ensures
        r@ == "managed-bot:"@ + slot.spec_key() + ":"@ + code@,
{
    let mut out = chars_of("managed-bot:");
    extend_str(&mut out, slot.key());
    extend_str(&mut out, ":");
    extend_str(&mut out, code);
    assert(out@ =~= "managed-bot:"@ + slot.spec_key() + ":"@ + code@);
    string_of(&out)
}

/// Whether a managed lobby room should be replaced by a fresh one: once
/// its game is over, or, while no human holds a seat, once a human has
/// played in it or it has been idle for fifteen minutes.
pub fn managed_bot_should_refresh(
    is_managed: bool,
    is_finished: bool,
    has_human_player: bool,
    human_ever_joined: bool,
    last_activity_ms: u64,
    now_ms: u64,
) -> (r: bool)
    ensures
        r == (is_managed && (is_finished || (!has_human_player && (human_ever_joined || (
        if now_ms > last_activity_ms {
            now_ms - last_activity_ms
        } else {
            0
        }) >= MANAGED_BOT_LOBBY_REFRESH_MS)))),
{
    if !is_managed {
        return false;
    }
    if is_finished {
        return true;
    }
    if has_human_player {
        return false;
    }
    human_ever_joined || now_ms.saturating_sub(last_activity_ms) >= MANAGED_BOT_LOBBY_REFRESH_MS
}

// ── in-memory seats ─────────────────────────────────────────────────

#[derive(Clone, Copy, Debug, PartialEq, Eq, Structural)]
pub enum SeatOwnerKind {
    Human,
    ManagedBot,
}

/// The owner of a seat in an in-memory room.
#[derive(Clone, Debug)]
pub struct SeatOwner {
    pub user_id: String,
    pub account_key: String,
    pub display_name: Option<String>,
    pub kind: SeatOwnerKind,
}

impl SeatOwner {
    /// A human seat owner; the account key is the redacted user id.
    pub fn human(user_id: &str, display_name: Option<&str>) -> (r: Self)
        ensures
            r.user_id@ == user_id@,
            r.account_key@ == crate::numtext::hex_fixed(
                crate::identity::user_id_hash(user_id@) as nat,
                16,
            ),
            crate::identity::opt_string_view(r.display_name) == crate::identity::opt_str_view(
                display_name,
            ),
            r.kind == SeatOwnerKind::Human,
    {
        SeatOwner {
            user_id: user_id.to_string(),
            account_key: redacted_account_key(user_id),
            display_name: match display_name {
                Some(n) => Some(n.to_string()),
                None => None,
            },
            kind: SeatOwnerKind::Human,
        }
    }

    /// The managed bot seated in room `code` of a lobby slot, under a
    /// random guest-like name.
    pub fn managed_bot(slot: ManagedBotLobbySlot, code: &str) -> (r: Self)
        ensures
            r.user_id@ == "managed-bot:"@ + slot.spec_key() + ":"@ + code@,
            r.account_key@ == crate::numtext::hex_fixed(
                crate::identity::user_id_hash(r.user_id@) as nat,
                16,
            ),
            r.display_name matches Some(n) && exists|k: u32| n@ == "User"@ + hex_fixed(k as nat, 8),
            r.kind == SeatOwnerKind::ManagedBot,
    {
        let user_id = managed_bot_user_id(slot, code);
        let account_key = redacted_account_key(user_id.as_str());
        SeatOwner {
            user_id,
            account_key,
            display_name: Some(crate::rng::managed_bot_display_name()),
            kind: SeatOwnerKind::ManagedBot,
        }
    }

    pub fn is_managed_bot(&self) -> (r: bool)
        ensures
            r == (self.kind == SeatOwnerKind::ManagedBot),
    {
        match self.kind {
            SeatOwnerKind::ManagedBot => true,
            SeatOwnerKind::Human => false,
        }
    }
}

/// How a socket takes part in a room.
#[derive(Clone, Copy, Debug, PartialEq, Eq, Structural)]
pub enum MultiplayerViewer {
    Player(usize),
    Spectator,
}

impl MultiplayerViewer {
    pub fn player(self) -> (r: Option<usize>)
        ensures
            r == (match self {
                MultiplayerViewer::Player(p) => Some(p),
                MultiplayerViewer::Spectator => None,
            }),
    {
        match self {
            MultiplayerViewer::Player(p) => Some(p),
            MultiplayerViewer::Spectator => None,
        }
    }

    pub fn role_name(self) -> (r: &'static str)
        ensures
            r@ == (match self {
                MultiplayerViewer::Player(_) => "player"@,
                MultiplayerViewer::Spectator => "spectator"@,
            }),
    {
        match self {
            MultiplayerViewer::Player(_) => "player",
            MultiplayerViewer::Spectator => "spectator",
        }
    }
}

/// How an in-memory room's game ended.
#[derive(Clone, Debug)]
pub struct RoomOutcome {
    pub winner: Option<usize>,
    pub reason: String,
    pub replay_share_slug: Option<String>,
}

/// The replay result of a seat after a resignation or a timeout; other
/// endings are judged from the final position.
pub open spec fn spec_replay_result_for_room_outcome(
    winner: Option<usize>,
    reason: Seq<char>,
    player: usize,
) -> Option<Seq<char>> {
    match winner {
        None => None,
        Some(w) => if reason == "resignation"@ {
            Some(if w == player { "won_by_resignation"@ } else { "lost_by_resignation"@ })
        } else if reason == "timeout"@ {
            Some(if w == player { "won_on_time"@ } else { "lost_on_time"@ })
        } else {
            None
        },
    }
}

/// A decided game's replays agree on who won: after a resignation or a
/// timeout the winner's seat is saved as won and the other seat as lost,
/// the same way; a game without a winner is judged from the position.
pub proof fn lemma_replay_results_agree_on_the_winner(winner: usize, reason: Seq<char>, player: usize)
    requires
        winner < 2,
    ensures
        reason == "resignation"@ ==> spec_replay_result_for_room_outcome(Some(winner), reason, winner) == Some(
            "won_by_resignation"@,
        ) && spec_replay_result_for_room_outcome(Some(winner), reason, (1 - winner) as usize) == Some(
            "lost_by_resignation"@,
        ),
        reason == "timeout"@ ==> spec_replay_result_for_room_outcome(Some(winner), reason, winner) == Some(
            "won_on_time"@,
        ) && spec_replay_result_for_room_outcome(Some(winner), reason, (1 - winner) as usize) == Some(
            "lost_on_time"@,
        ),
        spec_replay_result_for_room_outcome(None, reason, player) is None,
{
    reveal_strlit("timeout");
    reveal_strlit("resignation");
    if reason == "timeout"@ {
        assert(reason.len() != "resignation"@.len());
    }
}

pub fn replay_result_for_room_outcome(outcome: &RoomOutcome, player: usize) -> (r: Option<
    &'static str,
>)
    ensures
        crate::identity::opt_str_view(r) == spec_replay_result_for_room_outcome(
            outcome.winner,
            outcome.reason@,
            player,
        ),
{
    let winner = match outcome.winner {
        Some(w) => w,
        None => return None,
    };
    let won = winner == player;
    let reason = chars_of(outcome.reason.as_str());
    if crate::text::chars_eq_str(&reason, "resignation") {
        Some(if won { "won_by_resignation" } else { "lost_by_resignation" })
    } else if crate::text::chars_eq_str(&reason, "timeout") {
        Some(if won { "won_on_time" } else { "lost_on_time" })
    } else {
        None
    }
}

// ── room codes and time controls ────────────────────────────────────

/// Room codes are six ASCII capital letters or digits, given in any case
/// and with surrounding whitespace.
pub open spec fn spec_normalize_room_code(code: Seq<char>) -> Option<Seq<char>> {
    let c = uppercase_ascii(trim(code));
    if c.len() == 6 && forall|i: int|
        0 <= i < 6 ==> is_ascii_upper_char(#[trigger] c[i]) || is_ascii_digit_char(c[i]) {
        Some(c)
    } else {
        None
    }
}

/// A room code in its normal form: six capital letters or digits.
pub open spec fn is_room_code(c: Seq<char>) -> bool {
    c.len() == 6 && forall|i: int| 0 <= i < 6 ==> is_ascii_upper_char(#[trigger] c[i]) || is_ascii_digit_char(c[i])
}

/// A code in normal form normalizes to itself.
pub proof fn lemma_room_code_is_normal(c: Seq<char>)
    requires
        is_room_code(c),
    ensures
        spec_normalize_room_code(c) == Some(c),
{
    assert(!is_space_char(c[0]));
    assert(trim_start(c) == c);
    assert(!is_space_char(c[5]));
    assert(trim_end(c) == c);
    assert(uppercase_ascii(c) =~= c);
}

pub fn normalize_room_code(code: &str) -> (r: Result<String, String>)
    ensures
        r matches Ok(c) ==> spec_normalize_room_code(code@) == Some(c@),
        r matches Err(m) ==> spec_normalize_room_code(code@) is None && m@
            == "Room code must be 6 letters or numbers"@,
{
    let t = trim_str(code);
    let c = uppercase_chars(&t);
    if c.len() != 6 {
        return Err("Room code must be 6 letters or numbers".to_string());
    }
    let mut i: usize = 0;
    while i < 6
        invariant
            i <= 6,
            c.len() == 6,
            c@ == uppercase_ascii(trim(code@)),
            forall|j: int|
                0 <= j < i ==> is_ascii_upper_char(#[trigger] c@[j]) || is_ascii_digit_char(c@[j]),
        decreases 6 - i,
    {
        let ch = c[i];
        if !(('A' <= ch && ch <= 'Z') || is_ascii_digit(ch)) {
            return Err("Room code must be 6 letters or numbers".to_string());
        }
        i += 1;
    }
    Ok(string_of(&c))
}

/// Normalizing a valid room code gives it back.
pub proof fn lemma_room_code_normal_form(code: Seq<char>)
    requires
        spec_normalize_room_code(code) is Some,
    ensures
        spec_normalize_room_code(spec_normalize_room_code(code).unwrap()) == spec_normalize_room_code(
            code,
        ),
{
    let c = spec_normalize_room_code(code).unwrap();
    assert(c.len() == 6);
    assert(!crate::text::is_space_char(c[0]));
    assert(!crate::text::is_space_char(c.last()));
    crate::text::lemma_trim_no_edge_space(c);
    assert(uppercase_ascii(c) =~= c);
}

/// Room time controls are clamped to 1..=180 minutes.
pub fn normalize_room_time_minutes(value: Option<u32>) -> (r: Option<u32>)
    ensures
        r == (match value {
            Some(v) => Some(crate::budget::clamp(v, 1, 180)),
            None => None,
        }),
{
    match value {
        Some(v) => Some(
            if v < 1 {
                1
            } else if v > 180 {
                180
            } else {
                v
            },
        ),
        None => None,
    }
}

/// Room increments are clamped to 0..=120 seconds.
pub fn normalize_room_increment_seconds(value: Option<u32>) -> (r: Option<u32>)
    ensures
        r == (match value {
            Some(v) => Some(crate::budget::clamp(v, 0, 120)),
            None => None,
        }),
{
    match value {
        Some(v) => Some(
            if v > 120 {
                120
            } else {
                v
            },
        ),
        None => None,
    }
}

/// The owner of a seat in a shared room.
#[derive(Clone, Debug)]
pub struct RedisSeatOwner {
    pub user_id: String,
    pub account_key: String,
    pub display_name: Option<String>,
}

/// A connected spectator of a shared room.
#[derive(Clone, Debug)]
pub struct RedisSpectator {
    pub user_id: String,
    pub display_name: Option<String>,
    pub connection_id: String,
}

/// How a shared room's game ended.
#[derive(Clone, Debug)]
pub struct RedisRoomOutcome {
    pub winner: Option<usize>,
    pub reason: String,
    pub replay_share_slug: Option<String>,
}

/// The whole state of a shared multiplayer room.
#[derive(Clone, Debug)]
pub struct RedisRoomSnapshot {
    pub code: String,
    pub room_id: u64,
    pub version: u64,
    pub seats: [Option<RedisSeatOwner>; 2],
    pub active_connections: [Option<String>; 2],
    pub spectators: Vec<RedisSpectator>,
    pub initial_state: String,
    pub actions: Vec<usize>,
    pub clock: RedisRoomClock,
    pub outcome: Option<RedisRoomOutcome>,
    pub replay_saved: bool,
    pub next_replay_counter: u64,
    pub last_activity_ms: u64,
    pub is_public: bool,
    pub time_minutes: Option<u32>,
    pub increment_seconds: Option<u32>,
}

/// Whether a seat is held by the user `uid`.
pub open spec fn seat_held_by(seat: Option<RedisSeatOwner>, uid: Seq<char>) -> bool {
    seat matches Some(owner) && owner.user_id@ == uid
}

/// The first seat held by `uid`.
pub open spec fn seat_of_user(seats: [Option<RedisSeatOwner>; 2], uid: Seq<char>) -> Option<usize> {
    if seat_held_by(seats[0], uid) {
        Some(0)
    } else if seat_held_by(seats[1], uid) {
        Some(1)
    } else {
        None
    }
}

/// The two seats are not held by the same user.
pub open spec fn seats_distinct(seats: [Option<RedisSeatOwner>; 2]) -> bool {
    !(seats[0] matches Some(a) && seats[1] matches Some(b) && a.user_id@ == b.user_id@)
}

/// The first empty seat.
pub open spec fn first_free_seat(seats: [Option<RedisSeatOwner>; 2]) -> Option<usize> {
    if seats[0] is None {
        Some(0)
    } else if seats[1] is None {
        Some(1)
    } else {
        None
    }
}

/// Spectator entries that do not belong to `uid`.
pub open spec fn spectators_without_user(s: Seq<RedisSpectator>, uid: Seq<char>) -> Seq<
    RedisSpectator,
> {
    s.filter(not_of_user(uid))
}

pub open spec fn not_of_user(uid: Seq<char>) -> spec_fn(RedisSpectator) -> bool {
    |sp: RedisSpectator| sp.user_id@ != uid
}

pub open spec fn not_connection(cid: Seq<char>) -> spec_fn(RedisSpectator) -> bool {
    |sp: RedisSpectator| sp.connection_id@ != cid
}

/// Spectator entries other than the connection `cid`.
pub open spec fn spectators_without_connection(s: Seq<RedisSpectator>, cid: Seq<char>) -> Seq<
    RedisSpectator,
> {
    s.filter(not_connection(cid))
}

/// Index of the first spectator entry of `uid` among the first `n`.
pub open spec fn first_spectator_of(s: Seq<RedisSpectator>, uid: Seq<char>, n: int) -> Option<int>
    decreases n,
{
    if n <= 0 {
        None
    } else {
        match first_spectator_of(s, uid, n - 1) {
            Some(j) => Some(j),
            None => if s[n - 1].user_id@ == uid {
                Some(n - 1)
            } else {
                None
            },
        }
    }
}

pub fn clone_opt_string(o: &Option<String>) -> (r: Option<String>)
    ensures
        r == *o,
{
    match o {
        Some(s) => Some(s.clone()),
        None => None,
    }
}

impl RedisSeatOwner {
    /// A copy equal to `self`.
    pub fn duplicate(&self) -> (r: Self)
        ensures
            r == *self,
    {
        RedisSeatOwner {
            user_id: self.user_id.clone(),
            account_key: self.account_key.clone(),
            display_name: clone_opt_string(&self.display_name),
        }
    }
}

impl RedisSpectator {
    /// A copy equal to `self`.
    pub fn duplicate(&self) -> (r: Self)
        ensures
            r == *self,
    {
        RedisSpectator {
            user_id: self.user_id.clone(),
            display_name: clone_opt_string(&self.display_name),
            connection_id: self.connection_id.clone(),
        }
    }
}

impl RedisRoomSnapshot {
    pub open spec fn wf(&self) -> bool {
        self.clock.wf()
    }

    pub fn new(
        code: String,
        room_id: u64,
        initial_state: String,
        creator: RedisSeatOwner,
        creator_player: usize,
        is_public: bool,
        time_minutes: Option<u32>,
        increment_seconds: Option<u32>,
        now_ms: u64,
    ) -> (r: Self)
        requires
            creator_player < 2,
        ensures
            r.wf(),
            r.code == code,
            r.room_id == room_id,
            r.version == 1,
            r.seats[creator_player as int] == Some(creator),
            r.seats[1 - creator_player] is None,
            r.active_connections[0] is None,
            r.active_connections[1] is None,
            r.spectators@.len() == 0,
            r.initial_state == initial_state,
            r.actions@.len() == 0,
            r.clock.active_player is None,
            r.clock.winner is None,
            r.clock.view().remaining == crate::clock::initial_remaining(time_minutes),
            r.outcome is None,
            !r.replay_saved,
            r.next_replay_counter == 1,
            r.last_activity_ms == now_ms,
            r.is_public == is_public,
            r.time_minutes == time_minutes,
            r.increment_seconds == increment_seconds,
    {
        let mut seats: [Option<RedisSeatOwner>; 2] = [None, None];
        seats[creator_player] = Some(creator);
        RedisRoomSnapshot {
            code,
            room_id,
            version: 1,
            seats,
            active_connections: [None, None],
            spectators: Vec::new(),
            initial_state,
            actions: Vec::new(),
            clock: RedisRoomClock::new(time_minutes),
            outcome: None,
            replay_saved: false,
            next_replay_counter: 1,
            last_activity_ms: now_ms,
            is_public,
            time_minutes,
            increment_seconds,
        }
    }

    pub fn touch(&mut self, now_ms: u64)
        ensures
            *final(self) == (RedisRoomSnapshot { last_activity_ms: now_ms, ..*old(self) }),
    {
        self.last_activity_ms = now_ms;
    }

    pub fn is_full(&self) -> (r: bool)
        ensures
            r == (self.seats[0] is Some && self.seats[1] is Some),
    {
        self.seats[0].is_some() && self.seats[1].is_some()
    }

    pub fn is_finished(&self) -> (r: bool)
        ensures
            r == (self.outcome is Some || self.clock.winner is Some),
    {
        self.outcome.is_some() || self.clock.winner.is_some()
    }

    pub fn seat_for_user(&self, user_id: &str) -> (r: Option<usize>)
        ensures
            r == seat_of_user(self.seats, user_id@),
    {
        let mut i: usize = 0;
        while i < 2
            invariant
                i <= 2,
                forall|j: int| 0 <= j < i ==> !seat_held_by(self.seats[j], user_id@),
            decreases 2 - i,
        {
            match &self.seats[i] {
                Some(seat) => {
                    if str_eq(seat.user_id.as_str(), user_id) {
                        return Some(i);
                    }
                },
                None => {},
            }
            i += 1;
        }
        None
    }

    /// Drops the spectator entries of `user_id`; returns the connection of
    /// the first one dropped.
    pub fn remove_spectator_user(&mut self, user_id: &str, now_ms: u64) -> (old_connection: Option<
        String,
    >)
        ensures
            final(self).spectators@ == spectators_without_user(old(self).spectators@, user_id@),
            old_connection == (match first_spectator_of(
                old(self).spectators@,
                user_id@,
                old(self).spectators@.len() as int,
            ) {
                Some(j) => Some(old(self).spectators@[j].connection_id),
                None => None,
            }),
            *final(self) == (RedisRoomSnapshot {
                spectators: final(self).spectators,
                last_activity_ms: if final(self).spectators@.len() != old(self).spectators@.len() {
                    now_ms
                } else {
                    old(self).last_activity_ms
                },
                ..*old(self)
            }),
    {
        let ghost uid = user_id@;
        let ghost pred = not_of_user(uid);
        let mut kept: Vec<RedisSpectator> = Vec::new();
        let mut old_connection: Option<String> = None;
        let n = self.spectators.len();
        let mut i: usize = 0;
        while i < n
            invariant
                n == self.spectators.len(),
                i <= n,
                pred == not_of_user(uid),
                uid == user_id@,
                kept@ == self.spectators@.subrange(0, i as int).filter(pred),
                old_connection == (match first_spectator_of(self.spectators@, uid, i as int) {
                    Some(j) => Some(self.spectators@[j].connection_id),
                    None => None,
                }),
            decreases n - i,
        {
            let sp = &self.spectators[i];
            let remove = str_eq(sp.user_id.as_str(), user_id);
            if remove && old_connection.is_none() {
                old_connection = Some(sp.connection_id.clone());
            }
            if !remove {
                kept.push(sp.duplicate());
            }
            proof {
                let s = self.spectators@;
                assert(s.subrange(0, i + 1) =~= s.subrange(0, i as int).push(s[i as int]));
                s.subrange(0, i as int).lemma_filter_push(s[i as int], pred);
            }
            i += 1;
        }
        proof {
            assert(self.spectators@.subrange(0, n as int) =~= self.spectators@);
        }
        let before = self.spectators.len();
        self.spectators = kept;
        if self.spectators.len() != before {
            self.last_activity_ms = now_ms;
        }
        old_connection
    }

    /// Drops the spectator entry of the connection `connection_id`.
    pub fn remove_spectator_connection(&mut self, connection_id: &str, now_ms: u64)
        ensures
            final(self).spectators@ == spectators_without_connection(
                old(self).spectators@,
                connection_id@,
            ),
            *final(self) == (RedisRoomSnapshot {
                spectators: final(self).spectators,
                last_activity_ms: if final(self).spectators@.len() != old(self).spectators@.len() {
                    now_ms
                } else {
                    old(self).last_activity_ms
                },
                ..*old(self)
            }),
    {
        let ghost cid = connection_id@;
        let ghost pred = not_connection(cid);
        let mut kept: Vec<RedisSpectator> = Vec::new();
        let n = self.spectators.len();
        let mut i: usize = 0;
        while i < n
            invariant
                n == self.spectators.len(),
                i <= n,
                pred == not_connection(cid),
                cid == connection_id@,
                kept@ == self.spectators@.subrange(0, i as int).filter(pred),
            decreases n - i,
        {
            let sp = &self.spectators[i];
            if !str_eq(sp.connection_id.as_str(), connection_id) {
                kept.push(sp.duplicate());
            }
            proof {
                let s = self.spectators@;
                assert(s.subrange(0, i + 1) =~= s.subrange(0, i as int).push(s[i as int]));
                s.subrange(0, i as int).lemma_filter_push(s[i as int], pred);
            }
            i += 1;
        }
        proof {
            assert(self.spectators@.subrange(0, n as int) =~= self.spectators@);
        }
        let before = self.spectators.len();
        self.spectators = kept;
        if self.spectators.len() != before {
            self.last_activity_ms = now_ms;
        }
    }

    /// Seats `owner`: a user already seated keeps their seat (and their
    /// new display name, when one is given); otherwise the first free seat is
    /// taken. A seated user is no longer a spectator. `None` when the room is
    /// full and the user holds no seat; then nothing changes.
    pub fn assign_or_find_viewer(&mut self, owner: RedisSeatOwner, now_ms: u64) -> (r: Option<
        usize,
    >)
        ensures
            r == (match seat_of_user(old(self).seats, owner.user_id@) {
                Some(p) => Some(p),
                None => first_free_seat(old(self).seats),
            }),
            r is None ==> *final(self) == *old(self),
            r matches Some(p) ==> {
                &&& p < 2
                &&& final(self).spectators@ == spectators_without_user(
                    old(self).spectators@,
                    owner.user_id@,
                )
                &&& final(self).seats[1 - p] == old(self).seats[1 - p]
                &&& final(self).seats[p as int] == (if seat_of_user(
                    old(self).seats,
                    owner.user_id@,
                ) is Some && owner.display_name is None {
                    old(self).seats[p as int]
                } else {
                    Some(owner)
                })
                &&& seat_held_by(final(self).seats[p as int], owner.user_id@)
                &&& seat_of_user(final(self).seats, owner.user_id@) == Some(p)
                &&& seats_distinct(old(self).seats) ==> seats_distinct(final(self).seats)
                &&& (seat_of_user(old(self).seats, owner.user_id@) is None
                    || owner.display_name is Some) ==> final(self).last_activity_ms == now_ms
                &&& *final(self) == (RedisRoomSnapshot {
                    seats: final(self).seats,
                    spectators: final(self).spectators,
                    last_activity_ms: final(self).last_activity_ms,
                    ..*old(self)
                })
            },
    {
        let owner_user_id = owner.user_id.clone();
        match self.seat_for_user(owner_user_id.as_str()) {
            Some(player) => {
                if owner.display_name.is_some() {
                    self.seats[player] = Some(owner);
                    self.last_activity_ms = now_ms;
                }
                self.remove_spectator_user(owner_user_id.as_str(), now_ms);
                Some(player)
            },
            None => {
                let free = if self.seats[0].is_none() {
                    Some(0usize)
                } else if self.seats[1].is_none() {
                    Some(1usize)
                } else {
                    None
                };
                match free {
                    Some(player) => {
                        self.remove_spectator_user(owner_user_id.as_str(), now_ms);
                        self.seats[player] = Some(owner);
                        self.last_activity_ms = now_ms;
                        Some(player)
                    },
                    None => None,
                }
            },
        }
    }

    /// Whether the spectator connection `connection_id` is registered.
    pub fn spectator_connection_exists(&self, connection_id: &str) -> (r: bool)
        ensures
            r == exists|i: int|
                0 <= i < self.spectators@.len() && (#[trigger] self.spectators@[i]).connection_id@
                    == connection_id@,
    {
        let mut i: usize = 0;
        while i < self.spectators.len()
            invariant
                i <= self.spectators.len(),
                forall|j: int|
                    0 <= j < i ==> (#[trigger] self.spectators@[j]).connection_id@
                        != connection_id@,
            decreases self.spectators.len() - i,
        {
            if str_eq(self.spectators[i].connection_id.as_str(), connection_id) {
                return true;
            }
            i += 1;
        }
        false
    }

    /// Fails unless `connection_id` is the current connection of `player`.
    pub fn ensure_active_connection(&self, player: usize, connection_id: &str) -> (r: Result<
        (),
        String,
    >)
        requires
            player < 2,
        ensures
            r is Ok <==> (self.active_connections[player as int] matches Some(c) && c@
                == connection_id@),
            r matches Err(m) ==> m@
                == "This multiplayer connection has been replaced. Rejoin the room."@,
    {
        let current = match &self.active_connections[player] {
            Some(c) => str_eq(c.as_str(), connection_id),
            None => false,
        };
        if !current {
            return Err("This multiplayer connection has been replaced. Rejoin the room.".to_string());
        }
        Ok(())
    }

    /// Whether a socket still holds its place in the stored room: a
    /// player's connection must be the seat's current one, a spectator's
    /// must still be registered.
    pub fn check_connection(&self, player: Option<usize>, connection_id: &str) -> (r: Result<
        (),
        String,
    >)
        requires
            player matches Some(p) ==> p < 2,
        ensures
            player matches Some(p) ==> (r is Ok <==> (self.active_connections[p as int] matches Some(
                c,
            ) && c@ == connection_id@)),
            player is Some ==> (r matches Err(m) ==> m@
                == "This multiplayer connection has been replaced. Rejoin the room."@),
            player is None ==> (r is Ok <==> exists|i: int|
                0 <= i < self.spectators@.len() && (#[trigger] self.spectators@[i]).connection_id@
                    == connection_id@),
            player is None ==> (r matches Err(m) ==> m@
                == "This spectator connection has been replaced. Rejoin the room."@),
    {
        match player {
            Some(p) => self.ensure_active_connection(p, connection_id),
            None => if self.spectator_connection_exists(connection_id) {
                Ok(())
            } else {
                Err("This spectator connection has been replaced. Rejoin the room.".to_string())
            },
        }
    }

    /// `finished` once decided, `active` when both seats are taken, else
    /// `waiting`.
    pub fn room_status(&self) -> (r: &'static str)
        ensures
            r@ == (if self.outcome is Some || self.clock.winner is Some {
                "finished"@
            } else if self.seats[0] is Some && self.seats[1] is Some {
                "active"@
            } else {
                "waiting"@
            }),
    {
        if self.is_finished() {
            "finished"
        } else if self.is_full() {
            "active"
        } else {
            "waiting"
        }
    }

    /// Attaches the connection `connection_id` of `user_id` to the room: as
    /// the player of their seat (taking a free seat if needed) or else as a
    /// spectator. Starts the first seat's clock once both seats are taken.
    /// Returns the seat, if any, and the connection it replaces.
    pub fn activate(
        &mut self,
        owner: RedisSeatOwner,
        display_name: Option<String>,
        connection_id: String,
        now_ms: u64,
    ) -> (r: (Option<usize>, Option<String>))
        requires
            old(self).wf(),
        ensures
            final(self).wf(),
            r.0 == (match seat_of_user(old(self).seats, owner.user_id@) {
                Some(p) => Some(p),
                None => first_free_seat(old(self).seats),
            }),
            r.0 matches Some(p) ==> {
                &&& p < 2
                &&& r.1 == old(self).active_connections[p as int]
                &&& final(self).active_connections[p as int] == Some(connection_id)
                &&& final(self).active_connections[1 - p] == old(self).active_connections[1 - p]
                &&& seat_held_by(final(self).seats[p as int], owner.user_id@)
                &&& final(self).spectators@ == spectators_without_user(
                    old(self).spectators@,
                    owner.user_id@,
                )
            },
            r.0 is None ==> {
                &&& final(self).seats == old(self).seats
                &&& final(self).active_connections == old(self).active_connections
                &&& r.1 == (match first_spectator_of(
                    old(self).spectators@,
                    owner.user_id@,
                    old(self).spectators@.len() as int,
                ) {
                    Some(j) => Some(old(self).spectators@[j].connection_id),
                    None => None,
                })
                &&& final(self).spectators@ == spectators_without_user(
                    old(self).spectators@,
                    owner.user_id@,
                ).push(
                    RedisSpectator {
                        user_id: owner.user_id,
                        display_name,
                        connection_id,
                    },
                )
            },
            final(self).clock.view() == (if final(self).seats[0] is Some && final(self).seats[1] is Some
                && old(self).clock.active_player is None && old(self).outcome is None
                && old(self).clock.winner is None && old(self).clock.remaining_ms is Some {
                ClockView {
                    active_player: Some(0),
                    active_since_ms: Some(now_ms),
                    ..old(self).clock.view()
                }
            } else {
                old(self).clock.view()
            }),
            final(self).outcome == old(self).outcome,
            final(self).last_activity_ms == now_ms,
            final(self).code == old(self).code,
            final(self).actions == old(self).actions,
            final(self).version == old(self).version,
    {
        let user_id = owner.user_id.clone();
        let player = self.assign_or_find_viewer(owner, now_ms);
        let old_connection = match player {
            Some(p) => {
                let old_connection = clone_opt_string(&self.active_connections[p]);
                self.active_connections[p] = Some(connection_id);
                old_connection
            },
            None => {
                let old_connection = self.remove_spectator_user(user_id.as_str(), now_ms);
                self.spectators.push(
                    RedisSpectator { user_id, display_name, connection_id },
                );
                old_connection
            },
        };
        if self.is_full() && self.clock.active_player.is_none() && !self.is_finished() {
            self.clock.mark_active(0, now_ms);
        }
        self.last_activity_ms = now_ms;
        (player, old_connection)
    }

    /// Detaches a connection that leaves: frees the seat's connection slot
    /// if it still belongs to it, or drops the spectator entry.
    pub fn release_connection(&mut self, player: Option<usize>, connection_id: &str, now_ms: u64)
        requires
            player matches Some(p) ==> p < 2,
        ensures
            player matches Some(p) ==> {
                if old(self).active_connections[p as int] matches Some(c) && c@ == connection_id@ {
                    &&& final(self).active_connections[p as int] is None
                    &&& final(self).active_connections[1 - p] == old(self).active_connections[1
                        - p]
                    &&& *final(self) == (RedisRoomSnapshot {
                        active_connections: final(self).active_connections,
                        last_activity_ms: now_ms,
                        ..*old(self)
                    })
                } else {
                    *final(self) == *old(self)
                }
            },
            player is None ==> final(self).spectators@ == spectators_without_connection(
                old(self).spectators@,
                connection_id@,
            ),
            player is None ==> final(self).seats == old(self).seats && final(self).active_connections == old(self).active_connections,
    {
        match player {
            Some(p) => {
                let current = match &self.active_connections[p] {
                    Some(c) => str_eq(c.as_str(), connection_id),
                    None => false,
                };
                if current {
                    self.active_connections[p] = None;
                    self.last_activity_ms = now_ms;
                }
            },
            None => {
                self.remove_spectator_connection(connection_id, now_ms);
            },
        }
    }

    /// `player` resigns: the opponent wins by resignation and the clock
    /// stops, unless the game is already decided.
    pub fn resign(&mut self, player: usize, connection_id: &str, now_ms: u64) -> (r: Result<
        (),
        String,
    >)
        requires
            player < 2,
            old(self).wf(),
        ensures
            final(self).wf(),
            !(old(self).active_connections[player as int] matches Some(c) && c@ == connection_id@)
                ==> (r matches Err(m) && m@ == "This multiplayer connection has been replaced. Rejoin the room."@)
                && *final(self) == *old(self),
            (old(self).active_connections[player as int] matches Some(c) && c@ == connection_id@)
                && !(old(self).seats[0] is Some && old(self).seats[1] is Some) ==> (r matches Err(m)
                && m@ == "Room is waiting for an opponent"@) && *final(self) == *old(self),
            (old(self).active_connections[player as int] matches Some(c) && c@ == connection_id@)
                && old(self).seats[0] is Some && old(self).seats[1] is Some ==> {
                &&& r is Ok
                &&& if old(self).outcome is Some || old(self).clock.winner is Some {
                    *final(self) == *old(self)
                } else {
                    &&& final(self).outcome matches Some(o) && o.winner == Some((1 - player) as usize)
                        && o.reason@ == "resignation"@ && o.replay_share_slug is None
                    &&& final(self).clock.view() == (ClockView {
                        active_player: None,
                        active_since_ms: None,
                        ..old(self).clock.view()
                    })
                    &&& final(self).last_activity_ms == now_ms
                    &&& final(self).seats == old(self).seats
                    &&& final(self).actions == old(self).actions
                }
            },
    {
        self.ensure_active_connection(player, connection_id)?;
        if !self.is_full() {
            return Err("Room is waiting for an opponent".to_string());
        }
        if !self.is_finished() {
            self.outcome = Some(
                RedisRoomOutcome {
                    winner: Some(1 - player),
                    reason: "resignation".to_string(),
                    replay_share_slug: None,
                },
            );
            self.clock.active_player = None;
            self.clock.active_since_ms = None;
            self.last_activity_ms = now_ms;
        }
        Ok(())
    }

    /// Whether `player`, on the connection `connection_id`, may move: the
    /// connection must be the seat's current one and both seats taken;
    /// `Ok(true)` while the game goes on, `Ok(false)` once it is decided
    /// (the room is then shown as it stands).
    pub fn move_gate(&self, player: usize, connection_id: &str) -> (r: Result<bool, String>)
        requires
            player < 2,
        ensures
            !(self.active_connections[player as int] matches Some(c) && c@ == connection_id@) ==> (r matches Err(
                m,
            ) && m@ == "This multiplayer connection has been replaced. Rejoin the room."@),
            (self.active_connections[player as int] matches Some(c) && c@ == connection_id@) && !(
            self.seats[0] is Some && self.seats[1] is Some) ==> (r matches Err(m) && m@
                == "Room is waiting for an opponent"@),
            (self.active_connections[player as int] matches Some(c) && c@ == connection_id@)
                && self.seats[0] is Some && self.seats[1] is Some ==> r == Ok::<bool, String>(
                !(self.outcome is Some || self.clock.winner is Some),
            ),
    {
        self.ensure_active_connection(player, connection_id)?;
        if !self.is_full() {
            return Err("Room is waiting for an opponent".to_string());
        }
        Ok(!self.is_finished())
    }

    /// Records a move of `player` that the game played: the game's actions
    /// as they now stand, whether it ended and who won, and who moves next.
    /// An ended game gets the outcome `game` (keeping a share slug already
    /// recorded); the clock runs on as for any finished turn.
    pub fn record_move(
        &mut self,
        player: usize,
        actions: Vec<usize>,
        game_over: bool,
        winner: Option<usize>,
        next_player: usize,
        now_ms: u64,
    )
        requires
            old(self).wf(),
            player < 2,
            next_player < 2,
        ensures
            final(self).wf(),
            final(self).actions == actions,
            final(self).clock.view() == shared_turn_view(
                old(self).clock.view(),
                now_ms,
                player,
                next_player,
                game_over,
                old(self).increment_seconds,
            ),
            final(self).last_activity_ms == now_ms,
            !game_over ==> final(self).outcome == old(self).outcome,
            game_over ==> (final(self).outcome matches Some(o) && o.winner == winner && o.reason@ == "game"@
                && o.replay_share_slug == (match old(self).outcome {
                Some(p) => p.replay_share_slug,
                None => None,
            })),
            final(self).seats == old(self).seats,
            final(self).active_connections == old(self).active_connections,
            final(self).spectators == old(self).spectators,
            final(self).replay_saved == old(self).replay_saved,
    {
        if game_over {
            let slug = match &self.outcome {
                Some(o) => match &o.replay_share_slug {
                    Some(s) => Some(s.clone()),
                    None => None,
                },
                None => None,
            };
            self.outcome = Some(RedisRoomOutcome { winner, reason: "game".to_string(), replay_share_slug: slug });
        }
        self.actions = actions;
        self.clock.finish_turn(player, next_player, game_over, self.increment_seconds, now_ms);
        self.last_activity_ms = now_ms;
    }

    /// `player` gives the opponent fifteen seconds.
    pub fn add_opponent_time(&mut self, player: usize, connection_id: &str, now_ms: u64) -> (r:
        Result<(), String>)
        requires
            player < 2,
            old(self).wf(),
        ensures
            final(self).wf(),
            !(old(self).active_connections[player as int] matches Some(c) && c@ == connection_id@)
                ==> (r matches Err(m) && m@ == "This multiplayer connection has been replaced. Rejoin the room."@)
                && *final(self) == *old(self),
            (old(self).active_connections[player as int] matches Some(c) && c@ == connection_id@)
                ==> {
                if old(self).clock.remaining_ms is None || old(self).clock.winner is Some {
                    &&& *final(self) == *old(self)
                    &&& if old(self).outcome is Some || old(self).clock.winner is Some {
                        r is Ok
                    } else {
                        r matches Err(m) && m@ == "This room does not have clocks enabled"@
                    }
                } else {
                    &&& r is Ok
                    &&& final(self).clock.view() == (ClockView {
                        remaining: Some(
                            crate::clock::pair_set(
                                tick_view(old(self).clock.view(), now_ms).remaining.unwrap(),
                                1 - player,
                                crate::clock::add_ms(
                                    crate::clock::pair_get(
                                        tick_view(old(self).clock.view(), now_ms).remaining.unwrap(),
                                        1 - player,
                                    ),
                                    Some(15),
                                ),
                            ),
                        ),
                        ..tick_view(old(self).clock.view(), now_ms)
                    })
                    &&& final(self).last_activity_ms == now_ms
                    &&& final(self).outcome == old(self).outcome
                }
            },
    {
        self.ensure_active_connection(player, connection_id)?;
        if !self.clock.add_seconds(1 - player, 15, now_ms) {
            if self.is_finished() {
                return Ok(());
            }
            return Err("This room does not have clocks enabled".to_string());
        }
        self.last_activity_ms = now_ms;
        Ok(())
    }

    /// Ends the game on time when the running seat's clock has run out at
    /// `now_ms`. Returns whether the room timed out now.
    pub fn expire_clock(&mut self, now_ms: u64) -> (timed_out: bool)
        requires
            old(self).wf(),
        ensures
            final(self).wf(),
            old(self).outcome is Some || old(self).clock.winner is Some ==> !timed_out && *final(self) == *old(self),
            !(old(self).outcome is Some || old(self).clock.winner is Some) ==> {
                &&& final(self).clock.view() == tick_view(old(self).clock.view(), now_ms)
                &&& timed_out == tick_times_out(old(self).clock.view(), now_ms)
                &&& timed_out ==> (final(self).outcome matches Some(o) && o.winner
                    == final(self).clock.winner && o.reason@ == "timeout"@
                    && o.replay_share_slug is None) && final(self).last_activity_ms == now_ms
                &&& !timed_out ==> final(self).outcome == old(self).outcome
                    && final(self).last_activity_ms == old(self).last_activity_ms
            },
    {
        if self.is_finished() {
            return false;
        }
        if !self.clock.tick_active(now_ms) {
            return false;
        }
        match self.clock.winner {
            Some(winner) => {
                self.outcome = Some(
                    RedisRoomOutcome {
                        winner: Some(winner),
                        reason: "timeout".to_string(),
                        replay_share_slug: None,
                    },
                );
                self.last_activity_ms = now_ms;
                true
            },
            None => false,
        }
    }
}


// ── what a shared room shows ────────────────────────────────────────

/// The spectators whose connection is present, in order.
pub open spec fn present_spectators_spec(s: Seq<RedisSpectator>, present: Seq<bool>) -> Seq<
    RedisSpectator,
>
    decreases s.len(),
{
    if s.len() == 0 || present.len() != s.len() {
        Seq::empty()
    } else {
        let rest = present_spectators_spec(s.drop_last(), present.drop_last());
        if present.last() {
            rest.push(s.last())
        } else {
            rest
        }
    }
}

/// The spectator entries of a shared room as a viewer sees them.
pub open spec fn shared_spectator_entries(s: Seq<RedisSpectator>, local: Option<Seq<char>>) -> Seq<
    crate::protocol::MultiplayerSpectator,
> {
    s.map_values(
        |sp: RedisSpectator|
            crate::protocol::MultiplayerSpectator {
                you: local == Some(sp.connection_id@),
                name: sp.display_name,
            },
    )
}

impl RedisRoomSnapshot {
    /// The spectators whose connection is present; `present` holds one
    /// flag per spectator entry.
    pub fn present_spectators(&self, present: &Vec<bool>) -> (r: Vec<RedisSpectator>)
        requires
            present@.len() == self.spectators@.len(),
        ensures
            r@ == present_spectators_spec(self.spectators@, present@),
    {
        let mut out: Vec<RedisSpectator> = Vec::new();
        let mut i: usize = 0;
        while i < self.spectators.len()
            invariant
                i <= self.spectators@.len(),
                present@.len() == self.spectators@.len(),
                out@ == present_spectators_spec(
                    self.spectators@.subrange(0, i as int),
                    present@.subrange(0, i as int),
                ),
            decreases self.spectators.len() - i,
        {
            proof {
                assert(self.spectators@.subrange(0, i + 1).drop_last() =~= self.spectators@.subrange(
                    0,
                    i as int,
                ));
                assert(present@.subrange(0, i + 1).drop_last() =~= present@.subrange(0, i as int));
            }
            if present[i] {
                out.push(self.spectators[i].duplicate());
            }
            i += 1;
        }
        assert(self.spectators@.subrange(0, i as int) =~= self.spectators@);
        assert(present@.subrange(0, i as int) =~= present@);
        out
    }

    /// How many seats have a present active connection; `present[p]` tells
    /// whether seat `p`'s active connection is present.
    pub fn connected_players(&self, present: [bool; 2]) -> (r: usize)
        ensures
            r == (if self.active_connections[0] is Some && present[0] {
                1nat
            } else {
                0nat
            }) + (if self.active_connections[1] is Some && present[1] {
                1nat
            } else {
                0nat
            }),
    {
        let a: usize = if self.active_connections[0].is_some() && present[0] { 1 } else { 0 };
        let b: usize = if self.active_connections[1].is_some() && present[1] { 1 } else { 0 };
        a + b
    }

    /// The room as the lobby lists it, given how many players and
    /// spectators are connected. A room nobody is connected to closes
    /// `grace_ms` after its last activity.
    pub fn lobby_entry(&self, connected_players: usize, connected_spectators: usize, grace_ms: u64) -> (r:
        crate::protocol::MultiplayerLobbyRoom)
        ensures
            r.code == self.code,
            r.status@ == (if self.outcome is Some || self.clock.winner is Some {
                "finished"@
            } else if self.seats[0] is Some && self.seats[1] is Some {
                "active"@
            } else {
                "waiting"@
            }),
            r.occupied == (if self.seats[0] is Some { 1u8 } else { 0u8 }) + (if self.seats[1] is Some {
                1u8
            } else {
                0u8
            }),
            r.connected == connected_players as u8,
            r.spectator_count == connected_spectators as u8,
            r.is_public == self.is_public,
            r.time_minutes == self.time_minutes,
            r.increment_seconds == self.increment_seconds,
            r.last_activity_ms == self.last_activity_ms,
            r.empty_room_closes_at_ms == (if r.connected == 0 && r.spectator_count == 0 {
                Some(crate::clock::add_sat(self.last_activity_ms, grace_ms))
            } else {
                None
            }),
    {
        let occupied: u8 = (if self.seats[0].is_some() { 1u8 } else { 0u8 }) + (if self.seats[1].is_some() {
            1u8
        } else {
            0u8
        });
        let connected = connected_players as u8;
        let spectator_count = connected_spectators as u8;
        let total_connected = (connected as usize) + (spectator_count as usize);
        crate::protocol::MultiplayerLobbyRoom {
            code: self.code.clone(),
            status: self.room_status().to_string(),
            occupied,
            connected,
            spectator_count,
            is_public: self.is_public,
            time_minutes: self.time_minutes,
            increment_seconds: self.increment_seconds,
            last_activity_ms: self.last_activity_ms,
            empty_room_closes_at_ms: if total_connected == 0 {
                Some(self.last_activity_ms.saturating_add(grace_ms))
            } else {
                None
            },
        }
    }

    /// Whether the periodic cleanup deletes the stored room: nobody is
    /// connected and it has been idle for `grace_ms` since its last
    /// activity.
    pub fn is_abandoned(&self, now_ms: u64, connected_viewers: usize, grace_ms: u64) -> (r: bool)
        ensures
            r == (connected_viewers == 0 && (if now_ms > self.last_activity_ms {
                now_ms - self.last_activity_ms
            } else {
                0
            }) >= grace_ms),
    {
        let idle_ms = now_ms.saturating_sub(self.last_activity_ms);
        idle_ms >= grace_ms && connected_viewers == 0
    }

    /// What the room tells a viewer, given which seats are connected and
    /// the spectators that are present; times are shown as of `now_ms`.
    pub fn room_view(
        &self,
        local_player: Option<usize>,
        local_connection_id: Option<&str>,
        seat_connected: [bool; 2],
        spectators: &Vec<RedisSpectator>,
        now_ms: u64,
    ) -> (r: crate::memroom::RoomView)
        requires
            self.wf(),
        ensures
            r.code == self.code,
            r.status@ == (if self.outcome is Some || self.clock.winner is Some {
                "finished"@
            } else if self.seats[0] is Some && self.seats[1] is Some {
                "active"@
            } else {
                "waiting"@
            }),
            r.viewer_role@ == (if local_player is Some {
                "player"@
            } else {
                "spectator"@
            }),
            r.local_player == (match local_player {
                Some(p) => Some(p as u8),
                None => None,
            }),
            r.players@.len() == 2,
            forall|p: int|
                0 <= p < 2 ==> (#[trigger] r.players@[p]).occupied == self.seats[p] is Some
                    && r.players@[p].connected == seat_connected[p] && r.players@[p].you == (
                local_player == Some(p as usize)) && r.players@[p].name == (match self.seats[p] {
                    Some(o) => o.display_name,
                    None => None,
                }) && r.players@[p].clock_active == (self.clock.active_player == Some(p as usize))
                    && r.players@[p].time_millis == crate::clock::shown_time(
                    self.clock.view(),
                    p,
                    now_ms,
                ),
            r.spectators@ == shared_spectator_entries(
                spectators@,
                match local_connection_id {
                    Some(c) => Some(c@),
                    None => None,
                },
            ),
            r.time_minutes == self.time_minutes,
            r.increment_seconds == self.increment_seconds,
            r.winner == (match (match self.outcome {
                Some(o) => o.winner,
                None => None,
            }) {
                Some(w) => Some(w as u8),
                None => match self.clock.winner {
                    Some(w) => Some(w as u8),
                    None => None,
                },
            }),
            r.finish_reason == (match self.outcome {
                Some(o) => Some(o.reason),
                None => None,
            }),
            r.replay_share_slug == (match self.outcome {
                Some(o) => o.replay_share_slug,
                None => None,
            }),
    {
        let clock = self.clock.snapshot(now_ms);
        let mut players: Vec<crate::protocol::MultiplayerPlayer> = Vec::new();
        let mut p: usize = 0;
        while p < 2
            invariant
                p <= 2,
                players@.len() == p,
                clock.active_player == self.clock.active_player,
                forall|q: int|
                    0 <= q < p ==> (#[trigger] players@[q]).occupied == self.seats[q] is Some
                        && players@[q].connected == seat_connected[q] && players@[q].you == (
                    local_player == Some(q as usize)) && players@[q].name == (match self.seats[q] {
                        Some(o) => o.display_name,
                        None => None,
                    }) && players@[q].clock_active == (self.clock.active_player == Some(
                        q as usize,
                    )) && players@[q].time_millis == crate::clock::shown_time(
                        self.clock.view(),
                        q,
                        now_ms,
                    ),
                forall|q: int|
                    0 <= q < 2 ==> #[trigger] clock.time_millis[q] == crate::clock::shown_time(
                        self.clock.view(),
                        q,
                        now_ms,
                    ),
            decreases 2 - p,
        {
            players.push(
                crate::protocol::MultiplayerPlayer {
                    occupied: self.seats[p].is_some(),
                    connected: seat_connected[p],
                    you: local_player == Some(p),
                    name: match &self.seats[p] {
                        Some(o) => clone_opt_string(&o.display_name),
                        None => None,
                    },
                    time_millis: clock.time_millis[p],
                    clock_active: clock.active_player == Some(p),
                },
            );
            p += 1;
        }
        let mut entries: Vec<crate::protocol::MultiplayerSpectator> = Vec::new();
        let mut i: usize = 0;
        let ghost local = match local_connection_id {
            Some(c) => Some(c@),
            None => None::<Seq<char>>,
        };
        while i < spectators.len()
            invariant
                i <= spectators@.len(),
                local == (match local_connection_id {
                    Some(c) => Some(c@),
                    None => None::<Seq<char>>,
                }),
                entries@ == shared_spectator_entries(spectators@.subrange(0, i as int), local),
            decreases spectators.len() - i,
        {
            let sp = &spectators[i];
            let you = match local_connection_id {
                Some(c) => str_eq(c, sp.connection_id.as_str()),
                None => false,
            };
            entries.push(
                crate::protocol::MultiplayerSpectator {
                    you,
                    name: clone_opt_string(&sp.display_name),
                },
            );
            i += 1;
            assert(entries@ =~= shared_spectator_entries(spectators@.subrange(0, i as int), local));
        }
        assert(spectators@.subrange(0, i as int) =~= spectators@);
        let (winner_seat, finish_reason, replay_share_slug) = match &self.outcome {
            Some(o) => (o.winner, Some(o.reason.clone()), clone_opt_string(&o.replay_share_slug)),
            None => (None, None, None),
        };
        let winner_seat = match winner_seat {
            Some(w) => Some(w),
            None => self.clock.winner,
        };
        crate::memroom::RoomView {
            code: self.code.clone(),
            status: self.room_status(),
            viewer_role: if local_player.is_some() {
                "player"
            } else {
                "spectator"
            },
            local_player: match local_player {
                Some(p) => Some(p as u8),
                None => None,
            },
            players,
            spectators: entries,
            time_minutes: self.time_minutes,
            increment_seconds: self.increment_seconds,
            winner: match winner_seat {
                Some(w) => Some(w as u8),
                None => None,
            },
            finish_reason,
            replay_share_slug,
        }
    }
}


// ── saving a shared room's replay ───────────────────────────────────

/// What saving a finished shared room's replay needs: the seated players'
/// account keys, how the game ended, the room id and the first replay
/// counter to use.
pub struct ReplaySaveJob {
    pub seats: Vec<(usize, String)>,
    pub outcome: Option<RedisRoomOutcome>,
    pub room_id: u64,
    pub counter: u64,
}

impl RedisRoomOutcome {
    pub fn duplicate(&self) -> (r: Self)
        ensures
            r == *self,
    {
        RedisRoomOutcome {
            winner: self.winner,
            reason: self.reason.clone(),
            replay_share_slug: clone_opt_string(&self.replay_share_slug),
        }
    }

    /// The same outcome as an in-memory room's.
    pub fn to_room_outcome(&self) -> (r: RoomOutcome)
        ensures
            r.winner == self.winner,
            r.reason == self.reason,
            r.replay_share_slug == self.replay_share_slug,
    {
        RoomOutcome {
            winner: self.winner,
            reason: self.reason.clone(),
            replay_share_slug: clone_opt_string(&self.replay_share_slug),
        }
    }
}

impl RedisRoomSnapshot {
    /// Claims the one save of this room's replay: `None` when it was
    /// already claimed; otherwise marks it claimed and returns the seated
    /// players (in seat order), the outcome, the room id and the next
    /// replay counter.
    pub fn claim_replay_save(&mut self) -> (r: Option<ReplaySaveJob>)
        ensures
            old(self).replay_saved ==> r is None && *final(self) == *old(self),
            !old(self).replay_saved ==> (r matches Some(job) && *final(self) == (RedisRoomSnapshot {
                replay_saved: true,
                ..*old(self)
            }) && job.outcome == old(self).outcome && job.room_id == old(self).room_id
                && job.counter == old(self).next_replay_counter && forall|k: int|
                0 <= k < job.seats@.len() ==> {
                    let p = (#[trigger] job.seats@[k]).0;
                    p < 2 && (old(self).seats[p as int] matches Some(o) && job.seats@[k].1
                        == o.account_key)
                }),
            !old(self).replay_saved ==> (r matches Some(job) && job.seats@.len() == (if old(
                self,
            ).seats[0] is Some {
                1nat
            } else {
                0nat
            }) + (if old(self).seats[1] is Some {
                1nat
            } else {
                0nat
            })),
            r matches Some(job) ==> forall|k1: int, k2: int|
                0 <= k1 < k2 < job.seats@.len() ==> (#[trigger] job.seats@[k1]).0 < (#[trigger] job.seats@[k2]).0,
    {
        if self.replay_saved {
            return None;
        }
        let mut seats: Vec<(usize, String)> = Vec::new();
        if let Some(o) = &self.seats[0] {
            seats.push((0, o.account_key.clone()));
        }
        if let Some(o) = &self.seats[1] {
            seats.push((1, o.account_key.clone()));
        }
        let outcome = match &self.outcome {
            Some(o) => Some(o.duplicate()),
            None => None,
        };
        self.replay_saved = true;
        Some(
            ReplaySaveJob {
                seats,
                outcome,
                room_id: self.room_id,
                counter: self.next_replay_counter,
            },
        )
    }

    /// Records the saved replay: its share slug on the outcome, and the
    /// replay counter to use next.
    pub fn record_replay_saved(&mut self, share_slug: String, next_counter: u64)
        ensures
            final(self).next_replay_counter == next_counter,
            final(self).outcome == (match old(self).outcome {
                Some(o) => Some(RedisRoomOutcome { replay_share_slug: Some(share_slug), ..o }),
                None => None,
            }),
            *final(self) == (RedisRoomSnapshot {
                outcome: final(self).outcome,
                next_replay_counter: next_counter,
                ..*old(self)
            }),
    {
        if let Some(o) = self.outcome.take() {
            self.outcome = Some(RedisRoomOutcome { replay_share_slug: Some(share_slug), ..o });
        }
        self.next_replay_counter = next_counter;
    }
}

/// The result a seat's replay is saved with, from a shared room's outcome.
pub fn seat_replay_result(outcome: &Option<RedisRoomOutcome>, player: usize) -> (r: Option<
    &'static str,
>)
    ensures
        crate::identity::opt_str_view(r) == (match outcome {
            Some(o) => spec_replay_result_for_room_outcome(o.winner, o.reason@, player),
            None => None,
        }),
{
    match outcome {
        Some(o) => replay_result_for_room_outcome(&o.to_room_outcome(), player),
        None => None,
    }
}

/// What a multiplayer message needs of a socket's place in a shared
/// (Redis) room: as `spec_command_gate`, except that shared rooms have no
/// chat and no undo or redo.
pub open spec fn spec_shared_command_gate(msg: crate::protocol::ClientMsg, viewer: Option<MultiplayerViewer>) -> Result<
    Option<usize>,
    Seq<char>,
> {
    if msg is SendMultiplayerChat || msg is Undo || msg is Redo {
        Err("Unsupported multiplayer message"@)
    } else {
        crate::memroom::spec_command_gate(msg, viewer)
    }
}

/// Checks a multiplayer message against the socket's place in a shared
/// room: see `spec_shared_command_gate`.
pub fn shared_command_gate(msg: &crate::protocol::ClientMsg, viewer: Option<MultiplayerViewer>) -> (r: Result<
    Option<usize>,
    String,
>)
    ensures
        r matches Ok(p) ==> spec_shared_command_gate(*msg, viewer) == Ok::<Option<usize>, Seq<char>>(p),
        r matches Err(e) ==> spec_shared_command_gate(*msg, viewer) == Err::<Option<usize>, Seq<char>>(
            e@,
        ),
{
    match msg {
        crate::protocol::ClientMsg::SendMultiplayerChat { .. } | crate::protocol::ClientMsg::Undo
        | crate::protocol::ClientMsg::Redo => Err("Unsupported multiplayer message".to_string()),
        _ => crate::memroom::multiplayer_command_gate(msg, viewer),
    }
}

} // verus!
