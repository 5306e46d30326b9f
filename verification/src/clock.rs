//! Chess-style room clocks.
//!
//! `RoomClock` is the clock of an in-memory room: it only runs once the
//! first move has been made (`started`) and is advanced by `refresh` from the
//! wall clock. `RedisRoomClock` is the clock stored with a shared room
//! snapshot; it starts as soon as both seats are taken.
//!
//! Both are modelled by a `ClockView` whose remaining times are a pair.

use vstd::prelude::*;

verus! {

/// Remaining time of each seat, in milliseconds.
pub type TimePair = (u64, u64);

pub open spec fn pair_get(t: TimePair, player: int) -> u64 {
    if player == 0 {
        t.0
    } else {
        t.1
    }
}

pub open spec fn pair_set(t: TimePair, player: int, v: u64) -> TimePair {
    if player == 0 {
        (v, t.1)
    } else {
        (t.0, v)
    }
}

pub open spec fn array_pair(a: [u64; 2]) -> TimePair {
    (a[0], a[1])
}

/// The mathematical state of a room clock.
pub struct ClockView {
    pub remaining: Option<TimePair>,
    pub active_player: Option<usize>,
    pub active_since_ms: Option<u64>,
    pub started: bool,
    pub winner: Option<usize>,
}

/// Snapshot of the clock for room messages.
#[derive(Clone, Copy, Debug, PartialEq, Eq)]
pub struct RoomClockSnapshot {
    pub time_millis: [Option<u64>; 2],
    pub active_player: Option<usize>,
    pub winner: Option<usize>,
}

impl RoomClockSnapshot {
    /// Remaining time of the running seat, when a timeout can still come.
    pub fn timeout_remaining(&self) -> (r: Option<u64>)
        requires
            self.active_player matches Some(p) ==> p < 2,
        ensures
            r == (match self.active_player {
                Some(p) => match self.time_millis[p as int] {
                    Some(ms) => if ms == 0 || self.winner is Some {
                        None
                    } else {
                        Some(ms)
                    },
                    None => None,
                },
                None => None,
            }),
    {
        let p = match self.active_player {
            Some(p) => p,
            None => return None,
        };
        let ms = match self.time_millis[p] {
            Some(ms) => ms,
            None => return None,
        };
        if ms == 0 || self.winner.is_some() {
            return None;
        }
        Some(ms)
    }
}

/// Clock of an in-memory multiplayer room.
pub struct RoomClock {
    pub remaining_ms: Option<[u64; 2]>,
    pub active_player: Option<usize>,
    pub active_since_ms: Option<u64>,
    pub started: bool,
    pub winner: Option<usize>,
}

/// What a clock change did: whether it was applied, and whether the clock
/// state changed (so that scheduled timeouts must be recomputed).
#[derive(Clone, Copy, Debug, PartialEq, Eq)]
pub struct ClockChange {
    pub applied: bool,
    pub changed: bool,
}

/// Seat indices stored in the clock are 0 or 1.
pub open spec fn clock_view_wf(v: ClockView) -> bool {
    &&& v.active_player matches Some(p) ==> p < 2
    &&& v.winner matches Some(w) ==> w < 2
}

/// Minutes of a time control as milliseconds for both seats.
pub open spec fn initial_remaining(time_minutes: Option<u32>) -> Option<TimePair> {
    match time_minutes {
        Some(m) => Some(((m * 60_000) as u64, (m * 60_000) as u64)),
        None => None,
    }
}

/// The in-memory clock after `refresh(now_ms)`: the running seat loses the
/// time elapsed since it became active; at zero the opponent wins.
pub open spec fn refresh_view(v: ClockView, now_ms: u64) -> ClockView {
    if v.winner is Some || !v.started || v.active_player is None || v.active_since_ms is None
        || v.remaining is None || now_ms <= v.active_since_ms.unwrap() {
        v
    } else {
        let p = v.active_player.unwrap();
        let rem = v.remaining.unwrap();
        let elapsed = (now_ms - v.active_since_ms.unwrap()) as u64;
        if elapsed >= pair_get(rem, p as int) {
            ClockView {
                remaining: Some(pair_set(rem, p as int, 0)),
                active_player: None,
                active_since_ms: None,
                winner: Some((1 - p) as usize),
                ..v
            }
        } else {
            ClockView {
                remaining: Some(pair_set(rem, p as int, (pair_get(rem, p as int) - elapsed) as u64)),
                active_since_ms: Some(now_ms),
                ..v
            }
        }
    }
}

impl RoomClock {
    pub open spec fn view(&self) -> ClockView {
        ClockView {
            remaining: match self.remaining_ms {
                Some(a) => Some(array_pair(a)),
                None => None,
            },
            active_player: self.active_player,
            active_since_ms: self.active_since_ms,
            started: self.started,
            winner: self.winner,
        }
    }

    pub open spec fn wf(&self) -> bool {
        clock_view_wf(self.view())
    }

    pub fn new(time_minutes: Option<u32>) -> (r: Self)
        ensures
            r.view() == (ClockView {
                remaining: initial_remaining(time_minutes),
                active_player: None,
                active_since_ms: None,
                started: false,
                winner: None,
            }),
            r.wf(),
    {
        let remaining_ms = match time_minutes {
            Some(minutes) => {
                let millis = (minutes as u64) * 60_000;
                Some([millis, millis])
            },
            None => None,
        };
        RoomClock {
            remaining_ms,
            active_player: None,
            active_since_ms: None,
            started: false,
            winner: None,
        }
    }

    pub fn snapshot(&self) -> (s: RoomClockSnapshot)
        ensures
            s.active_player == self.active_player,
            s.winner == self.winner,
            s.time_millis[0] == (match self.view().remaining {
                Some(t) => Some(t.0),
                None => None,
            }),
            s.time_millis[1] == (match self.view().remaining {
                Some(t) => Some(t.1),
                None => None,
            }),
    {
        let time_millis = match self.remaining_ms {
            Some(remaining) => [Some(remaining[0]), Some(remaining[1])],
            None => [None, None],
        };
        RoomClockSnapshot { time_millis, active_player: self.active_player, winner: self.winner }
    }

    /// Charges the running seat for the time since it became active.
    /// Returns whether the clock changed.
    pub fn refresh(&mut self, now_ms: u64) -> (changed: bool)
        requires
            old(self).wf(),
        ensures
            final(self).view() == refresh_view(old(self).view(), now_ms),
            changed == (refresh_view(old(self).view(), now_ms) != old(self).view()),
            final(self).wf(),
    {
        if self.winner.is_some() || !self.started {
            return false;
        }
        let active_player = match self.active_player {
            Some(p) => p,
            None => return false,
        };
        let active_since_ms = match self.active_since_ms {
            Some(s) => s,
            None => return false,
        };
        let mut remaining = match self.remaining_ms {
            Some(r) => r,
            None => return false,
        };
        let elapsed = now_ms.saturating_sub(active_since_ms);
        if elapsed == 0 {
            return false;
        }
        if elapsed >= remaining[active_player] {
            remaining[active_player] = 0;
            self.remaining_ms = Some(remaining);
            self.winner = Some(1 - active_player);
            self.active_player = None;
            self.active_since_ms = None;
            return true;
        }
        let left = remaining[active_player] - elapsed;
        remaining[active_player] = left;
        self.remaining_ms = Some(remaining);
        self.active_since_ms = Some(now_ms);
        true
    }

    /// Records that `moved_player` has moved and `next_player` is to move.
    /// The first move starts the clock; later moves add the increment to the
    /// mover. Returns whether the clock changed.
    pub fn finish_turn(
        &mut self,
        now_ms: u64,
        moved_player: usize,
        next_player: usize,
        game_over: bool,
        increment_seconds: Option<u32>,
    ) -> (changed: bool)
        requires
            old(self).wf(),
            moved_player < 2,
            next_player < 2,
        ensures
            final(self).wf(),
            final(self).view() == finish_turn_view(
                old(self).view(),
                now_ms,
                moved_player,
                next_player,
                game_over,
                increment_seconds,
            ),
            ({
                let r = refresh_view(old(self).view(), now_ms);
                if r.winner is Some || r.remaining is None {
                    final(self).view() == r && changed == (r != old(self).view())
                } else {
                    &&& changed
                    &&& final(self).started
                    &&& final(self).winner == r.winner
                    &&& final(self).view().remaining == (if r.started {
                        Some(
                            pair_set(
                                r.remaining.unwrap(),
                                moved_player as int,
                                add_ms(
                                    pair_get(r.remaining.unwrap(), moved_player as int),
                                    increment_seconds,
                                ),
                            ),
                        )
                    } else {
                        r.remaining
                    })
                    &&& if game_over {
                        final(self).active_player is None && final(self).active_since_ms is None
                    } else {
                        final(self).active_player == Some(next_player)
                            && final(self).active_since_ms == Some(now_ms)
                    }
                }
            }),
    {
        let changed = self.refresh(now_ms);
        if self.winner.is_some() || self.remaining_ms.is_none() {
            return changed;
        }
        if self.started {
            let mut remaining = self.remaining_ms.unwrap();
            let bonus: u64 = match increment_seconds {
                Some(s) => (s as u64) * 1000,
                None => 0,
            };
            let t = remaining[moved_player].saturating_add(bonus);
            remaining[moved_player] = t;
            self.remaining_ms = Some(remaining);
        } else {
            self.started = true;
        }
        if game_over {
            self.active_player = None;
            self.active_since_ms = None;
        } else {
            self.active_player = Some(next_player);
            self.active_since_ms = Some(now_ms);
        }
        true
    }

    /// Adds `seconds` to a seat's remaining time, after charging the running
    /// seat. Nothing is added once the game is decided or without clocks.
    pub fn add_seconds(&mut self, now_ms: u64, player: usize, seconds: u32) -> (r: ClockChange)
        requires
            old(self).wf(),
        ensures
            final(self).wf(),
            final(self).view() == add_seconds_view(old(self).view(), now_ms, player, seconds),
            ({
                let v = refresh_view(old(self).view(), now_ms);
                if v.winner is Some || v.remaining is None || player >= 2 {
                    final(self).view() == v && !r.applied && r.changed == (v != old(self).view())
                } else {
                    &&& r.applied
                    &&& r.changed
                    &&& final(self).view() == (ClockView {
                        remaining: Some(
                            pair_set(
                                v.remaining.unwrap(),
                                player as int,
                                add_ms(pair_get(v.remaining.unwrap(), player as int), Some(seconds)),
                            ),
                        ),
                        ..v
                    })
                }
            }),
    {
        let changed = self.refresh(now_ms);
        if self.winner.is_some() {
            return ClockChange { applied: false, changed };
        }
        let mut remaining = match self.remaining_ms {
            Some(r) => r,
            None => return ClockChange { applied: false, changed },
        };
        if player >= 2 {
            return ClockChange { applied: false, changed };
        }
        let t = remaining[player].saturating_add((seconds as u64) * 1000);
        remaining[player] = t;
        self.remaining_ms = Some(remaining);
        ClockChange { applied: true, changed: true }
    }

    /// Stops the clock when the game is decided by other means.
    pub fn finish(&mut self, winner: Option<usize>)
        requires
            winner matches Some(w) ==> w < 2,
        ensures
            final(self).view() == (ClockView {
                winner,
                active_player: None,
                active_since_ms: None,
                ..old(self).view()
            }),
            final(self).wf(),
    {
        self.winner = winner;
        self.active_player = None;
        self.active_since_ms = None;
    }
}

/// The in-memory clock after `moved_player` moved and `next_player` is to
/// move (none when the game is over): the running seat is charged first;
/// the first move starts the clock, later moves add the increment to the
/// mover. A decided or untimed clock is only charged.
pub open spec fn finish_turn_view(
    v: ClockView,
    now_ms: u64,
    moved_player: usize,
    next_player: usize,
    game_over: bool,
    increment_seconds: Option<u32>,
) -> ClockView {
    let r = refresh_view(v, now_ms);
    if r.winner is Some || r.remaining is None {
        r
    } else {
        ClockView {
            remaining: if r.started {
                Some(
                    pair_set(
                        r.remaining.unwrap(),
                        moved_player as int,
                        add_ms(pair_get(r.remaining.unwrap(), moved_player as int), increment_seconds),
                    ),
                )
            } else {
                r.remaining
            },
            active_player: if game_over {
                None
            } else {
                Some(next_player)
            },
            active_since_ms: if game_over {
                None
            } else {
                Some(now_ms)
            },
            started: true,
            winner: r.winner,
        }
    }
}

/// The shared room's clock after `finished_player` moved at `now_ms`:
/// untimed or decided clocks stay; the running seat is charged; when the
/// game ended or a seat ran out, nobody runs; otherwise the mover gets the
/// increment and `next_player`'s time runs from now.
pub open spec fn shared_turn_view(
    o: ClockView,
    now_ms: u64,
    finished_player: usize,
    next_player: usize,
    game_over: bool,
    increment_seconds: Option<u32>,
) -> ClockView {
    let t = tick_view(o, now_ms);
    if o.remaining is None || o.winner is Some {
        o
    } else if game_over || t.winner is Some {
        ClockView { active_player: None, active_since_ms: None, ..t }
    } else {
        ClockView {
            remaining: match increment_seconds {
                Some(_) => Some(
                    pair_set(
                        t.remaining.unwrap(),
                        finished_player as int,
                        add_ms(pair_get(t.remaining.unwrap(), finished_player as int), increment_seconds),
                    ),
                ),
                None => t.remaining,
            },
            active_player: Some(next_player),
            active_since_ms: Some(now_ms),
            ..t
        }
    }
}

/// The in-memory clock after `seconds` are added to `player`'s time: the
/// running seat is charged first; nothing is added to a decided or
/// untimed clock, or to a seat that does not exist.
pub open spec fn add_seconds_view(v: ClockView, now_ms: u64, player: usize, seconds: u32) -> ClockView {
    let r = refresh_view(v, now_ms);
    if r.winner is Some || r.remaining is None || player >= 2 {
        r
    } else {
        ClockView {
            remaining: Some(
                pair_set(
                    r.remaining.unwrap(),
                    player as int,
                    add_ms(pair_get(r.remaining.unwrap(), player as int), Some(seconds)),
                ),
            ),
            ..r
        }
    }
}

/// `ms` plus a bonus of whole seconds, saturating at `u64::MAX`.
pub open spec fn add_ms(ms: u64, seconds: Option<u32>) -> u64 {
    let bonus: int = match seconds {
        Some(s) => s * 1000,
        None => 0,
    };
    if ms + bonus > u64::MAX {
        u64::MAX
    } else {
        (ms + bonus) as u64
    }
}

// ── shared-room clock ───────────────────────────────────────────────

/// Clock stored in a shared (Redis) room snapshot. It runs whenever a seat is
/// active; times are computed from the wall clock passed in.
#[derive(Clone, Debug)]
pub struct RedisRoomClock {
    pub remaining_ms: Option<[u64; 2]>,
    pub active_player: Option<usize>,
    pub active_since_ms: Option<u64>,
    pub winner: Option<usize>,
}

/// The shared-room clock after charging the running seat at `now_ms`.
pub open spec fn tick_view(v: ClockView, now_ms: u64) -> ClockView {
    if v.active_player is None || v.active_since_ms is None || v.remaining is None {
        v
    } else {
        let p = v.active_player.unwrap();
        let rem = v.remaining.unwrap();
        let since = v.active_since_ms.unwrap();
        let elapsed: u64 = if now_ms > since { (now_ms - since) as u64 } else { 0 };
        if elapsed >= pair_get(rem, p as int) {
            ClockView {
                remaining: Some(pair_set(rem, p as int, 0)),
                active_player: None,
                active_since_ms: None,
                winner: Some((1 - p) as usize),
                ..v
            }
        } else {
            ClockView {
                remaining: Some(pair_set(rem, p as int, (pair_get(rem, p as int) - elapsed) as u64)),
                active_since_ms: Some(now_ms),
                ..v
            }
        }
    }
}

/// Whether `tick_view` ends the game on time.
pub open spec fn tick_times_out(v: ClockView, now_ms: u64) -> bool {
    &&& v.active_player is Some
    &&& v.active_since_ms is Some
    &&& v.remaining is Some
    &&& {
        let since = v.active_since_ms.unwrap();
        let elapsed: u64 = if now_ms > since { (now_ms - since) as u64 } else { 0 };
        elapsed >= pair_get(v.remaining.unwrap(), v.active_player.unwrap() as int)
    }
}

/// The time a shared clock shows for seat `i` at `now_ms`: the running
/// seat's stored time less what has elapsed since it became active.
pub open spec fn shown_time(v: ClockView, i: int, now_ms: u64) -> Option<u64> {
    match v.remaining {
        Some(t) => Some(
            if v.active_player == Some(i as usize) && v.active_since_ms is Some {
                sat_sub(pair_get(t, i), sat_sub(now_ms, v.active_since_ms.unwrap()))
            } else {
                pair_get(t, i)
            },
        ),
        None => None,
    }
}

pub open spec fn sat_sub(a: u64, b: u64) -> u64 {
    if a > b { (a - b) as u64 } else { 0 }
}

impl RedisRoomClock {
    pub open spec fn view(&self) -> ClockView {
        ClockView {
            remaining: match self.remaining_ms {
                Some(a) => Some(array_pair(a)),
                None => None,
            },
            active_player: self.active_player,
            active_since_ms: self.active_since_ms,
            started: true,
            winner: self.winner,
        }
    }

    pub open spec fn wf(&self) -> bool {
        clock_view_wf(self.view())
    }

    pub fn new(time_minutes: Option<u32>) -> (r: Self)
        ensures
            r.view() == (ClockView {
                remaining: initial_remaining(time_minutes),
                active_player: None,
                active_since_ms: None,
                started: true,
                winner: None,
            }),
            r.wf(),
    {
        let remaining_ms = match time_minutes {
            Some(minutes) => {
                let millis = (minutes as u64) * 60_000;
                Some([millis, millis])
            },
            None => None,
        };
        RedisRoomClock { remaining_ms, active_player: None, active_since_ms: None, winner: None }
    }

    /// The times to show at `now_ms`: the running seat is charged for the
    /// time since it became active, without changing the stored clock.
    pub fn snapshot(&self, now_ms: u64) -> (s: RoomClockSnapshot)
        requires
            self.wf(),
        ensures
            s.active_player == self.active_player,
            s.winner == self.winner,
            forall|i: int|
                #![trigger s.time_millis[i]]
                0 <= i < 2 ==> s.time_millis[i] == shown_time(self.view(), i, now_ms),
    {
        let mut time_millis = match self.remaining_ms {
            Some(remaining) => [Some(remaining[0]), Some(remaining[1])],
            None => [None, None],
        };
        if let (Some(player), Some(since), Some(remaining)) = (
            self.active_player,
            self.active_since_ms,
            self.remaining_ms,
        ) {
            let elapsed = now_ms.saturating_sub(since);
            time_millis[player] = Some(remaining[player].saturating_sub(elapsed));
        }
        RoomClockSnapshot { time_millis, active_player: self.active_player, winner: self.winner }
    }

    /// Starts `player`'s time at `now_ms`, unless the room is untimed or
    /// decided.
    pub fn mark_active(&mut self, player: usize, now_ms: u64)
        requires
            old(self).wf(),
            player < 2,
        ensures
            final(self).wf(),
            final(self).view() == (if old(self).remaining_ms is None || old(self).winner is Some {
                old(self).view()
            } else {
                ClockView {
                    active_player: Some(player),
                    active_since_ms: Some(now_ms),
                    ..old(self).view()
                }
            }),
    {
        if self.remaining_ms.is_none() || self.winner.is_some() {
            return;
        }
        self.active_player = Some(player);
        self.active_since_ms = Some(now_ms);
    }

    /// Charges the running seat at `now_ms`; returns whether it ran out of
    /// time (then the opponent wins).
    pub fn tick_active(&mut self, now_ms: u64) -> (timed_out: bool)
        requires
            old(self).wf(),
        ensures
            final(self).wf(),
            final(self).view() == tick_view(old(self).view(), now_ms),
            timed_out == tick_times_out(old(self).view(), now_ms),
    {
        let (player, since) = match (self.active_player, self.active_since_ms) {
            (Some(p), Some(s)) => (p, s),
            _ => return false,
        };
        let mut remaining = match self.remaining_ms {
            Some(r) => r,
            None => return false,
        };
        let elapsed = now_ms.saturating_sub(since);
        if elapsed >= remaining[player] {
            remaining[player] = 0;
            self.remaining_ms = Some(remaining);
            self.winner = Some(1 - player);
            self.active_player = None;
            self.active_since_ms = None;
            return true;
        }
        let left = remaining[player] - elapsed;
        remaining[player] = left;
        self.remaining_ms = Some(remaining);
        self.active_since_ms = Some(now_ms);
        false
    }

    /// Ends `finished_player`'s turn at `now_ms`: charges the running seat,
    /// adds the increment to the mover and starts `next_player`'s time.
    pub fn finish_turn(
        &mut self,
        finished_player: usize,
        next_player: usize,
        game_over: bool,
        increment_seconds: Option<u32>,
        now_ms: u64,
    )
        requires
            old(self).wf(),
            finished_player < 2,
            next_player < 2,
        ensures
            final(self).wf(),
            final(self).view() == shared_turn_view(
                old(self).view(),
                now_ms,
                finished_player,
                next_player,
                game_over,
                increment_seconds,
            ),
    {
        if self.remaining_ms.is_none() || self.winner.is_some() {
            return;
        }
        self.tick_active(now_ms);
        if game_over || self.winner.is_some() {
            self.active_player = None;
            self.active_since_ms = None;
            return;
        }
        if let Some(inc) = increment_seconds {
            let mut remaining = self.remaining_ms.unwrap();
            let t = remaining[finished_player].saturating_add((inc as u64) * 1000);
            remaining[finished_player] = t;
            self.remaining_ms = Some(remaining);
        }
        self.active_player = Some(next_player);
        self.active_since_ms = Some(now_ms);
    }

    /// Adds `seconds` to `player`'s time after charging the running seat;
    /// false for untimed or already decided rooms.
    pub fn add_seconds(&mut self, player: usize, seconds: u32, now_ms: u64) -> (added: bool)
        requires
            old(self).wf(),
            player < 2,
        ensures
            final(self).wf(),
            ({
                let o = old(self).view();
                let t = tick_view(o, now_ms);
                if o.remaining is None || o.winner is Some {
                    *final(self) == *old(self) && !added
                } else {
                    &&& added
                    &&& final(self).view() == (ClockView {
                        remaining: Some(
                            pair_set(
                                t.remaining.unwrap(),
                                player as int,
                                add_ms(pair_get(t.remaining.unwrap(), player as int), Some(seconds)),
                            ),
                        ),
                        ..t
                    })
                }
            }),
    {
        if self.remaining_ms.is_none() || self.winner.is_some() {
            return false;
        }
        self.tick_active(now_ms);
        let mut remaining = self.remaining_ms.unwrap();
        let t = remaining[player].saturating_add((seconds as u64) * 1000);
        remaining[player] = t;
        self.remaining_ms = Some(remaining);
        true
    }

    /// When the running seat's time will run out, if a seat is running.
    pub fn timeout_deadline_ms(&self) -> (r: Option<u64>)
        requires
            self.wf(),
        ensures
            r == (if self.active_player is Some && self.active_since_ms is Some
                && self.remaining_ms is Some {
                Some(add_sat(self.active_since_ms.unwrap(), pair_get(
                    self.view().remaining.unwrap(),
                    self.active_player.unwrap() as int,
                )))
            } else {
                None
            }),
    {
        let player = match self.active_player {
            Some(p) => p,
            None => return None,
        };
        let since = match self.active_since_ms {
            Some(s) => s,
            None => return None,
        };
        let remaining = match self.remaining_ms {
            Some(r) => r,
            None => return None,
        };
        Some(since.saturating_add(remaining[player]))
    }
}

pub open spec fn add_sat(a: u64, b: u64) -> u64 {
    if a + b > u64::MAX { u64::MAX } else { (a + b) as u64 }
}

// ── laws ────────────────────────────────────────────────────────────

/// The clock is wall-clock driven: refreshing at `t1` and then at a later
/// `t2` leaves the same state as refreshing once at `t2`.
pub proof fn lemma_refresh_composes(v: ClockView, t1: u64, t2: u64)
    requires
        clock_view_wf(v),
        t1 <= t2,
    ensures
        refresh_view(refresh_view(v, t1), t2) == refresh_view(v, t2),
{
}

/// A decided clock never changes again when refreshed.
pub proof fn lemma_decided_clock_is_frozen(v: ClockView, now_ms: u64)
    requires
        v.winner is Some,
    ensures
        refresh_view(v, now_ms) == v,
{
}

/// Refreshing never gives a seat more time, and only the running seat loses
/// time.
pub proof fn lemma_refresh_only_charges_running_seat(v: ClockView, now_ms: u64, player: int)
    requires
        clock_view_wf(v),
        v.remaining is Some,
        0 <= player < 2,
    ensures
        refresh_view(v, now_ms).remaining is Some,
        pair_get(refresh_view(v, now_ms).remaining.unwrap(), player) <= pair_get(
            v.remaining.unwrap(),
            player,
        ),
        v.active_player != Some(player as usize) ==> pair_get(
            refresh_view(v, now_ms).remaining.unwrap(),
            player,
        ) == pair_get(v.remaining.unwrap(), player),
{
}


/// Time added at `now_ms` stands: refreshing again at the same instant
/// changes nothing.
pub proof fn lemma_added_time_is_settled(v: ClockView, now_ms: u64, player: usize, seconds: u32)
    requires
        clock_view_wf(v),
    ensures
        refresh_view(add_seconds_view(v, now_ms, player, seconds), now_ms) == add_seconds_view(
            v,
            now_ms,
            player,
            seconds,
        ),
{
    lemma_refresh_composes(v, now_ms, now_ms);
}


/// Running out of time loses the game: once the running seat has used all
/// of its time, the shared clock shows that seat at zero, the other seat as
/// the winner and no clock running; the other seat's time is untouched.
pub proof fn lemma_shared_timeout_goes_to_opponent(v: ClockView, now_ms: u64)
    requires
        clock_view_wf(v),
        v.active_player is Some,
        v.active_since_ms is Some,
        v.remaining is Some,
        (if now_ms > v.active_since_ms.unwrap() {
            now_ms - v.active_since_ms.unwrap()
        } else {
            0
        }) >= pair_get(v.remaining.unwrap(), v.active_player.unwrap() as int),
    ensures
        ({
            let p = v.active_player.unwrap();
            let r = tick_view(v, now_ms);
            &&& r.winner == Some((1 - p) as usize)
            &&& r.winner != Some(p)
            &&& r.active_player is None
            &&& r.remaining is Some
            &&& pair_get(r.remaining.unwrap(), p as int) == 0
            &&& pair_get(r.remaining.unwrap(), 1 - p) == pair_get(v.remaining.unwrap(), 1 - p)
        }),
{
}

/// Before the running seat runs out, the shared clock only charges it the
/// time since its turn began; nobody wins and the other seat keeps its time.
pub proof fn lemma_shared_tick_charges_running_seat(v: ClockView, now_ms: u64)
    requires
        clock_view_wf(v),
        v.winner is None,
        v.active_player is Some,
        v.active_since_ms is Some,
        v.remaining is Some,
        (if now_ms > v.active_since_ms.unwrap() {
            now_ms - v.active_since_ms.unwrap()
        } else {
            0
        }) < pair_get(v.remaining.unwrap(), v.active_player.unwrap() as int),
    ensures
        ({
            let p = v.active_player.unwrap();
            let since = v.active_since_ms.unwrap();
            let used: int = if now_ms > since { now_ms - since } else { 0 };
            let r = tick_view(v, now_ms);
            &&& r.winner is None
            &&& r.active_player == Some(p)
            &&& r.remaining is Some
            &&& pair_get(r.remaining.unwrap(), p as int) == pair_get(v.remaining.unwrap(), p as int) - used
            &&& pair_get(r.remaining.unwrap(), 1 - p) == pair_get(v.remaining.unwrap(), 1 - p)
        }),
{
    let p = v.active_player.unwrap();
    let since = v.active_since_ms.unwrap();
    let elapsed: u64 = if now_ms > since { (now_ms - since) as u64 } else { 0 };
    assert(elapsed < pair_get(v.remaining.unwrap(), p as int));
    if p == 0 {
    } else {
        assert(p == 1);
    }
}

/// The increment goes to the player who moved: after a move that does not
/// end the game, and while no seat has run out, the mover holds the time it
/// had less what its turn used, plus the increment (at most `u64::MAX`);
/// the other seat's time is untouched; the next player's clock runs from
/// now.
pub proof fn lemma_shared_turn_increment_goes_to_mover(
    o: ClockView,
    now_ms: u64,
    mover: usize,
    next_player: usize,
    increment: u32,
)
    requires
        clock_view_wf(o),
        mover < 2,
        next_player < 2,
        o.remaining is Some,
        o.winner is None,
        o.active_player != Some((1 - mover) as usize),
        o.active_player == Some(mover) ==> o.active_since_ms is Some && (if now_ms > o.active_since_ms.unwrap() {
            now_ms - o.active_since_ms.unwrap()
        } else {
            0
        }) < pair_get(o.remaining.unwrap(), mover as int),
    ensures
        ({
            let r = shared_turn_view(o, now_ms, mover, next_player, false, Some(increment));
            let before = o.remaining.unwrap();
            let used: int = if o.active_player == Some(mover) && now_ms > o.active_since_ms.unwrap() {
                now_ms - o.active_since_ms.unwrap()
            } else {
                0
            };
            let earned: int = pair_get(before, mover as int) - used + increment * 1000;
            &&& r.remaining is Some
            &&& pair_get(r.remaining.unwrap(), mover as int) == (if earned > u64::MAX {
                u64::MAX as int
            } else {
                earned
            })
            &&& pair_get(r.remaining.unwrap(), 1 - mover) == pair_get(before, 1 - mover)
            &&& r.active_player == Some(next_player)
            &&& r.active_since_ms == Some(now_ms)
            &&& r.winner is None
        }),
{
    let t = tick_view(o, now_ms);
    if o.active_player == Some(mover) {
        lemma_shared_tick_charges_running_seat(o, now_ms);
    } else {
        assert(t == o);
    }
    assert(t.winner is None);
    if mover == 0 {
    } else {
        assert(mover == 1);
    }
}


/// Running out of time loses the game: once a started clock's running seat
/// has used all of its time, the seat shows zero, the other seat wins and
/// no clock runs; the other seat's time is untouched.
pub proof fn lemma_timeout_goes_to_opponent(v: ClockView, now_ms: u64)
    requires
        clock_view_wf(v),
        v.winner is None,
        v.started,
        v.active_player is Some,
        v.active_since_ms is Some,
        v.remaining is Some,
        now_ms > v.active_since_ms.unwrap(),
        now_ms - v.active_since_ms.unwrap() >= pair_get(v.remaining.unwrap(), v.active_player.unwrap() as int),
    ensures
        ({
            let p = v.active_player.unwrap();
            let r = refresh_view(v, now_ms);
            &&& r.winner == Some((1 - p) as usize)
            &&& r.winner != Some(p)
            &&& r.active_player is None
            &&& r.remaining is Some
            &&& pair_get(r.remaining.unwrap(), p as int) == 0
            &&& pair_get(r.remaining.unwrap(), 1 - p) == pair_get(v.remaining.unwrap(), 1 - p)
        }),
{
    if v.active_player.unwrap() == 0 {
    } else {
        assert(v.active_player.unwrap() == 1);
    }
}

/// The increment goes to the player who moved: after a move on a started
/// clock, while no seat has run out, the mover holds the time it had less
/// what its turn used, plus the increment (at most `u64::MAX`); the other
/// seat's time is untouched; the next player's clock runs from now unless
/// the game ended.
pub proof fn lemma_turn_increment_goes_to_mover(
    v: ClockView,
    now_ms: u64,
    mover: usize,
    next_player: usize,
    game_over: bool,
    increment_seconds: Option<u32>,
)
    requires
        clock_view_wf(v),
        mover < 2,
        next_player < 2,
        v.started,
        v.remaining is Some,
        v.winner is None,
        v.active_player != Some((1 - mover) as usize),
        v.active_player == Some(mover) ==> v.active_since_ms is Some && (if now_ms > v.active_since_ms.unwrap() {
            now_ms - v.active_since_ms.unwrap()
        } else {
            0
        }) < pair_get(v.remaining.unwrap(), mover as int),
    ensures
        ({
            let r = finish_turn_view(v, now_ms, mover, next_player, game_over, increment_seconds);
            let before = v.remaining.unwrap();
            let used: int = if v.active_player == Some(mover) && v.active_since_ms is Some && now_ms
                > v.active_since_ms.unwrap() {
                now_ms - v.active_since_ms.unwrap()
            } else {
                0
            };
            let bonus: int = match increment_seconds {
                Some(sec) => sec * 1000,
                None => 0,
            };
            let earned: int = pair_get(before, mover as int) - used + bonus;
            &&& r.remaining is Some
            &&& pair_get(r.remaining.unwrap(), mover as int) == (if earned > u64::MAX {
                u64::MAX as int
            } else {
                earned
            })
            &&& pair_get(r.remaining.unwrap(), 1 - mover) == pair_get(before, 1 - mover)
            &&& r.active_player == (if game_over { None } else { Some(next_player) })
            &&& r.winner is None
        }),
{
    if mover == 0 {
    } else {
        assert(mover == 1);
    }
}


/// Added time goes to the named seat only: on a clock that is not decided
/// once brought up to date, the seat gets exactly the bonus on top of its
/// up-to-date time (at most `u64::MAX`), and the other seat's time is what
/// bringing the clock up to date alone leaves.
pub proof fn lemma_added_time_goes_to_named_seat(v: ClockView, now_ms: u64, player: usize, seconds: u32)
    requires
        clock_view_wf(v),
        player < 2,
        refresh_view(v, now_ms).winner is None,
        v.remaining is Some,
    ensures
        ({
            let up = refresh_view(v, now_ms);
            let r = add_seconds_view(v, now_ms, player, seconds);
            let sum: int = pair_get(up.remaining.unwrap(), player as int) + seconds * 1000;
            &&& up.remaining is Some
            &&& r.remaining is Some
            &&& pair_get(r.remaining.unwrap(), player as int) == (if sum > u64::MAX {
                u64::MAX as int
            } else {
                sum
            })
            &&& pair_get(r.remaining.unwrap(), 1 - player) == pair_get(up.remaining.unwrap(), 1 - player)
            &&& r.active_player == up.active_player
            &&& r.winner is None
        }),
{
    if player == 0 {
    } else {
        assert(player == 1);
    }
}

} // verus!