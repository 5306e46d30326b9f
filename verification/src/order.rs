//! Listing order: replays newest first, lobby rooms most recently active
//! first, with ties broken by the text of their ids or codes.

use vstd::prelude::*;
use vstd::multiset::Multiset;
use vstd::seq_lib::{to_multiset_insert, to_multiset_remove};
use crate::text::chars_of;
use crate::protocol::{MultiplayerLobbyRoom, ReplayEntry};
use crate::page::ReplayEntryWithAccount;

verus! {

/// `a < b` for strings: lexicographic by character, a proper prefix first.
pub open spec fn text_lt(a: Seq<char>, b: Seq<char>) -> bool
    decreases a.len(),
{
    if a.len() == 0 {
        b.len() > 0
    } else if b.len() == 0 {
        false
    } else if a[0] != b[0] {
        (a[0] as int) < (b[0] as int)
    } else {
        text_lt(a.drop_first(), b.drop_first())
    }
}

pub proof fn lemma_text_lt_irreflexive(a: Seq<char>)
    ensures
        !text_lt(a, a),
    decreases a.len(),
{
    if a.len() > 0 {
        lemma_text_lt_irreflexive(a.drop_first());
    }
}

pub proof fn lemma_text_lt_order(a: Seq<char>, b: Seq<char>, c: Seq<char>)
    ensures
        !text_lt(a, a),
        text_lt(a, b) ==> !text_lt(b, a),
        text_lt(a, b) && text_lt(b, c) ==> text_lt(a, c),
        !text_lt(a, b) && !text_lt(b, a) ==> a == b,
    decreases a.len(),
{
    lemma_text_lt_irreflexive(a);
    if a.len() == 0 {
        if b.len() == 0 {
            assert(a =~= b);
        }
    } else if b.len() == 0 {
    } else {
        let c2 = if c.len() == 0 {
            b.drop_first()
        } else {
            c.drop_first()
        };
        lemma_text_lt_order(a.drop_first(), b.drop_first(), c2);
        if a[0] == b[0] && !text_lt(a, b) && !text_lt(b, a) {
            assert(a.drop_first() == b.drop_first());
            assert(a =~= seq![a[0]] + a.drop_first());
            assert(b =~= seq![b[0]] + b.drop_first());
            assert(a =~= b);
        }
    }
}

/// `a < b` for strings, as `str`'s ordering compares them.
pub fn text_less(a: &str, b: &str) -> (r: bool)
    ensures
        r == text_lt(a@, b@),
{
    let av = chars_of(a);
    let bv = chars_of(b);
    let mut i: usize = 0;
    assert(av@.skip(0) =~= av@);
    assert(bv@.skip(0) =~= bv@);
    while i < av.len() && i < bv.len()
        invariant
            i <= av.len(),
            i <= bv.len(),
            text_lt(a@, b@) == text_lt(av@.skip(i as int), bv@.skip(i as int)),
            av@ == a@,
            bv@ == b@,
        decreases av.len() - i,
    {
        let x = av[i];
        let y = bv[i];
        assert(av@.skip(i as int)[0] == x);
        assert(bv@.skip(i as int)[0] == y);
        if x != y {
            return x < y;
        }
        assert(av@.skip(i as int).drop_first() =~= av@.skip(i + 1));
        assert(bv@.skip(i as int).drop_first() =~= bv@.skip(i + 1));
        i += 1;
    }
    i == av.len() && i < bv.len()
}

/// A listing order: `precedes(a, b)` when `a` is listed strictly before
/// `b`. It is a strict weak order.
pub trait ListingOrder: Sized {
    spec fn precedes(a: &Self, b: &Self) -> bool;

    proof fn lemma_strict_weak_order(a: &Self, b: &Self, c: &Self)
        ensures
            !Self::precedes(a, a),
            Self::precedes(a, b) ==> !Self::precedes(b, a),
            Self::precedes(a, b) && Self::precedes(b, c) ==> Self::precedes(a, c),
            !Self::precedes(a, b) && !Self::precedes(b, a) && Self::precedes(a, c) ==> Self::precedes(
                b,
                c,
            ),
    ;

    fn listed_before(a: &Self, b: &Self) -> (r: bool)
        ensures
            r == Self::precedes(a, b),
    ;
}

/// No element is listed strictly before one that comes earlier.
pub open spec fn in_listing_order<T: ListingOrder>(s: Seq<T>) -> bool {
    forall|i: int, j: int| 0 <= i < j < s.len() ==> !T::precedes(&s[j], &s[i])
}

/// Neither is listed before the other.
pub open spec fn ties<T: ListingOrder>(a: T, b: T) -> bool {
    !T::precedes(&a, &b) && !T::precedes(&b, &a)
}

/// `idx` lists `n` distinct positions out of `0..n`: a reordering.
pub open spec fn is_reordering(idx: Seq<int>, n: int) -> bool {
    &&& idx.len() == n
    &&& forall|k: int| 0 <= k < n ==> 0 <= #[trigger] idx[k] < n
    &&& forall|k1: int, k2: int| 0 <= k1 < k2 < n ==> #[trigger] idx[k1] != #[trigger] idx[k2]
}

/// `r` is `v` reordered by `idx`, and elements that tie keep the order
/// they had in `v`.
pub open spec fn stable_reordering<T: ListingOrder>(r: Seq<T>, v: Seq<T>, idx: Seq<int>) -> bool {
    &&& r.len() == v.len()
    &&& is_reordering(idx, v.len() as int)
    &&& forall|k: int| 0 <= k < r.len() ==> #[trigger] r[k] == v[idx[k]]
    &&& forall|k1: int, k2: int|
        0 <= k1 < k2 < r.len() && ties(#[trigger] r[k1], #[trigger] r[k2]) ==> idx[k1] < idx[k2]
}

/// Sorts into listing order, keeping the order of elements that neither
/// precedes (a stable sort).
pub fn sort_listing<T: ListingOrder>(v: Vec<T>) -> (r: Vec<T>)
    ensures
        r@.to_multiset() == v@.to_multiset(),
        in_listing_order(r@),
        exists|idx: Seq<int>| stable_reordering(r@, v@, idx),
{
    let ghost all = v@;
    let mut input = v;
    let mut out: Vec<T> = Vec::new();
    let ghost mut idx: Seq<int> = Seq::empty();
    proof {
        broadcast use vstd::multiset::group_multiset_axioms;

        vstd::seq_lib::to_multiset_len(out@);
        vstd::multiset::lemma_multiset_empty_len(out@.to_multiset());
        assert(out@.to_multiset().add(input@.to_multiset()) =~= all.to_multiset());
        assert(input@ =~= all.skip(0));
    }
    while input.len() > 0
        invariant
            out@.to_multiset().add(input@.to_multiset()) == all.to_multiset(),
            in_listing_order(out@),
            out@.len() + input@.len() == all.len(),
            input@ == all.skip(out@.len() as int),
            is_reordering(idx, out@.len() as int),
            forall|k: int| 0 <= k < out@.len() ==> #[trigger] out@[k] == all[idx[k]],
            forall|k1: int, k2: int|
                0 <= k1 < k2 < out@.len() && ties(#[trigger] out@[k1], #[trigger] out@[k2]) ==> idx[k1]
                    < idx[k2],
        decreases input.len(),
    {
        let ghost n = out@.len() as int;
        proof {
            to_multiset_remove(input@, 0);
            vstd::seq_lib::to_multiset_contains(input@, input@[0]);
            assert(input@.contains(input@[0]));
        }
        let x = input.remove(0);
        proof {
            assert(x == all[n]);
            assert(input@ =~= all.skip(n + 1));
        }
        let mut p: usize = 0;
        while p < out.len() && !T::listed_before(&x, &out[p])
            invariant
                p <= out.len(),
                forall|k: int| 0 <= k < p ==> !T::precedes(&x, #[trigger] &out@[k]),
            decreases out.len() - p,
        {
            p += 1;
        }
        let ghost before = out@;
        let ghost old_idx = idx;
        proof {
            to_multiset_insert(out@, p as int, x);
        }
        out.insert(p, x);
        proof {
            idx = old_idx.insert(p as int, n);
            assert(out@ == before.insert(p as int, x));
            assert forall|i: int, j: int| 0 <= i < j < out@.len() implies !T::precedes(
                &out@[j],
                &out@[i],
            ) by {
                if j < p {
                    assert(out@[i] == before[i] && out@[j] == before[j]);
                } else if j == p {
                    assert(out@[i] == before[i]);
                } else if i == p {
                    assert(out@[j] == before[j - 1]);
                    assert(T::precedes(&x, &before[p as int]));
                    if j - 1 > p {
                        T::lemma_strict_weak_order(&before[j - 1], &x, &before[p as int]);
                    } else {
                        T::lemma_strict_weak_order(&x, &before[p as int], &x);
                    }
                } else if i < p {
                    assert(out@[i] == before[i] && out@[j] == before[j - 1]);
                } else {
                    assert(out@[i] == before[i - 1] && out@[j] == before[j - 1]);
                }
            }
            assert forall|k: int| 0 <= k < n + 1 implies 0 <= #[trigger] idx[k] < n + 1 by {
                if k < p {
                    assert(idx[k] == old_idx[k]);
                } else if k > p {
                    assert(idx[k] == old_idx[k - 1]);
                }
            }
            assert forall|k1: int, k2: int| 0 <= k1 < k2 < n + 1 implies #[trigger] idx[k1]
                != #[trigger] idx[k2] by {
                let a = if k1 < p { k1 } else { k1 - 1 };
                let b = if k2 < p { k2 } else { k2 - 1 };
                if k1 != p && k2 != p {
                    assert(idx[k1] == old_idx[a] && idx[k2] == old_idx[b]);
                } else if k1 == p {
                    assert(idx[k2] == old_idx[b]);
                    assert(0 <= old_idx[b] < n);
                } else {
                    assert(idx[k1] == old_idx[a]);
                    assert(0 <= old_idx[a] < n);
                }
            }
            assert forall|k: int| 0 <= k < out@.len() implies #[trigger] out@[k] == all[idx[k]] by {
                if k < p {
                    assert(out@[k] == before[k] && idx[k] == old_idx[k]);
                } else if k > p {
                    assert(out@[k] == before[k - 1] && idx[k] == old_idx[k - 1]);
                }
            }
            assert forall|k1: int, k2: int|
                0 <= k1 < k2 < out@.len() && ties(#[trigger] out@[k1], #[trigger] out@[k2]) implies idx[k1]
                < idx[k2] by {
                if k1 != p && k2 != p {
                    let a = if k1 < p { k1 } else { k1 - 1 };
                    let b = if k2 < p { k2 } else { k2 - 1 };
                    assert(out@[k1] == before[a] && out@[k2] == before[b]);
                    assert(idx[k1] == old_idx[a] && idx[k2] == old_idx[b]);
                    assert(ties(before[a], before[b]));
                } else if k2 == p {
                    assert(idx[k1] == old_idx[k1]);
                    assert(0 <= old_idx[k1] < n);
                } else {
                    // k1 == p: x ties an element listed after its place,
                    // which cannot happen.
                    assert(out@[k2] == before[k2 - 1]);
                    assert(T::precedes(&x, &before[p as int]));
                    if k2 - 1 > p {
                        T::lemma_strict_weak_order(&x, &before[k2 - 1], &before[p as int]);
                    }
                    assert(false);
                }
            }
            broadcast use vstd::multiset::group_multiset_axioms;

            assert(out@.to_multiset().add(input@.to_multiset()) =~= all.to_multiset());
        }
    }
    proof {
        broadcast use vstd::multiset::group_multiset_axioms;

        vstd::seq_lib::to_multiset_len(input@);
        vstd::multiset::lemma_multiset_empty_len(input@.to_multiset());
        assert(out@.to_multiset() =~= all.to_multiset());
        assert(stable_reordering(out@, all, idx));
    }
    out
}


// ── the orders ──────────────────────────────────────────────────────

/// Newer saves first; among saves of the same millisecond, the larger id
/// first.
pub open spec fn replay_precedes(a_saved: u64, a_id: Seq<char>, b_saved: u64, b_id: Seq<char>) -> bool {
    a_saved > b_saved || (a_saved == b_saved && text_lt(b_id, a_id))
}

impl ListingOrder for ReplayEntry {
    open spec fn precedes(a: &Self, b: &Self) -> bool {
        replay_precedes(a.saved_at_ms, a.id@, b.saved_at_ms, b.id@)
    }

    proof fn lemma_strict_weak_order(a: &Self, b: &Self, c: &Self) {
        lemma_text_lt_order(c.id@, b.id@, a.id@);
        lemma_text_lt_order(b.id@, a.id@, c.id@);
        lemma_text_lt_order(a.id@, c.id@, b.id@);
    }

    fn listed_before(a: &Self, b: &Self) -> (r: bool) {
        a.saved_at_ms > b.saved_at_ms || (a.saved_at_ms == b.saved_at_ms && text_less(
            b.id.as_str(),
            a.id.as_str(),
        ))
    }
}

impl ListingOrder for ReplayEntryWithAccount {
    open spec fn precedes(a: &Self, b: &Self) -> bool {
        replay_precedes(a.entry.saved_at_ms, a.entry.id@, b.entry.saved_at_ms, b.entry.id@)
    }

    proof fn lemma_strict_weak_order(a: &Self, b: &Self, c: &Self) {
        ReplayEntry::lemma_strict_weak_order(&a.entry, &b.entry, &c.entry);
    }

    fn listed_before(a: &Self, b: &Self) -> (r: bool) {
        ReplayEntry::listed_before(&a.entry, &b.entry)
    }
}

/// Most recently active first; among rooms active in the same
/// millisecond, the smaller code first.
pub open spec fn lobby_precedes(a_last: u64, a_code: Seq<char>, b_last: u64, b_code: Seq<char>) -> bool {
    a_last > b_last || (a_last == b_last && text_lt(a_code, b_code))
}

impl ListingOrder for MultiplayerLobbyRoom {
    open spec fn precedes(a: &Self, b: &Self) -> bool {
        lobby_precedes(a.last_activity_ms, a.code@, b.last_activity_ms, b.code@)
    }

    proof fn lemma_strict_weak_order(a: &Self, b: &Self, c: &Self) {
        lemma_text_lt_order(a.code@, b.code@, c.code@);
        lemma_text_lt_order(b.code@, c.code@, a.code@);
        lemma_text_lt_order(c.code@, a.code@, b.code@);
    }

    fn listed_before(a: &Self, b: &Self) -> (r: bool) {
        a.last_activity_ms > b.last_activity_ms || (a.last_activity_ms == b.last_activity_ms
            && text_less(a.code.as_str(), b.code.as_str()))
    }
}

/// An account's replays in listing order: newest first.
pub fn sort_replays(entries: Vec<ReplayEntry>) -> (r: Vec<ReplayEntry>)
    ensures
        r@.to_multiset() == entries@.to_multiset(),
        in_listing_order(r@),
        exists|idx: Seq<int>| stable_reordering(r@, entries@, idx),
{
    sort_listing(entries)
}

/// The newest `limit` replays over all accounts, newest first.
pub fn newest_replays(entries: Vec<ReplayEntryWithAccount>, limit: usize) -> (r: Vec<
    ReplayEntryWithAccount,
>)
    ensures
        r@.len() == if entries@.len() < limit {
            entries@.len()
        } else {
            limit as nat
        },
        in_listing_order(r@),
        exists|sorted: Seq<ReplayEntryWithAccount>, idx: Seq<int>|
            sorted.to_multiset() == entries@.to_multiset() && in_listing_order(sorted)
                && stable_reordering(sorted, entries@, idx) && r@ == sorted.take(r@.len() as int),
{
    let ghost input = entries@;
    let mut sorted = sort_listing(entries);
    let ghost all = sorted@;
    proof {
        vstd::seq_lib::to_multiset_len(all);
        vstd::seq_lib::to_multiset_len(input);
    }
    sorted.truncate(limit);
    assert(sorted@ == all.take(sorted@.len() as int));
    sorted
}

/// Lobby rooms in listing order: most recently active first, then by code.
pub fn sort_lobby_rooms(rooms: Vec<MultiplayerLobbyRoom>) -> (r: Vec<MultiplayerLobbyRoom>)
    ensures
        r@.to_multiset() == rooms@.to_multiset(),
        in_listing_order(r@),
        exists|idx: Seq<int>| stable_reordering(r@, rooms@, idx),
{
    sort_listing(rooms)
}

} // verus!
