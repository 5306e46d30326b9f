//! A game's timeline: the actions played so far, each marked as a decision
//! or a chance outcome, and the cursor that browses it. Undo steps back to
//! the last decision; redo replays a decision with the chance outcomes that
//! followed it.

use vstd::prelude::*;
use crate::text::{extend_str, string_of};
use crate::numtext::{decimal, push_decimal};
use crate::identity::string_views;

verus! {

/// The entry undo steps back to from `cursor`: the last decision before
/// it, skipping chance outcomes.
pub open spec fn spec_undo_target(is_chance: Seq<bool>, cursor: int) -> Option<int>
    decreases cursor,
{
    if cursor <= 0 {
        None
    } else if !is_chance[cursor - 1] {
        Some(cursor - 1)
    } else {
        spec_undo_target(is_chance, cursor - 1)
    }
}

/// The first position at or after `c` that is not a chance outcome.
pub open spec fn skip_chance(is_chance: Seq<bool>, c: int) -> int
    decreases is_chance.len() - c,
{
    if 0 <= c < is_chance.len() && is_chance[c] {
        skip_chance(is_chance, c + 1)
    } else {
        c
    }
}

/// Where redo from `cursor` lands: past the next entry and every chance
/// outcome right after it; nothing to redo at the end.
pub open spec fn spec_redo_cursor(is_chance: Seq<bool>, cursor: int) -> Option<int> {
    if 0 <= cursor < is_chance.len() {
        Some(skip_chance(is_chance, cursor + 1))
    } else {
        None
    }
}

/// A cursor at rest: at the end, or before a decision.
pub open spec fn at_rest(is_chance: Seq<bool>, cursor: int) -> bool {
    cursor == is_chance.len() || (0 <= cursor < is_chance.len() && !is_chance[cursor])
}

/// Finds the entry undo steps back to.
pub fn undo_target(is_chance: &[bool], cursor: usize) -> (r: Option<usize>)
    requires
        cursor <= is_chance@.len(),
    ensures
        r matches Some(t) ==> spec_undo_target(is_chance@, cursor as int) == Some(t as int),
        r is None ==> spec_undo_target(is_chance@, cursor as int) is None,
{
    let mut target = cursor;
    while target > 0
        invariant
            target <= cursor <= is_chance@.len(),
            spec_undo_target(is_chance@, cursor as int) == spec_undo_target(
                is_chance@,
                target as int,
            ),
        decreases target,
    {
        if !is_chance[target - 1] {
            return Some(target - 1);
        }
        target -= 1;
    }
    None
}

/// Finds where redo lands.
pub fn redo_cursor(is_chance: &[bool], cursor: usize) -> (r: Option<usize>)
    ensures
        r matches Some(c) ==> spec_redo_cursor(is_chance@, cursor as int) == Some(c as int),
        r is None ==> spec_redo_cursor(is_chance@, cursor as int) is None,
{
    if cursor >= is_chance.len() {
        return None;
    }
    let mut c = cursor + 1;
    while c < is_chance.len() && is_chance[c]
        invariant
            cursor < c <= is_chance@.len(),
            skip_chance(is_chance@, cursor + 1) == skip_chance(is_chance@, c as int),
        decreases is_chance.len() - c,
    {
        c += 1;
    }
    Some(c)
}

/// Undo followed by redo comes back to where it started, from a cursor at
/// rest.
pub proof fn lemma_redo_undoes_undo(is_chance: Seq<bool>, cursor: int, target: int)
    requires
        0 <= cursor <= is_chance.len(),
        at_rest(is_chance, cursor),
        spec_undo_target(is_chance, cursor) == Some(target),
    ensures
        spec_redo_cursor(is_chance, target) == Some(cursor),
    decreases cursor,
{
    if !is_chance[cursor - 1] {
        assert(target == cursor - 1);
    } else {
        lemma_skip_back(is_chance, cursor, target);
    }
}

/// Between the undo target and the cursor there are only chance outcomes.
proof fn lemma_skip_back(is_chance: Seq<bool>, cursor: int, target: int)
    requires
        0 < cursor <= is_chance.len(),
        at_rest(is_chance, cursor),
        spec_undo_target(is_chance, cursor) == Some(target),
    ensures
        0 <= target < cursor,
        skip_chance(is_chance, target + 1) == cursor,
    decreases cursor,
{
    if !is_chance[cursor - 1] {
        assert(target == cursor - 1);
    } else {
        assert(spec_undo_target(is_chance, cursor - 1) == Some(target));
        lemma_skip_back_chance(is_chance, cursor - 1, target);
        assert(skip_chance(is_chance, cursor - 1) == skip_chance(is_chance, cursor));
    }
}

proof fn lemma_skip_back_chance(is_chance: Seq<bool>, c: int, target: int)
    requires
        0 <= c < is_chance.len(),
        is_chance[c],
        spec_undo_target(is_chance, c) == Some(target),
        at_rest(is_chance, skip_chance(is_chance, c + 1)),
    ensures
        0 <= target < c,
        skip_chance(is_chance, target + 1) == skip_chance(is_chance, c),
    decreases c,
{
    assert(skip_chance(is_chance, c) == skip_chance(is_chance, c + 1));
    if c == 0 {
        assert(spec_undo_target(is_chance, 0) is None);
    } else if !is_chance[c - 1] {
        assert(target == c - 1);
    } else {
        assert(spec_undo_target(is_chance, c - 1) == Some(target));
        assert(skip_chance(is_chance, c) == skip_chance(is_chance, c + 1));
        lemma_skip_back_chance(is_chance, c - 1, target);
    }
}

/// The entries of the game log that are shown: the non-empty labels, each
/// with the cursor just after its entry.
pub open spec fn visible_entries(labels: Seq<Seq<char>>) -> Seq<(Seq<char>, int)>
    decreases labels.len(),
{
    if labels.len() == 0 {
        Seq::empty()
    } else {
        let rest = visible_entries(labels.drop_last());
        if labels.last().len() > 0 {
            rest.push((labels.last(), labels.len() as int))
        } else {
            rest
        }
    }
}

/// The game log as shown: the labels that are not empty, and the cursor
/// each one jumps to.
pub fn visible_action_log(labels: &Vec<String>) -> (r: (Vec<String>, Vec<usize>))
    ensures
        r.0@.len() == visible_entries(string_views(labels@)).len(),
        r.1@.len() == r.0@.len(),
        forall|k: int|
            0 <= k < r.0@.len() ==> (#[trigger] r.0@[k])@ == visible_entries(
                string_views(labels@))[k].0 && r.1@[k] == visible_entries(string_views(labels@))[k].1,
{
    let ghost views = string_views(labels@);
    let mut shown: Vec<String> = Vec::new();
    let mut cursors: Vec<usize> = Vec::new();
    let mut i: usize = 0;
    while i < labels.len()
        invariant
            i <= labels@.len(),
            views == string_views(labels@),
            shown@.len() == cursors@.len(),
            shown@.len() == visible_entries(views.subrange(0, i as int)).len(),
            forall|k: int|
                0 <= k < shown@.len() ==> (#[trigger] shown@[k])@ == visible_entries(
                    views.subrange(0, i as int),
                )[k].0 && cursors@[k] == visible_entries(views.subrange(0, i as int))[k].1,
        decreases labels.len() - i,
    {
        let ghost pre = views.subrange(0, i as int);
        let ghost next = views.subrange(0, i + 1);
        assert(next.drop_last() =~= pre);
        assert(next.last() == labels@[i as int]@);
        if labels[i].as_str().unicode_len() > 0 {
            shown.push(labels[i].clone());
            cursors.push(i + 1);
        }
        i += 1;
    }
    assert(views.subrange(0, i as int) =~= views);
    assert(visible_entries(views.subrange(0, i as int)) == visible_entries(views));
    assert forall|k: int| 0 <= k < shown@.len() implies (#[trigger] shown@[k])@ == visible_entries(
        views,
    )[k].0 && cursors@[k] == visible_entries(views)[k].1 by {}
    (shown, cursors)
}

/// Moving the cursor to `cursor` in a timeline of `len` entries: refused
/// past the end.
pub fn check_history_cursor(cursor: usize, len: usize) -> (r: Result<(), String>)
    ensures
        r is Ok <==> cursor <= len,
        r matches Err(m) ==> m@ == "History cursor "@ + decimal(cursor as nat)
            + " is past the end of the game ("@ + decimal(len as nat) + ")"@,
{
    if cursor <= len {
        return Ok(());
    }
    let mut out: Vec<char> = Vec::new();
    extend_str(&mut out, "History cursor ");
    push_decimal(&mut out, cursor as u64);
    extend_str(&mut out, " is past the end of the game (");
    push_decimal(&mut out, len as u64);
    extend_str(&mut out, ")");
    Err(string_of(&out))
}

} // verus!
