//! Replay bookkeeping: result labels, replay ids and share slugs, action
//! lists as stored in the database, and the player names shown on a
//! multiplayer replay.

use vstd::prelude::*;
use crate::text::{
    chars_of, chars_eq_str, extend_chars, extend_str, is_ascii_alnum, is_ascii_alnum_char,
    is_token, is_token_char, string_of, sub_chars, trim, trim_str,
};
use crate::numtext::{decimal, parse_u64_chars, parsed_value, push_decimal};
use crate::identity::{
    normalize_display_name, opt_string_view, spec_normalize_display_name, split_chars, split_on,
    char_vec_views,
};

use crate::protocol::ReplayEntry;

verus! {

// ── replay logs ─────────────────────────────────────────────────────

/// A line without the carriage return of a `\r\n` ending.
pub open spec fn strip_cr(line: Seq<char>) -> Seq<char> {
    if line.len() > 0 && line.last() == '\r' {
        line.drop_last()
    } else {
        line
    }
}

/// The lines of a text as `str::lines` yields them: split at `\n`, a
/// carriage return before the `\n` dropped, the final line ending optional.
pub open spec fn text_lines(text: Seq<char>) -> Seq<Seq<char>> {
    let pieces = split_on(text, '\n');
    if text.len() == 0 {
        Seq::empty()
    } else if text.last() == '\n' {
        pieces.drop_last().map_values(|l: Seq<char>| strip_cr(l))
    } else {
        pieces.drop_last().map_values(|l: Seq<char>| strip_cr(l)).push(pieces.last())
    }
}

pub open spec fn nonempty_line(l: Seq<char>) -> bool {
    l.len() > 0
}

/// How many actions a replay log holds: its non-empty lines after the
/// first, which holds the initial state.
pub open spec fn spec_logged_action_count(text: Seq<char>) -> nat {
    let lines = text_lines(text);
    if lines.len() == 0 {
        0
    } else {
        lines.drop_first().filter(|l: Seq<char>| nonempty_line(l)).len()
    }
}

/// Counts the actions of a replay log from its text.
pub fn logged_action_count(text: &str) -> (r: usize)
    ensures
        r == spec_logged_action_count(text@),
{
    let v = chars_of(text);
    if v.len() == 0 {
        return 0;
    }
    let pieces = split_chars(&v, '\n');
    let ghost lines = text_lines(text@);
    let ghost pv = char_vec_views(pieces@);
    proof {
        crate::identity::lemma_split_nonempty(text@, '\n');
    }
    let ends_nl = v[v.len() - 1] == '\n';
    let total = pieces.len();
    let n = if ends_nl {
        total - 1
    } else {
        total
    };
    assert(lines.len() == n);
    let mut count: usize = 0;
    let mut i: usize = 1;
    let ghost pred = |l: Seq<char>| nonempty_line(l);
    if n == 0 {
        return 0;
    }
    assert(lines.drop_first() =~= lines.subrange(1, n as int));
    while i < n
        invariant
            1 <= i <= n,
            n == lines.len(),
            pv == split_on(text@, '\n'),
            pv == char_vec_views(pieces@),
            pv.len() == total,
            total == pieces@.len(),
            n == (if ends_nl { total - 1 } else { total as int }),
            ends_nl == (text@.last() == '\n'),
            text@.len() > 0,
            lines == text_lines(text@),
            pred == (|l: Seq<char>| nonempty_line(l)),
            count <= i,
            count == lines.subrange(1, i as int).filter(pred).len(),
        decreases n - i,
    {
        let stripped = ends_nl || i + 1 < total;
        let len = pieces[i].len();
        let keep = if stripped {
            len > 1 || (len == 1 && pieces[i][0] != '\r')
        } else {
            len > 0
        };
        proof {
            assert(pieces@[i as int]@ == pv[i as int]);
            if stripped {
                assert(lines[i as int] == strip_cr(pv[i as int]));
            } else {
                assert(lines[i as int] == pv[i as int]);
            }
            assert(keep == nonempty_line(lines[i as int]));
            let pre = lines.subrange(1, i as int);
            assert(lines.subrange(1, i + 1) =~= pre.push(lines[i as int]));
            pre.lemma_filter_push(lines[i as int], pred);
        }
        if keep {
            count = count + 1;
        }
        i += 1;
    }
    count
}

// ── result labels ───────────────────────────────────────────────────

/// Result labels that are stored as they are.
pub open spec fn is_known_result(s: Seq<char>) -> bool {
    ||| s == "won"@
    ||| s == "lost"@
    ||| s == "draw"@
    ||| s == "won_by_resignation"@
    ||| s == "lost_by_resignation"@
    ||| s == "won_on_time"@
    ||| s == "lost_on_time"@
}

/// A stored result label: a known label (surrounding whitespace ignored),
/// anything else `incomplete`.
pub open spec fn spec_normalize_replay_result(result: Seq<char>) -> Seq<char> {
    if is_known_result(trim(result)) {
        trim(result)
    } else {
        "incomplete"@
    }
}

pub fn normalize_replay_result(result: &str) -> (r: String)
    ensures
        r@ == spec_normalize_replay_result(result@),
{
    let t = trim_str(result);
    if chars_eq_str(&t, "won") || chars_eq_str(&t, "lost") || chars_eq_str(&t, "draw")
        || chars_eq_str(&t, "won_by_resignation") || chars_eq_str(&t, "lost_by_resignation")
        || chars_eq_str(&t, "won_on_time") || chars_eq_str(&t, "lost_on_time") {
        string_of(&t)
    } else {
        "incomplete".to_string()
    }
}

/// Normalizing a result label twice changes nothing more.
pub proof fn lemma_normalize_replay_result_idempotent(result: Seq<char>)
    ensures
        spec_normalize_replay_result(spec_normalize_replay_result(result))
            == spec_normalize_replay_result(result),
{
    reveal_strlit("won");
    reveal_strlit("lost");
    reveal_strlit("draw");
    reveal_strlit("won_by_resignation");
    reveal_strlit("lost_by_resignation");
    reveal_strlit("won_on_time");
    reveal_strlit("lost_on_time");
    reveal_strlit("incomplete");
    let t = trim(result);
    if is_known_result(t) {
        crate::text::lemma_trim_no_edge_space(t);
    } else {
        crate::text::lemma_trim_no_edge_space("incomplete"@);
    }
}

// ── replay ids, tokens and share slugs ──────────────────────────────

pub open spec fn is_replay_id_char(c: char) -> bool {
    is_ascii_alnum_char(c) || c == '-' || c == '_' || c == '.'
}

pub open spec fn has_double_dot(s: Seq<char>) -> bool {
    exists|i: int| 0 <= i < s.len() - 1 && #[trigger] s[i] == '.' && s[i + 1] == '.'
}

pub open spec fn ends_with_log(s: Seq<char>) -> bool {
    s.len() >= 4 && s.subrange(s.len() - 4, s.len() as int) == ".log"@
}

/// File names of stored replays: `<letters, digits, - _ .>.log`, not
/// hidden and without `..`.
pub open spec fn spec_safe_replay_id(id: Seq<char>) -> bool {
    &&& id.len() > 0
    &&& ends_with_log(id)
    &&& id[0] != '.'
    &&& !has_double_dot(id)
    &&& forall|i: int| 0 <= i < id.len() ==> is_replay_id_char(#[trigger] id[i])
}

/// Share slugs and random replay tokens: 1 to 128 letters, digits, `-`
/// and `_`.
pub open spec fn spec_safe_replay_token(id: Seq<char>) -> bool {
    crate::identity::is_safe_session_id(id)
}

fn ends_with_log_chars(v: &Vec<char>) -> (r: bool)
    ensures
        r == ends_with_log(v@),
{
    if v.len() < 4 {
        return false;
    }
    let tail = sub_chars(v, v.len() - 4, v.len());
    chars_eq_str(&tail, ".log")
}

pub fn safe_replay_id(id: &str) -> (r: bool)
    ensures
        r == spec_safe_replay_id(id@),
{
    let v = chars_of(id);
    if v.len() == 0 || !ends_with_log_chars(&v) || v[0] == '.' {
        return false;
    }
    let mut i: usize = 0;
    while i < v.len()
        invariant
            i <= v.len(),
            v.len() > 0,
            v@ == id@,
            forall|j: int| 0 <= j < i ==> is_replay_id_char(#[trigger] v@[j]),
            forall|j: int|
                0 <= j < i && j + 1 < v.len() ==> !(#[trigger] v@[j] == '.' && v@[j + 1] == '.'),
        decreases v.len() - i,
    {
        let c = v[i];
        if !(is_ascii_alnum(c) || c == '-' || c == '_' || c == '.') {
            return false;
        }
        if i + 1 < v.len() && c == '.' && v[i + 1] == '.' {
            return false;
        }
        i += 1;
    }
    assert(!has_double_dot(v@)) by {
        if has_double_dot(v@) {
            let k = choose|k: int| 0 <= k < v@.len() - 1 && #[trigger] v@[k] == '.' && v@[k + 1]
                == '.';
            assert(!(v@[k] == '.' && v@[k + 1] == '.'));
        }
    }
    true
}

pub fn safe_replay_token(id: &str) -> (r: bool)
    ensures
        r == spec_safe_replay_token(id@),
{
    let v = chars_of(id);
    crate::identity::safe_session_id(&v)
}

pub fn safe_share_slug(slug: &str) -> (r: bool)
    ensures
        r == spec_safe_replay_token(slug@),
{
    safe_replay_token(slug)
}

/// The share slug of a file-stored replay: its id without `.log`.
pub open spec fn spec_file_share_slug(id: Seq<char>) -> Seq<char> {
    if ends_with_log(id) {
        id.subrange(0, id.len() - 4)
    } else {
        id
    }
}

pub fn file_share_slug(id: &str) -> (r: String)
    ensures
        r@ == spec_file_share_slug(id@),
{
    let v = chars_of(id);
    if ends_with_log_chars(&v) {
        let head = sub_chars(&v, 0, v.len() - 4);
        string_of(&head)
    } else {
        string_of(&v)
    }
}

/// The save time that starts a file-stored replay id (`<ms>-...`).
pub fn replay_timestamp_from_id(id: &str) -> (r: Option<u64>)
    ensures
        r matches Some(x) ==> parsed_value(split_on(id@, '-')[0], u64::MAX as nat) == Some(
            x as nat,
        ),
        r is None ==> parsed_value(split_on(id@, '-')[0], u64::MAX as nat) is None,
{
    let v = chars_of(id);
    let pieces = split_chars(&v, '-');
    proof {
        crate::identity::lemma_split_nonempty(v@, '-');
        assert(pieces@[0]@ == split_on(id@, '-')[0]);
    }
    parse_u64_chars(&pieces[0])
}

/// The file name of a saved replay: `<saved>-<session>-<counter>-<token>.log`.
pub open spec fn spec_replay_file_id(
    saved_at_ms: u64,
    session_id: u64,
    counter: u64,
    token: Seq<char>,
) -> Seq<char> {
    decimal(saved_at_ms as nat) + "-"@ + decimal(session_id as nat) + "-"@ + decimal(
        counter as nat,
    ) + "-"@ + token + ".log"@
}

pub fn replay_file_id(saved_at_ms: u64, session_id: u64, counter: u64, token: &str) -> (r: String)
    ensures
        r@ == spec_replay_file_id(saved_at_ms, session_id, counter, token@),
{
    let mut out: Vec<char> = Vec::new();
    push_decimal(&mut out, saved_at_ms);
    extend_str(&mut out, "-");
    push_decimal(&mut out, session_id);
    extend_str(&mut out, "-");
    push_decimal(&mut out, counter);
    extend_str(&mut out, "-");
    extend_str(&mut out, token);
    extend_str(&mut out, ".log");
    assert(out@ =~= spec_replay_file_id(saved_at_ms, session_id, counter, token@));
    string_of(&out)
}

/// Marker file recording that a replay is a favourite.
pub fn favorite_file_name(id: &str) -> (r: String)
    ensures
        r@ == id@ + ".favorite"@,
{
    let mut out = chars_of(id);
    extend_str(&mut out, ".favorite");
    string_of(&out)
}

/// File recording a replay's result label.
pub fn result_file_name(id: &str) -> (r: String)
    ensures
        r@ == id@ + ".result"@,
{
    let mut out = chars_of(id);
    extend_str(&mut out, ".result");
    string_of(&out)
}

/// File recording a multiplayer replay's player names.
pub fn player_names_file_name(id: &str) -> (r: String)
    ensures
        r@ == id@ + ".players.json"@,
{
    let mut out = chars_of(id);
    extend_str(&mut out, ".players.json");
    string_of(&out)
}

// ── stored action lists ─────────────────────────────────────────────

/// The action list as stored: each action as a signed 64-bit integer,
/// when every action fits.
pub open spec fn stored_actions(actions: Seq<usize>) -> Option<Seq<i64>> {
    if forall|i: int| 0 <= i < actions.len() ==> #[trigger] actions[i] <= i64::MAX {
        Some(Seq::new(actions.len(), |i: int| actions[i] as i64))
    } else {
        None
    }
}

/// The action list as loaded: each stored integer as an action, when none
/// is negative or too large.
pub open spec fn loaded_actions(stored: Seq<i64>) -> Option<Seq<usize>> {
    if forall|i: int| 0 <= i < stored.len() ==> 0 <= #[trigger] stored[i] <= usize::MAX {
        Some(Seq::new(stored.len(), |i: int| stored[i] as usize))
    } else {
        None
    }
}

/// Loading what was stored gives back the same actions.
pub proof fn lemma_stored_actions_load_back(actions: Seq<usize>)
    requires
        stored_actions(actions) is Some,
    ensures
        loaded_actions(stored_actions(actions).unwrap()) == Some(actions),
{
    let s = stored_actions(actions).unwrap();
    assert forall|i: int| 0 <= i < s.len() implies 0 <= #[trigger] s[i] <= usize::MAX by {
        assert(s[i] == actions[i] as i64);
        assert(actions[i] <= i64::MAX);
    }
    assert(Seq::new(s.len(), |i: int| s[i] as usize) =~= actions);
}

pub fn actions_to_i64(actions: &[usize]) -> (r: Result<Vec<i64>, String>)
    ensures
        r matches Ok(v) ==> stored_actions(actions@) == Some(v@),
        r is Err ==> stored_actions(actions@) is None,
        r is Ok <==> forall|i: int| 0 <= i < actions@.len() ==> #[trigger] actions@[i] <= i64::MAX,
        r matches Ok(v) ==> v@.len() == actions@.len() && forall|i: int|
            0 <= i < actions@.len() ==> #[trigger] v@[i] == actions@[i] as int,
        r matches Err(m) ==> m@ == "replay action id does not fit in BIGINT"@,
{
    let mut out: Vec<i64> = Vec::new();
    let mut i: usize = 0;
    while i < actions.len()
        invariant
            i <= actions@.len(),
            out@.len() == i,
            forall|j: int| 0 <= j < i ==> #[trigger] actions@[j] <= i64::MAX,
            forall|j: int| 0 <= j < i ==> #[trigger] out@[j] == actions@[j] as int,
        decreases actions@.len() - i,
    {
        let a = actions[i];
        if (a as u64) > (i64::MAX as u64) {
            return Err("replay action id does not fit in BIGINT".to_string());
        }
        out.push(a as i64);
        i += 1;
    }
    assert(out@ =~= Seq::new(actions@.len(), |i: int| actions@[i] as i64));
    Ok(out)
}

pub fn actions_from_i64(actions: Vec<i64>) -> (r: Result<Vec<usize>, String>)
    ensures
        r matches Ok(v) ==> loaded_actions(actions@) == Some(v@),
        r is Err ==> loaded_actions(actions@) is None,
        r is Ok <==> forall|i: int| 0 <= i < actions@.len() ==> 0 <= #[trigger] actions@[i] <= usize::MAX,
        r matches Ok(v) ==> v@.len() == actions@.len() && forall|i: int|
            0 <= i < actions@.len() ==> #[trigger] v@[i] == actions@[i] as int,
        r matches Err(m) ==> m@ == "stored replay action id is invalid"@,
{
    let mut out: Vec<usize> = Vec::new();
    let mut i: usize = 0;
    while i < actions.len()
        invariant
            i <= actions@.len(),
            out@.len() == i,
            forall|j: int| 0 <= j < i ==> 0 <= #[trigger] actions@[j] <= usize::MAX,
            forall|j: int| 0 <= j < i ==> #[trigger] out@[j] == actions@[j] as int,
        decreases actions@.len() - i,
    {
        let a = actions[i];
        if a < 0 || (a as u64) > (usize::MAX as u64) {
            return Err("stored replay action id is invalid".to_string());
        }
        out.push(a as usize);
        i += 1;
    }
    assert(out@ =~= Seq::new(actions@.len(), |i: int| actions@[i] as usize));
    Ok(out)
}

// ── player names ────────────────────────────────────────────────────

/// One seat of a multiplayer game whose replay is saved.
#[derive(Clone, Debug)]
pub struct ReplayParticipant {
    pub player: usize,
    pub account_key: String,
    pub display_name: Option<String>,
    pub result: String,
}

/// A normalized display name, or the empty name.
pub open spec fn name_or_empty(name: Option<Seq<char>>) -> Seq<char> {
    match name {
        Some(n) => match spec_normalize_display_name(n) {
            Some(t) => t,
            None => Seq::empty(),
        },
        None => Seq::empty(),
    }
}

/// The two seat names: each seat takes the normalized name of the last
/// participant seated there.
pub open spec fn participant_names(ps: Seq<ReplayParticipant>) -> (Seq<char>, Seq<char>)
    decreases ps.len(),
{
    if ps.len() == 0 {
        (Seq::empty(), Seq::empty())
    } else {
        let prev = participant_names(ps.drop_last());
        let p = ps.last();
        let n = name_or_empty(opt_string_view(p.display_name));
        if p.player == 0 {
            (n, prev.1)
        } else if p.player == 1 {
            (prev.0, n)
        } else {
            prev
        }
    }
}

/// The name `participant_names` gives seat `seat`.
pub open spec fn seat_name(names: (Seq<char>, Seq<char>), seat: usize) -> Seq<char> {
    if seat == 0 {
        names.0
    } else {
        names.1
    }
}

/// Each seat shows its own participant's name: the name of seat `s` is the
/// normalized display name of the last participant seated at `s`, and
/// empty when nobody sits there; a participant's name never lands on the
/// other seat.
pub proof fn lemma_names_follow_seats(ps: Seq<ReplayParticipant>, seat: usize)
    requires
        seat < 2,
    ensures
        forall|k: int|
            0 <= k < ps.len() && #[trigger] ps[k].player == seat && (forall|j: int|
                k < j < ps.len() ==> ps[j].player != seat) ==> seat_name(participant_names(ps), seat)
                == name_or_empty(opt_string_view(ps[k].display_name)),
        (forall|j: int| 0 <= j < ps.len() ==> ps[j].player != seat) ==> seat_name(participant_names(ps), seat)
            == Seq::<char>::empty(),
    decreases ps.len(),
{
    if ps.len() > 0 {
        let init = ps.drop_last();
        lemma_names_follow_seats(init, seat);
        assert forall|k: int|
            0 <= k < ps.len() && #[trigger] ps[k].player == seat && (forall|j: int|
                k < j < ps.len() ==> ps[j].player != seat) implies seat_name(participant_names(ps), seat)
                == name_or_empty(opt_string_view(ps[k].display_name)) by {
            if k < ps.len() - 1 {
                assert(init[k] == ps[k]);
                assert(ps.last().player != seat);
                assert forall|j: int| k < j < init.len() implies init[j].player != seat by {
                    assert(init[j] == ps[j]);
                }
            }
        }
        if forall|j: int| 0 <= j < ps.len() ==> ps[j].player != seat {
            assert forall|j: int| 0 <= j < init.len() implies init[j].player != seat by {
                assert(init[j] == ps[j]);
            }
            assert(ps.last().player != seat) by {
                assert(ps[ps.len() - 1].player != seat);
            }
        }
    }
}

fn name_or_default(name: Option<String>) -> (r: String)
    ensures
        r@ == name_or_empty(opt_string_view(name)),
{
    match normalize_display_name(name) {
        Some(n) => n,
        None => String::new(),
    }
}

pub fn replay_player_names_vec_from_participants(participants: &[ReplayParticipant]) -> (r: Vec<
    String,
>)
    ensures
        r@.len() == 2,
        r@[0]@ == participant_names(participants@).0,
        r@[1]@ == participant_names(participants@).1,
{
    let mut first = String::new();
    let mut second = String::new();
    let mut i: usize = 0;
    while i < participants.len()
        invariant
            i <= participants@.len(),
            (first@, second@) == participant_names(participants@.subrange(0, i as int)),
        decreases participants@.len() - i,
    {
        let p = &participants[i];
        proof {
            assert(participants@.subrange(0, i + 1).drop_last() =~= participants@.subrange(
                0,
                i as int,
            ));
        }
        if p.player == 0 {
            first = name_or_default(crate::room::clone_opt_string(&p.display_name));
        } else if p.player == 1 {
            second = name_or_default(crate::room::clone_opt_string(&p.display_name));
        }
        i += 1;
    }
    assert(participants@.subrange(0, participants@.len() as int) =~= participants@);
    let mut names: Vec<String> = Vec::new();
    names.push(first);
    names.push(second);
    names
}

/// The first two names, normalized; `None` when both are empty.
pub open spec fn spec_player_names_from_seq(names: Seq<Seq<char>>) -> Option<(Seq<char>, Seq<char>)> {
    let a = if names.len() > 0 { name_or_empty(Some(names[0])) } else { Seq::empty() };
    let b = if names.len() > 1 { name_or_empty(Some(names[1])) } else { Seq::empty() };
    if a.len() > 0 || b.len() > 0 {
        Some((a, b))
    } else {
        None
    }
}

pub fn replay_player_names_from_vec(names: Vec<String>) -> (r: Option<[String; 2]>)
    ensures
        r matches Some(out) ==> spec_player_names_from_seq(crate::identity::string_views(names@))
            == Some((out[0]@, out[1]@)),
        r is None ==> spec_player_names_from_seq(crate::identity::string_views(names@)) is None,
{
    let a = if names.len() > 0 {
        name_or_default(Some(names[0].clone()))
    } else {
        String::new()
    };
    let b = if names.len() > 1 {
        name_or_default(Some(names[1].clone()))
    } else {
        String::new()
    };
    if a.as_str().is_empty() && b.as_str().is_empty() {
        None
    } else {
        Some([a, b])
    }
}

pub fn replay_player_names_from_participants(participants: &[ReplayParticipant]) -> (r: Option<
    [String; 2],
>)
    ensures
        ({
            let n = participant_names(participants@);
            let s = spec_player_names_from_seq(seq![n.0, n.1]);
            &&& r matches Some(out) ==> s == Some((out[0]@, out[1]@))
            &&& r is None ==> s is None
        }),
{
    let v = replay_player_names_vec_from_participants(participants);
    proof {
        let n = participant_names(participants@);
        assert(crate::identity::string_views(v@) =~= seq![n.0, n.1]);
    }
    replay_player_names_from_vec(v)
}


// ── database rows ───────────────────────────────────────────────────

/// A replay entry from the columns of its database row: the timestamp
/// and action count are stored as signed integers and must fit, and the
/// result is normalized.
pub fn stored_replay_entry(
    id: String,
    saved_at_ms: i64,
    action_count: i64,
    result: &str,
    favorite: bool,
    share_slug: String,
) -> (r: Result<ReplayEntry, String>)
    ensures
        saved_at_ms < 0 ==> (r matches Err(m) && m@ == "stored replay timestamp is negative"@),
        saved_at_ms >= 0 && !(0 <= action_count <= usize::MAX) ==> (r matches Err(m) && m@
            == "stored replay action count is invalid"@),
        r is Ok <==> saved_at_ms >= 0 && 0 <= action_count <= usize::MAX,
        r matches Ok(e) ==> e.id == id && e.saved_at_ms == saved_at_ms && e.action_count == action_count
            && e.result@ == spec_normalize_replay_result(result@) && e.favorite == favorite
            && e.share_slug == share_slug,
{
    if saved_at_ms < 0 {
        return Err("stored replay timestamp is negative".to_string());
    }
    if action_count < 0 || action_count as u64 > usize::MAX as u64 {
        return Err("stored replay action count is invalid".to_string());
    }
    Ok(
        ReplayEntry {
            id,
            saved_at_ms: saved_at_ms as u64,
            action_count: action_count as usize,
            result: normalize_replay_result(result),
            favorite,
            share_slug,
        },
    )
}

// ── file-stored replays ─────────────────────────────────────────────

/// The result recorded for a replay: the marker file's text normalized,
/// or `incomplete` when there is no marker.
pub fn saved_result_from_marker(marker: Option<&str>) -> (r: String)
    ensures
        r@ == (match marker {
            Some(t) => spec_normalize_replay_result(t@),
            None => "incomplete"@,
        }),
{
    match marker {
        Some(t) => normalize_replay_result(t),
        None => "incomplete".to_string(),
    }
}

/// Whether a replay's result gets a marker file: every result but
/// `incomplete`.
pub fn result_needs_marker(result: &str) -> (r: bool)
    ensures
        r == (result@ != "incomplete"@),
{
    let v = chars_of(result);
    !chars_eq_str(&v, "incomplete")
}

/// The listing entry of a replay file, when its name is a safe replay id:
/// saved at the time its id starts with (else `fallback_ms`), with the
/// given action count, result and favourite flag.
pub fn file_replay_entry(
    id: &str,
    fallback_ms: u64,
    action_count: usize,
    result: String,
    favorite: bool,
) -> (r: Option<ReplayEntry>)
    ensures
        !spec_safe_replay_id(id@) ==> r is None,
        spec_safe_replay_id(id@) ==> (r matches Some(e) && e.id@ == id@ && e.saved_at_ms == (match parsed_value(
            split_on(id@, '-')[0],
            u64::MAX as nat,
        ) {
            Some(t) => t,
            None => fallback_ms as nat,
        }) && e.action_count == action_count && e.result == result && e.favorite == favorite
            && e.share_slug@ == spec_file_share_slug(id@)),
{
    if !safe_replay_id(id) {
        return None;
    }
    let saved_at_ms = match replay_timestamp_from_id(id) {
        Some(t) => t,
        None => fallback_ms,
    };
    Some(
        ReplayEntry {
            id: id.to_string(),
            saved_at_ms,
            action_count,
            result,
            favorite,
            share_slug: file_share_slug(id),
        },
    )
}

/// The entry of a replay being saved: its file id from the save time,
/// session, counter and random token; its normalized result (`incomplete`
/// when none is given); not a favourite.
pub fn new_replay_entry(
    saved_at_ms: u64,
    session_id: u64,
    counter: u64,
    token: &str,
    action_count: usize,
    result: Option<&str>,
) -> (r: ReplayEntry)
    ensures
        r.id@ == spec_replay_file_id(saved_at_ms, session_id, counter, token@),
        r.saved_at_ms == saved_at_ms,
        r.action_count == action_count,
        r.result@ == spec_normalize_replay_result(
            match result {
                Some(t) => t@,
                None => "incomplete"@,
            },
        ),
        !r.favorite,
        r.share_slug@ == spec_file_share_slug(r.id@),
{
    let id = replay_file_id(saved_at_ms, session_id, counter, token);
    let result = match result {
        Some(t) => normalize_replay_result(t),
        None => normalize_replay_result("incomplete"),
    };
    let share_slug = file_share_slug(id.as_str());
    ReplayEntry { id, saved_at_ms, action_count, result, favorite: false, share_slug }
}

/// The counter each participant's copy of a multiplayer replay is saved
/// under: one more for each participant, never past `u64::MAX`.
pub fn participant_counters(counter: u64, participants: usize) -> (r: Vec<u64>)
    ensures
        r@.len() == participants,
        forall|i: int| 0 <= i < participants ==> #[trigger] r@[i] == (if counter + i <= u64::MAX {
            counter + i
        } else {
            u64::MAX as int
        }),
{
    let mut out: Vec<u64> = Vec::new();
    let mut c = counter;
    let mut i: usize = 0;
    while i < participants
        invariant
            i <= participants,
            out@.len() == i,
            c == (if counter + i <= u64::MAX {
                counter + i
            } else {
                u64::MAX as int
            }),
            forall|k: int| 0 <= k < i ==> #[trigger] out@[k] == (if counter + k <= u64::MAX {
                counter + k
            } else {
                u64::MAX as int
            }),
        decreases participants - i,
    {
        out.push(c);
        c = c.saturating_add(1);
        i += 1;
    }
    out
}

/// The index of the first `Ok` outcome.
pub open spec fn first_ok(outcomes: Seq<Result<ReplayEntry, String>>) -> int
    decreases outcomes.len(),
{
    if outcomes.len() == 0 {
        -1
    } else if outcomes[0] is Ok {
        0
    } else {
        let r = first_ok(outcomes.drop_first());
        if r < 0 {
            -1
        } else {
            r + 1
        }
    }
}

/// The outcome of saving a multiplayer replay for each participant in
/// turn: the first saved entry; else the first error; else, with no
/// participant at all, a fixed message.
pub fn multiplayer_save_outcome(outcomes: Vec<Result<ReplayEntry, String>>) -> (r: Result<
    ReplayEntry,
    String,
>)
    ensures
        first_ok(outcomes@) >= 0 ==> r == outcomes@[first_ok(outcomes@)],
        first_ok(outcomes@) < 0 && outcomes@.len() > 0 ==> r == outcomes@[0],
        outcomes@.len() == 0 ==> (r matches Err(m) && m@
            == "failed to save multiplayer replay for any participant"@),
{
    let mut first_error: Option<String> = None;
    let mut rest = outcomes;
    let ghost all = rest@;
    let ghost mut taken: int = 0;
    assert(all.skip(0) =~= all);
    while rest.len() > 0
        invariant
            all == outcomes@,
            0 <= taken <= all.len(),
            rest@ == all.skip(taken),
            forall|k: int| 0 <= k < taken ==> #[trigger] all[k] is Err,
            first_ok(all) == (if first_ok(rest@) < 0 {
                -1
            } else {
                first_ok(rest@) + taken
            }),
            taken == 0 <==> first_error is None,
            taken > 0 ==> first_error == Some(all[0]->Err_0),
        decreases rest.len(),
    {
        proof {
            assert(rest@.drop_first() =~= all.skip(taken + 1));
            assert(rest@[0] == all[taken]);
        }
        let o = rest.remove(0);
        match o {
            Ok(entry) => {
                return Ok(entry);
            },
            Err(message) => {
                if first_error.is_none() {
                    first_error = Some(message);
                }
            },
        }
        proof {
            taken = taken + 1;
        }
    }
    match first_error {
        Some(message) => Err(message),
        None => Err("failed to save multiplayer replay for any participant".to_string()),
    }
}

/// A multiplayer replay is saved only for a game with participants.
pub fn require_participants(count: usize) -> (r: Result<(), String>)
    ensures
        count == 0 ==> (r matches Err(m) && m@
            == "cannot save multiplayer replay without participants"@),
        count > 0 ==> r is Ok,
{
    if count == 0 {
        Err("cannot save multiplayer replay without participants".to_string())
    } else {
        Ok(())
    }
}

/// A saved replay's file id starts with its save time, and listing reads
/// that time back from the id.
pub proof fn lemma_replay_id_keeps_save_time(
    saved_at_ms: u64,
    session_id: u64,
    counter: u64,
    token: Seq<char>,
)
    ensures
        parsed_value(
            split_on(spec_replay_file_id(saved_at_ms, session_id, counter, token), '-')[0],
            u64::MAX as nat,
        ) == Some(saved_at_ms as nat),
{
    let d = decimal(saved_at_ms as nat);
    let id = spec_replay_file_id(saved_at_ms, session_id, counter, token);
    reveal_strlit("-");
    crate::numtext::lemma_decimal_digits(saved_at_ms as nat);
    crate::numtext::lemma_parse_decimal(saved_at_ms as nat, u64::MAX as nat);
    assert(id[d.len() as int] == '-');
    assert forall|j: int| 0 <= j < d.len() implies id[j] != '-' by {
        assert(id[j] == d[j]);
        assert(crate::text::is_ascii_digit_char(d[j]));
    }
    crate::identity::lemma_split_first(id, '-', d.len() as int);
    assert(id.take(d.len() as int) =~= d);
}

} // verus!
