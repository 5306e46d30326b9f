//! Who a socket belongs to: authorized token origins, user ids derived
//! from session tokens, display names and profile usernames.

use vstd::prelude::*;
use crate::text::{
    chars_of, chars_eq, is_control, is_control_char, is_space, is_space_char, is_token,
    is_token_char, lowercase_ascii, lowercase_chars, string_of, trim, trim_chars, trim_str,
    extend_str, extend_chars,
};
use crate::numtext::{decimal, push_decimal, hex_fixed, hex_fixed_chars};
use crate::rng::random_u64;

verus! {

// ── authorized parties ──────────────────────────────────────────────

/// The pieces of `s` between occurrences of `sep`, as `str::split` yields
/// them (always at least one piece).
pub open spec fn split_on(s: Seq<char>, sep: char) -> Seq<Seq<char>>
    decreases s.len(),
{
    if s.len() == 0 {
        seq![Seq::empty()]
    } else {
        let r = split_on(s.drop_last(), sep);
        if s.last() == sep {
            r.push(Seq::empty())
        } else {
            r.update(r.len() - 1, r.last().push(s.last()))
        }
    }
}

pub proof fn lemma_split_nonempty(s: Seq<char>, sep: char)
    ensures
        split_on(s, sep).len() >= 1,
    decreases s.len(),
{
    if s.len() > 0 {
        lemma_split_nonempty(s.drop_last(), sep);
    }
}

/// A text without the separator is one piece.
pub proof fn lemma_split_no_sep(s: Seq<char>, sep: char)
    requires
        forall|i: int| 0 <= i < s.len() ==> s[i] != sep,
    ensures
        split_on(s, sep) == seq![s],
    decreases s.len(),
{
    if s.len() > 0 {
        lemma_split_no_sep(s.drop_last(), sep);
        assert(s.drop_last().push(s.last()) =~= s);
        assert(split_on(s, sep) =~= seq![s]);
    } else {
        assert(s =~= Seq::<char>::empty());
        assert(split_on(s, sep) =~= seq![s]);
    }
}

/// The first piece is the text before the first separator.
pub proof fn lemma_split_first(s: Seq<char>, sep: char, k: int)
    requires
        0 <= k < s.len(),
        s[k] == sep,
        forall|j: int| 0 <= j < k ==> s[j] != sep,
    ensures
        split_on(s, sep).len() >= 2,
        split_on(s, sep)[0] == s.take(k),
    decreases s.len(),
{
    if k == s.len() - 1 {
        assert(s.drop_last() =~= s.take(k));
        lemma_split_no_sep(s.take(k), sep);
    } else {
        lemma_split_first(s.drop_last(), sep, k);
        assert(s.drop_last().take(k) =~= s.take(k));
    }
}

/// The origins listed in a comma-separated setting, trimmed, without empty
/// entries.
pub open spec fn spec_authorized_parties(raw: Seq<char>) -> Seq<Seq<char>> {
    split_on(raw, ',').map_values(|p: Seq<char>| trim(p)).filter(|p: Seq<char>| p.len() > 0)
}

pub open spec fn string_views(v: Seq<String>) -> Seq<Seq<char>> {
    v.map_values(|s: String| s@)
}

pub open spec fn char_vec_views(v: Seq<Vec<char>>) -> Seq<Seq<char>> {
    v.map_values(|s: Vec<char>| s@)
}

/// The pieces of `v` between occurrences of `sep`.
pub fn split_chars(v: &Vec<char>, sep: char) -> (r: Vec<Vec<char>>)
    ensures
        char_vec_views(r@) == split_on(v@, sep),
{
    let mut pieces: Vec<Vec<char>> = Vec::new();
    let mut cur: Vec<char> = Vec::new();
    let mut i: usize = 0;
    while i < v.len()
        invariant
            i <= v.len(),
            char_vec_views(pieces@).push(cur@) == split_on(v@.subrange(0, i as int), sep),
        decreases v.len() - i,
    {
        let c = v[i];
        proof {
            let pre = v@.subrange(0, i as int);
            let next = v@.subrange(0, i + 1);
            assert(next.drop_last() =~= pre);
            assert(next.last() == c);
            lemma_split_nonempty(pre, sep);
        }
        if c == sep {
            let done = cur;
            pieces.push(done);
            cur = Vec::new();
            proof {
                assert(char_vec_views(pieces@).push(cur@) =~= split_on(
                    v@.subrange(0, i + 1),
                    sep,
                ));
            }
        } else {
            let ghost before = cur@;
            cur.push(c);
            proof {
                assert(char_vec_views(pieces@).push(cur@) =~= split_on(
                    v@.subrange(0, i + 1),
                    sep,
                ));
            }
        }
        i += 1;
    }
    assert(v@.subrange(0, v.len() as int) =~= v@);
    pieces.push(cur);
    assert(char_vec_views(pieces@) =~= split_on(v@, sep));
    pieces
}

pub fn parse_authorized_parties(raw: &str) -> (r: Vec<String>)
    ensures
        string_views(r@) == spec_authorized_parties(raw@),
{
    let v = chars_of(raw);
    let pieces = split_chars(&v, ',');
    let ghost trimmed_all = split_on(raw@, ',').map_values(|p: Seq<char>| trim(p));
    let ghost keep = |p: Seq<char>| p.len() > 0;
    let mut out: Vec<String> = Vec::new();
    let mut i: usize = 0;
    while i < pieces.len()
        invariant
            i <= pieces.len(),
            char_vec_views(pieces@) == split_on(raw@, ','),
            trimmed_all == split_on(raw@, ',').map_values(|p: Seq<char>| trim(p)),
            keep == (|p: Seq<char>| p.len() > 0),
            string_views(out@) == trimmed_all.subrange(0, i as int).filter(keep),
        decreases pieces.len() - i,
    {
        let t = trim_chars(&pieces[i]);
        proof {
            assert(pieces@[i as int]@ == split_on(raw@, ',')[i as int]);
            assert(t@ == trimmed_all[i as int]);
            assert(trimmed_all.subrange(0, i + 1) =~= trimmed_all.subrange(0, i as int).push(
                trimmed_all[i as int],
            ));
            trimmed_all.subrange(0, i as int).lemma_filter_push(trimmed_all[i as int], keep);
        }
        if t.len() > 0 {
            let s = string_of(&t);
            out.push(s);
            assert(string_views(out@) =~= trimmed_all.subrange(0, i + 1).filter(keep));
        } else {
            assert(string_views(out@) =~= trimmed_all.subrange(0, i + 1).filter(keep));
        }
        i += 1;
    }
    assert(trimmed_all.subrange(0, pieces.len() as int) =~= trimmed_all);
    out
}

/// Whether `origin` is one of `parties`.
pub open spec fn party_listed(parties: Seq<String>, origin: Seq<char>) -> bool {
    exists|i: int| 0 <= i < parties.len() && (#[trigger] parties[i])@ == origin
}

/// A token without an `azp` claim is accepted; one with it must name one
/// of the authorized parties.
pub fn authorized_party_allowed(authorized_parties: &[String], azp: Option<&str>) -> (r: bool)
    ensures
        r == (match azp {
            Some(origin) => party_listed(authorized_parties@, origin@),
            None => true,
        }),
{
    if azp.is_none() {
        return true;
    }
    let origin: &str = azp.unwrap();
    let o = chars_of(origin);
    let mut i: usize = 0;
    while i < authorized_parties.len()
        invariant
            i <= authorized_parties@.len(),
            o@ == origin@,
            azp == Some(origin),
            forall|j: int| 0 <= j < i ==> (#[trigger] authorized_parties@[j])@ != origin@,
        decreases authorized_parties@.len() - i,
    {
        let p = chars_of(authorized_parties[i].as_str());
        if chars_eq(&p, &o) {
            assert(authorized_parties@[i as int]@ == origin@);
            return true;
        }
        i += 1;
    }
    false
}

// ── user ids from session tokens ────────────────────────────────────

/// Session ids that can name an account: 1 to 128 letters, digits, `-`
/// and `_`.
pub open spec fn is_safe_session_id(id: Seq<char>) -> bool {
    &&& 0 < id.len() <= 128
    &&& forall|i: int| 0 <= i < id.len() ==> is_token_char(#[trigger] id[i])
}

pub fn safe_session_id(id: &Vec<char>) -> (r: bool)
    ensures
        r == is_safe_session_id(id@),
{
    if id.len() == 0 || id.len() > 128 {
        return false;
    }
    let mut i: usize = 0;
    while i < id.len()
        invariant
            i <= id.len(),
            0 < id.len() <= 128,
            forall|j: int| 0 <= j < i ==> is_token_char(#[trigger] id@[j]),
        decreases id.len() - i,
    {
        if !is_token(id[i]) {
            return false;
        }
        i += 1;
    }
    true
}

/// The Clerk user id of a socket that presented a session token.
pub open spec fn spec_clerk_user_id_from_auth(token: Seq<char>, clerk_user_id: Option<
    Seq<char>,
>) -> Option<Seq<char>> {
    if trim(token).len() == 0 {
        None
    } else {
        match clerk_user_id {
            Some(raw) => if is_safe_session_id(trim(raw)) {
                Some("clerk:"@ + trim(raw))
            } else {
                None
            },
            None => None,
        }
    }
}

pub open spec fn opt_str_view(o: Option<&str>) -> Option<Seq<char>> {
    match o {
        Some(s) => Some(s@),
        None => None,
    }
}

pub open spec fn opt_string_view(o: Option<String>) -> Option<Seq<char>> {
    match o {
        Some(s) => Some(s@),
        None => None,
    }
}

pub fn clerk_user_id_from_auth(token: &str, clerk_user_id: Option<&str>) -> (r: Option<String>)
    ensures
        opt_string_view(r) == spec_clerk_user_id_from_auth(token@, opt_str_view(clerk_user_id)),
{
    let t = trim_str(token);
    if t.len() == 0 {
        return None;
    }
    let raw = match clerk_user_id {
        Some(raw) => raw,
        None => return None,
    };
    let id = trim_str(raw);
    if !safe_session_id(&id) {
        return None;
    }
    let mut out = chars_of("clerk:");
    extend_chars(&mut out, &id);
    Some(string_of(&out))
}

/// `anonymous:<id>` for a safe browser session id.
pub open spec fn spec_anonymous_user_id_from_id(id: Seq<char>) -> Option<Seq<char>> {
    if is_safe_session_id(id) {
        Some("anonymous:"@ + id)
    } else {
        None
    }
}

/// The anonymous user id carried by an `anon:<id>` token.
pub open spec fn spec_anonymous_user_id_from_token(token: Seq<char>) -> Option<Seq<char>> {
    if token.len() >= 5 && token.subrange(0, 5) == "anon:"@ {
        spec_anonymous_user_id_from_id(token.subrange(5, token.len() as int))
    } else {
        None
    }
}

pub fn anonymous_user_id_from_id(id: &str) -> (r: Option<String>)
    ensures
        opt_string_view(r) == spec_anonymous_user_id_from_id(id@),
{
    let v = chars_of(id);
    if !safe_session_id(&v) {
        return None;
    }
    let mut out = chars_of("anonymous:");
    extend_chars(&mut out, &v);
    Some(string_of(&out))
}

pub fn anonymous_user_id_from_token(token: &str) -> (r: Option<String>)
    ensures
        opt_string_view(r) == spec_anonymous_user_id_from_token(token@),
{
    let v = chars_of(token);
    let prefix = chars_of("anon:");
    proof {
        reveal_strlit("anon:");
    }
    if v.len() < 5 {
        return None;
    }
    let head = crate::text::sub_chars(&v, 0, 5);
    if !chars_eq(&head, &prefix) {
        return None;
    }
    let id = crate::text::sub_chars(&v, 5, v.len());
    if !safe_session_id(&id) {
        return None;
    }
    let mut out = chars_of("anonymous:");
    extend_chars(&mut out, &id);
    Some(string_of(&out))
}

/// An `anon:` token names the same user as its session id.
pub proof fn lemma_anon_token_matches_session_id(id: Seq<char>)
    ensures
        spec_anonymous_user_id_from_token("anon:"@ + id) == spec_anonymous_user_id_from_id(id),
{
    reveal_strlit("anon:");
    assert(("anon:"@ + id).subrange(0, 5) =~= "anon:"@);
    assert(("anon:"@ + id).subrange(5, ("anon:"@ + id).len() as int) =~= id);
}

// ── display names ───────────────────────────────────────────────────

pub const MAX_DISPLAY_NAME_CHARS: usize = 24;

/// Collapses a name: control characters are dropped, runs of whitespace
/// become one space (none at the start), and at most 24 characters are
/// kept.
pub open spec fn collapse_name(s: Seq<char>, out: Seq<char>, last_space: bool, count: nat) -> Seq<
    char,
>
    decreases s.len(),
{
    if s.len() == 0 || count >= MAX_DISPLAY_NAME_CHARS {
        out
    } else if is_control_char(s[0]) {
        collapse_name(s.drop_first(), out, last_space, count)
    } else if is_space_char(s[0]) {
        if out.len() == 0 || last_space {
            collapse_name(s.drop_first(), out, last_space, count)
        } else {
            collapse_name(s.drop_first(), out.push(' '), true, count + 1)
        }
    } else {
        collapse_name(s.drop_first(), out.push(s[0]), false, count + 1)
    }
}

/// The display name a client name normalizes to, if any is left.
pub open spec fn spec_normalize_display_name(name: Seq<char>) -> Option<Seq<char>> {
    let t = trim(collapse_name(trim(name), Seq::empty(), false, 0));
    if t.len() > 0 {
        Some(t)
    } else {
        None
    }
}

/// A name as collapsing leaves it: no control characters, whitespace only
/// as single spaces between other characters, none first.
pub open spec fn collapsed_shape(t: Seq<char>) -> bool {
    &&& forall|i: int| 0 <= i < t.len() ==> !is_control_char(#[trigger] t[i])
    &&& forall|i: int| 0 <= i < t.len() && is_space_char(#[trigger] t[i]) ==> t[i] == ' '
    &&& forall|i: int|
        0 <= i < t.len() - 1 && is_space_char(#[trigger] t[i]) ==> !is_space_char(t[i + 1])
    &&& t.len() > 0 ==> !is_space_char(t[0])
}

proof fn lemma_collapse_shape(s: Seq<char>, out: Seq<char>, last_space: bool, count: nat)
    requires
        collapsed_shape(out),
        last_space <==> (out.len() > 0 && is_space_char(out.last())),
        count == out.len(),
        count <= MAX_DISPLAY_NAME_CHARS,
    ensures
        collapsed_shape(collapse_name(s, out, last_space, count)),
        collapse_name(s, out, last_space, count).len() <= MAX_DISPLAY_NAME_CHARS,
    decreases s.len(),
{
    if s.len() == 0 || count >= MAX_DISPLAY_NAME_CHARS {
    } else if is_control_char(s[0]) {
        lemma_collapse_shape(s.drop_first(), out, last_space, count);
    } else if is_space_char(s[0]) {
        if out.len() == 0 || last_space {
            lemma_collapse_shape(s.drop_first(), out, last_space, count);
        } else {
            let o2 = out.push(' ');
            assert(is_space_char(' '));
            assert(!is_control_char(' '));
            assert forall|i: int| 0 <= i < o2.len() - 1 && is_space_char(#[trigger] o2[i]) implies !is_space_char(
                o2[i + 1],
            ) by {
                if i < out.len() - 1 {
                    assert(o2[i] == out[i] && o2[i + 1] == out[i + 1]);
                }
            }
            assert forall|i: int| 0 <= i < o2.len() implies !is_control_char(#[trigger] o2[i]) by {
                if i < out.len() {
                    assert(o2[i] == out[i]);
                }
            }
            assert forall|i: int| 0 <= i < o2.len() && is_space_char(#[trigger] o2[i]) implies o2[i]
                == ' ' by {
                if i < out.len() {
                    assert(o2[i] == out[i]);
                }
            }
            lemma_collapse_shape(s.drop_first(), o2, true, count + 1);
        }
    } else {
        let o2 = out.push(s[0]);
        assert forall|i: int| 0 <= i < o2.len() - 1 && is_space_char(#[trigger] o2[i]) implies !is_space_char(
            o2[i + 1],
        ) by {
            if i < out.len() - 1 {
                assert(o2[i] == out[i] && o2[i + 1] == out[i + 1]);
            }
        }
        assert forall|i: int| 0 <= i < o2.len() implies !is_control_char(#[trigger] o2[i]) by {
            if i < out.len() {
                assert(o2[i] == out[i]);
            }
        }
        assert forall|i: int| 0 <= i < o2.len() && is_space_char(#[trigger] o2[i]) implies o2[i]
            == ' ' by {
            if i < out.len() {
                assert(o2[i] == out[i]);
            }
        }
        lemma_collapse_shape(s.drop_first(), o2, false, count + 1);
    }
}

/// Collapsing a name that already has the collapsed shape keeps it.
proof fn lemma_collapse_keeps_shape(s: Seq<char>, out: Seq<char>, last_space: bool)
    requires
        collapsed_shape(out + s),
        last_space <==> (out.len() > 0 && is_space_char(out.last())),
        out.len() + s.len() <= MAX_DISPLAY_NAME_CHARS,
    ensures
        collapse_name(s, out, last_space, out.len()) == out + s,
    decreases s.len(),
{
    let w = out + s;
    if s.len() == 0 {
        assert(w =~= out);
    } else {
        assert(w[out.len() as int] == s[0]);
        let c = s[0];
        assert(!is_control_char(c));
        if is_space_char(c) {
            assert(c == ' ');
            if out.len() == 0 {
                assert(!is_space_char(w[0]));
            } else {
                assert(w[out.len() - 1] == out.last());
            }
        }
        let o2 = out.push(c);
        assert(o2 + s.drop_first() =~= w);
        lemma_collapse_keeps_shape(s.drop_first(), o2, is_space_char(c));
    }
}

/// What `trim_end` leaves is a prefix of the text.
proof fn lemma_trim_end_prefix(s: Seq<char>)
    ensures
        crate::text::trim_end(s).len() <= s.len(),
        crate::text::trim_end(s) == s.take(crate::text::trim_end(s).len() as int),
        crate::text::trim_end(s).len() > 0 ==> !is_space_char(crate::text::trim_end(s).last()),
    decreases s.len(),
{
    if s.len() > 0 && is_space_char(s.last()) {
        lemma_trim_end_prefix(s.drop_last());
        assert(s.drop_last().take(crate::text::trim_end(s).len() as int) =~= s.take(
            crate::text::trim_end(s).len() as int,
        ));
    } else {
        assert(s.take(s.len() as int) =~= s);
    }
}

/// A normalized display name normalizes to itself.
pub proof fn lemma_display_name_normal_form(name: Seq<char>)
    requires
        spec_normalize_display_name(name) is Some,
    ensures
        spec_normalize_display_name(spec_normalize_display_name(name).unwrap())
            == spec_normalize_display_name(name),
{
    let r = collapse_name(trim(name), Seq::empty(), false, 0);
    lemma_collapse_shape(trim(name), Seq::empty(), false, 0);
    assert(crate::text::trim_start(r) == r);
    let t = trim(r);
    assert(t == crate::text::trim_end(r));
    lemma_trim_end_prefix(r);
    assert forall|i: int| 0 <= i < t.len() implies t[i] == r[i] by {}
    assert(collapsed_shape(t));
    crate::text::lemma_trim_no_edge_space(t);
    lemma_collapse_keeps_shape(t, Seq::empty(), false);
    assert(Seq::<char>::empty() + t =~= t);
}

pub fn normalize_display_name(name: Option<String>) -> (r: Option<String>)
    ensures
        opt_string_view(r) == (match name {
            Some(n) => spec_normalize_display_name(n@),
            None => None,
        }),
{
    let name = match name {
        Some(n) => n,
        None => return None,
    };
    let v = trim_str(name.as_str());
    let mut normalized: Vec<char> = Vec::new();
    let mut last_was_space = false;
    let mut count: usize = 0;
    let mut i: usize = 0;
    assert(v@.subrange(0, v.len() as int) =~= v@);
    while i < v.len()
        invariant
            i <= v.len(),
            count <= MAX_DISPLAY_NAME_CHARS,
            collapse_name(v@, Seq::empty(), false, 0) == collapse_name(
                v@.subrange(i as int, v.len() as int),
                normalized@,
                last_was_space,
                count as nat,
            ),
        ensures
            collapse_name(v@, Seq::empty(), false, 0) == normalized@,
        decreases v.len() - i,
    {
        let ghost rest = v@.subrange(i as int, v.len() as int);
        assert(rest.drop_first() =~= v@.subrange(i + 1, v.len() as int));
        if count >= MAX_DISPLAY_NAME_CHARS {
            break;
        }
        let ch = v[i];
        if is_control(ch) {
            i += 1;
            continue;
        }
        if is_space(ch) {
            if normalized.len() == 0 || last_was_space {
                i += 1;
                continue;
            }
            normalized.push(' ');
            last_was_space = true;
        } else {
            normalized.push(ch);
            last_was_space = false;
        }
        count += 1;
        i += 1;
    }
    let t = trim_chars(&normalized);
    if t.len() > 0 {
        Some(string_of(&t))
    } else {
        None
    }
}

// ── profile usernames ───────────────────────────────────────────────

pub const MIN_USERNAME_CHARS: usize = 3;

pub const MAX_USERNAME_CHARS: usize = 24;

/// Keeps letters, digits, `-` and `_`, until 24 are kept.
pub open spec fn username_chars(s: Seq<char>, out: Seq<char>) -> Seq<char>
    decreases s.len(),
{
    if s.len() == 0 || out.len() >= MAX_USERNAME_CHARS {
        out
    } else if is_token_char(s[0]) {
        username_chars(s.drop_first(), out.push(s[0]))
    } else {
        username_chars(s.drop_first(), out)
    }
}

/// The username a requested profile name normalizes to, if it keeps at
/// least three characters.
pub open spec fn spec_normalize_profile_username(name: Seq<char>) -> Option<Seq<char>> {
    let u = username_chars(trim(name), Seq::empty());
    if u.len() >= MIN_USERNAME_CHARS {
        Some(u)
    } else {
        None
    }
}

pub fn normalize_profile_username(name: Option<&str>) -> (r: Option<String>)
    ensures
        opt_string_view(r) == (match name {
            Some(n) => spec_normalize_profile_username(n@),
            None => None,
        }),
{
    let name = match name {
        Some(n) => n,
        None => return None,
    };
    let v = trim_str(name);
    let mut normalized: Vec<char> = Vec::new();
    let mut i: usize = 0;
    assert(v@.subrange(0, v.len() as int) =~= v@);
    while i < v.len()
        invariant
            i <= v.len(),
            username_chars(v@, Seq::empty()) == username_chars(
                v@.subrange(i as int, v.len() as int),
                normalized@,
            ),
        ensures
            username_chars(v@, Seq::empty()) == normalized@,
        decreases v.len() - i,
    {
        assert(v@.subrange(i as int, v.len() as int).drop_first() =~= v@.subrange(
            i + 1,
            v.len() as int,
        ));
        if normalized.len() >= MAX_USERNAME_CHARS {
            break;
        }
        let ch = v[i];
        if is_token(ch) {
            normalized.push(ch);
        }
        i += 1;
    }
    if normalized.len() >= MIN_USERNAME_CHARS {
        Some(string_of(&normalized))
    } else {
        None
    }
}

proof fn lemma_token_char_not_space(c: char)
    requires
        is_token_char(c),
    ensures
        !is_space_char(c),
{
}

/// Keeping the characters of a text made of at most 24 username
/// characters keeps all of them.
proof fn lemma_username_chars_keeps_tokens(s: Seq<char>, out: Seq<char>)
    requires
        forall|i: int| 0 <= i < s.len() ==> is_token_char(#[trigger] s[i]),
        out.len() + s.len() <= MAX_USERNAME_CHARS,
    ensures
        username_chars(s, out) == out + s,
    decreases s.len(),
{
    if s.len() > 0 {
        assert(is_token_char(s[0]));
        lemma_username_chars_keeps_tokens(s.drop_first(), out.push(s[0]));
        assert(out.push(s[0]) + s.drop_first() =~= out + s);
    } else {
        assert(out + s =~= out);
    }
}

/// What `username_chars` keeps is made of username characters, at most
/// 24 of them.
proof fn lemma_username_chars_shape(s: Seq<char>, out: Seq<char>)
    requires
        forall|i: int| 0 <= i < out.len() ==> is_token_char(#[trigger] out[i]),
        out.len() <= MAX_USERNAME_CHARS,
    ensures
        forall|i: int|
            0 <= i < username_chars(s, out).len() ==> is_token_char(
                #[trigger] username_chars(s, out)[i],
            ),
        username_chars(s, out).len() <= MAX_USERNAME_CHARS,
    decreases s.len(),
{
    if s.len() > 0 && out.len() < MAX_USERNAME_CHARS {
        if is_token_char(s[0]) {
            let o2 = out.push(s[0]);
            assert forall|i: int| 0 <= i < o2.len() implies is_token_char(#[trigger] o2[i]) by {
                if i < out.len() {
                    assert(o2[i] == out[i]);
                }
            }
            lemma_username_chars_shape(s.drop_first(), o2);
        } else {
            lemma_username_chars_shape(s.drop_first(), out);
        }
    }
}

/// A normalized profile username normalizes to itself.
pub proof fn lemma_profile_username_normal_form(name: Seq<char>)
    requires
        spec_normalize_profile_username(name) is Some,
    ensures
        spec_normalize_profile_username(spec_normalize_profile_username(name).unwrap())
            == spec_normalize_profile_username(name),
{
    let u = spec_normalize_profile_username(name).unwrap();
    lemma_username_chars_shape(trim(name), Seq::empty());
    lemma_token_char_not_space(u[0]);
    lemma_token_char_not_space(u.last());
    crate::text::lemma_trim_no_edge_space(u);
    lemma_username_chars_keeps_tokens(u, Seq::empty());
    assert(Seq::<char>::empty() + u =~= u);
}

/// Usernames are unique without regard to ASCII case.
pub fn username_key(username: &str) -> (r: String)
    ensures
        r@ == lowercase_ascii(username@),
{
    let v = chars_of(username);
    let l = lowercase_chars(&v);
    string_of(&l)
}

// ── account keys ────────────────────────────────────────────────────

/// The 64-bit `DefaultHasher` hash of a user id.
pub uninterp spec fn user_id_hash(user_id: Seq<char>) -> u64;

/// The 64-bit `DefaultHasher` hash of a user id followed by a salt.
pub uninterp spec fn salted_user_id_hash(user_id: Seq<char>, salt: u64) -> u64;

/// `DefaultHasher::new()` fed the user id: the hash `user_id_hash` names.
#[verifier::external_body]
fn hash_user_id(user_id: &str) -> (r: u64)
    ensures
        r == user_id_hash(user_id@),
{
    let mut hasher = std::collections::hash_map::DefaultHasher::new();
    std::hash::Hash::hash(user_id, &mut hasher);
    std::hash::Hasher::finish(&hasher)
}

/// `DefaultHasher::new()` fed the user id and then the salt: the hash
/// `salted_user_id_hash` names.
#[verifier::external_body]
fn hash_user_id_with_salt(user_id: &str, salt: u64) -> (r: u64)
    ensures
        r == salted_user_id_hash(user_id@, salt),
{
    let mut hasher = std::collections::hash_map::DefaultHasher::new();
    std::hash::Hash::hash(user_id, &mut hasher);
    std::hash::Hash::hash(&salt, &mut hasher);
    std::hash::Hasher::finish(&hasher)
}

/// The account key that stands for a user id in storage: the user id's
/// hash as sixteen lowercase hexadecimal digits.
pub fn redacted_account_key(user_id: &str) -> (r: String)
    ensures
        r@ == hex_fixed(user_id_hash(user_id@) as nat, 16),
        r@.len() == 16,
{
    let h = hash_user_id(user_id);
    let v = hex_fixed_chars(h, 16);
    proof {
        crate::numtext::lemma_hex_fixed_len(h as nat, 16);
    }
    string_of(&v)
}

/// The default username candidate for a salt: `User` and the first eight
/// hexadecimal digits of the salted hash.
pub open spec fn default_username_candidate(user_id: Seq<char>, salt: u64) -> Seq<char> {
    "User"@ + hex_fixed(salted_user_id_hash(user_id, salt) as nat, 16).subrange(0, 8)
}

pub fn default_username_for_salt(user_id: &str, salt: u64) -> (r: String)
    ensures
        r@ == default_username_candidate(user_id@, salt),
{
    let h = hash_user_id_with_salt(user_id, salt);
    let hex = hex_fixed_chars(h, 16);
    proof {
        crate::numtext::lemma_hex_fixed_len(h as nat, 16);
    }
    let head = crate::text::sub_chars(&hex, 0, 8);
    let mut out = chars_of("User");
    extend_chars(&mut out, &head);
    string_of(&out)
}

// ── socket session keys ─────────────────────────────────────────────

/// The account a socket is attached to after authentication.
#[derive(Debug)]
pub struct SocketSessionKey {
    pub user_id: String,
    pub display_name: Option<String>,
    pub ephemeral: bool,
    pub scope: &'static str,
}

/// Resolves the account of a socket: a Clerk user id (with a session
/// token), else the anonymous id of an `anon:` token, else that of the
/// browser session id, else a fresh ephemeral anonymous id.
pub fn socket_session_key_from_auth(
    token: &str,
    clerk_user_id: Option<String>,
    anonymous_session: Option<String>,
    display_name: Option<String>,
) -> (r: SocketSessionKey)
    ensures
        r.display_name == display_name,
        ({
            let clerk = spec_clerk_user_id_from_auth(token@, opt_string_view(clerk_user_id));
            let anon = spec_anonymous_user_id_from_token(token@);
            let session = match anonymous_session {
                Some(s) => spec_anonymous_user_id_from_id(s@),
                None => None,
            };
            if clerk is Some {
                r.user_id@ == clerk.unwrap() && !r.ephemeral && r.scope@ == "clerk"@
            } else if anon is Some {
                r.user_id@ == anon.unwrap() && !r.ephemeral && r.scope@ == "anonymous"@
            } else if session is Some {
                r.user_id@ == session.unwrap() && !r.ephemeral && r.scope@ == "anonymous"@
            } else {
                &&& r.ephemeral
                &&& r.scope@ == "anonymous-ephemeral"@
                &&& exists|n: u64| r.user_id@ == "anonymous:"@ + decimal(n as nat)
            }
        }),
{
    let clerk_ref: Option<&str> = match &clerk_user_id {
        Some(s) => Some(s.as_str()),
        None => None,
    };
    match clerk_user_id_from_auth(token, clerk_ref) {
        Some(user_id) => {
            return SocketSessionKey { user_id, display_name, ephemeral: false, scope: "clerk" };
        },
        None => {},
    }
    match anonymous_user_id_from_token(token) {
        Some(user_id) => {
            return SocketSessionKey {
                user_id,
                display_name,
                ephemeral: false,
                scope: "anonymous",
            };
        },
        None => {},
    }
    match &anonymous_session {
        Some(s) => match anonymous_user_id_from_id(s.as_str()) {
            Some(user_id) => {
                return SocketSessionKey {
                    user_id,
                    display_name,
                    ephemeral: false,
                    scope: "anonymous",
                };
            },
            None => {},
        },
        None => {},
    }
    let n = random_u64();
    let mut out = chars_of("anonymous:");
    push_decimal(&mut out, n);
    SocketSessionKey {
        user_id: string_of(&out),
        display_name,
        ephemeral: true,
        scope: "anonymous-ephemeral",
    }
}

} // verus!
