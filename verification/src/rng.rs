//! Random choices: the thread-local generator of `fastrand`, and the random
//! tokens and codes built from it.

use vstd::prelude::*;
use crate::text::{is_ascii_digit_char, is_ascii_upper_char, string_of};
use crate::numtext::{hex_fixed, hex_fixed_chars, lemma_hex_fixed_len};

verus! {

/// `fastrand::u64(..)`: a uniformly random `u64`.
#[verifier::external_body]
pub(crate) fn random_u64() -> u64 {
    fastrand::u64(..)
}

/// `fastrand::u32(..)`: a uniformly random `u32`.
#[verifier::external_body]
pub(crate) fn random_u32() -> u32 {
    fastrand::u32(..)
}

/// `fastrand::bool()`: a fair coin.
#[verifier::external_body]
pub(crate) fn random_bool() -> bool {
    fastrand::bool()
}

/// `fastrand::usize(..n)`: a uniformly random index below `n`; the range
/// must not be empty.
#[verifier::external_body]
pub(crate) fn random_index(n: usize) -> (r: usize)
    requires
        n > 0,
    ensures
        r < n,
{
    fastrand::usize(..n)
}

/// Characters of replay ids and share slugs.
pub const REPLAY_TOKEN_ALPHABET: &'static str =
    "0123456789ABCDEFGHIJKLMNOPQRSTUVWXYZabcdefghijklmnopqrstuvwxyz";

/// Characters of room codes: no `I`, `O`, `0` or `1`.
pub const ROOM_CODE_ALPHABET: &'static str = "ABCDEFGHJKLMNPQRSTUVWXYZ23456789";

/// Characters drawn from `alphabet`.
pub open spec fn drawn_from(s: Seq<char>, alphabet: Seq<char>) -> bool {
    forall|i: int| 0 <= i < s.len() ==> alphabet.contains(#[trigger] s[i])
}

/// `len` characters drawn at random from `alphabet`.
pub fn random_chars(alphabet: &str, len: usize) -> (r: String)
    requires
        alphabet@.len() > 0,
    ensures
        r@.len() == len,
        drawn_from(r@, alphabet@),
{
    let letters = crate::text::chars_of(alphabet);
    let mut out: Vec<char> = Vec::new();
    let mut i: usize = 0;
    while i < len
        invariant
            i <= len,
            letters@ == alphabet@,
            letters@.len() > 0,
            out@.len() == i,
            drawn_from(out@, alphabet@),
        decreases len - i,
    {
        let idx = random_index(letters.len());
        let c = letters[idx];
        assert(alphabet@[idx as int] == c);
        out.push(c);
        i += 1;
    }
    string_of(&out)
}

/// A random base-62 token of `len` characters.
pub fn random_base62(len: usize) -> (r: String)
    ensures
        r@.len() == len,
        drawn_from(r@, REPLAY_TOKEN_ALPHABET@),
{
    proof {
        reveal_strlit("0123456789ABCDEFGHIJKLMNOPQRSTUVWXYZabcdefghijklmnopqrstuvwxyz");
    }
    random_chars(REPLAY_TOKEN_ALPHABET, len)
}

/// A random six-character room code.
pub fn new_room_code() -> (r: String)
    ensures
        r@.len() == 6,
        drawn_from(r@, ROOM_CODE_ALPHABET@),
        crate::room::is_room_code(r@),
{
    proof {
        reveal_strlit("ABCDEFGHJKLMNPQRSTUVWXYZ23456789");
    }
    let code = random_chars(ROOM_CODE_ALPHABET, 6);
    proof {
        let a = ROOM_CODE_ALPHABET@;
        assert forall|j: int| 0 <= j < a.len() implies is_ascii_upper_char(#[trigger] a[j]) || is_ascii_digit_char(
            a[j],
        ) by {}
        assert forall|i: int| 0 <= i < 6 implies is_ascii_upper_char(#[trigger] code@[i]) || is_ascii_digit_char(
            code@[i],
        ) by {
            assert(a.contains(code@[i]));
        }
    }
    code
}

/// A guest-like name for the managed lobby bot: `User` and eight random
/// hexadecimal digits.
pub fn managed_bot_display_name() -> (r: String)
    ensures
        exists|n: u32| r@ == "User"@ + hex_fixed(n as nat, 8),
{
    let n = random_u32();
    let mut out = crate::text::chars_of("User");
    let hex = hex_fixed_chars(n as u64, 8);
    crate::text::extend_chars(&mut out, &hex);
    string_of(&out)
}

} // verus!
