//! Decimal and hexadecimal text for integers, and parsing of unsigned
//! decimal integers with the rules of `str::parse::<u64>()`.

use vstd::prelude::*;
use crate::text::{extend_chars, is_ascii_digit, is_ascii_digit_char, string_of};

verus! {

pub open spec fn digit_char(d: nat) -> char {
    ((d + 48) as u32) as char
}

pub open spec fn hex_digit_char(d: nat) -> char {
    if d < 10 {
        digit_char(d)
    } else {
        ((d + 87) as u32) as char
    }
}

/// The decimal text of `n`, as `n.to_string()` writes it.
pub open spec fn decimal(n: nat) -> Seq<char>
    decreases n,
{
    if n < 10 {
        seq![digit_char(n)]
    } else {
        decimal(n / 10).push(digit_char(n % 10))
    }
}

/// The last `k` lowercase hexadecimal digits of `n`, zero padded.
pub open spec fn hex_fixed(n: nat, k: nat) -> Seq<char>
    decreases k,
{
    if k == 0 {
        Seq::empty()
    } else {
        hex_fixed(n / 16, (k - 1) as nat).push(hex_digit_char(n % 16))
    }
}

pub fn digit(d: u64) -> (c: char)
    requires
        d < 10,
    ensures
        c == digit_char(d as nat),
{
    let b = (d as u8) + 48;
    b as char
}

pub fn hex_digit(d: u64) -> (c: char)
    requires
        d < 16,
    ensures
        c == hex_digit_char(d as nat),
{
    if d < 10 {
        let b = (d as u8) + 48;
        b as char
    } else {
        let b = (d as u8) + 87;
        b as char
    }
}

pub fn decimal_chars(n: u64) -> (r: Vec<char>)
    ensures
        r@ == decimal(n as nat),
    decreases n,
{
    if n < 10 {
        let mut r = Vec::new();
        r.push(digit(n));
        assert(r@ =~= seq![digit_char(n as nat)]);
        r
    } else {
        let mut r = decimal_chars(n / 10);
        r.push(digit(n % 10));
        r
    }
}

/// Appends the decimal text of `n`.
pub fn push_decimal(dst: &mut Vec<char>, n: u64)
    ensures
        final(dst)@ == old(dst)@ + decimal(n as nat),
{
    let d = decimal_chars(n);
    extend_chars(dst, &d);
}

pub fn hex_fixed_chars(n: u64, k: u64) -> (r: Vec<char>)
    ensures
        r@ == hex_fixed(n as nat, k as nat),
    decreases k,
{
    if k == 0 {
        let r = Vec::new();
        assert(r@ =~= Seq::<char>::empty());
        r
    } else {
        let mut r = hex_fixed_chars(n / 16, k - 1);
        r.push(hex_digit(n % 16));
        r
    }
}

pub fn decimal_string(n: u64) -> (s: String)
    ensures
        s@ == decimal(n as nat),
{
    let v = decimal_chars(n);
    string_of(&v)
}

// ── parsing ─────────────────────────────────────────────────────────

/// How `str::parse` of an unsigned integer type ends.
pub enum ParsedUint {
    Value(nat),
    Empty,
    InvalidDigit,
    Overflow,
}

/// Scans decimal digits left to right from the value `acc`, stopping at the
/// first non-digit or at the first step that exceeds `max`.
pub open spec fn scan_digits(s: Seq<char>, acc: nat, max: nat) -> ParsedUint
    decreases s.len(),
{
    if s.len() == 0 {
        ParsedUint::Value(acc)
    } else if !is_ascii_digit_char(s[0]) {
        ParsedUint::InvalidDigit
    } else {
        let next = acc * 10 + ((s[0] as u32) - 48);
        if next > max {
            ParsedUint::Overflow
        } else {
            scan_digits(s.drop_first(), next as nat, max)
        }
    }
}

/// `str::parse` for an unsigned integer type whose largest value is `max`:
/// an optional leading `+`, then one or more decimal digits.
pub open spec fn parse_uint(s: Seq<char>, max: nat) -> ParsedUint {
    if s.len() == 0 {
        ParsedUint::Empty
    } else if (s[0] == '+' || s[0] == '-') && s.len() == 1 {
        ParsedUint::InvalidDigit
    } else if s[0] == '+' {
        scan_digits(s.drop_first(), 0, max)
    } else {
        scan_digits(s, 0, max)
    }
}

/// The parsed value, where parsing succeeds.
pub open spec fn parsed_value(s: Seq<char>, max: nat) -> Option<nat> {
    match parse_uint(s, max) {
        ParsedUint::Value(v) => Some(v),
        _ => None,
    }
}

/// Outcome of parsing an unsigned integer.
#[derive(Debug, PartialEq, Eq, Clone, Copy)]
pub enum UintParse {
    Value(u64),
    Empty,
    InvalidDigit,
    Overflow,
}

pub open spec fn uint_parse_matches(r: UintParse, p: ParsedUint) -> bool {
    match (r, p) {
        (UintParse::Value(a), ParsedUint::Value(b)) => a == b,
        (UintParse::Empty, ParsedUint::Empty) => true,
        (UintParse::InvalidDigit, ParsedUint::InvalidDigit) => true,
        (UintParse::Overflow, ParsedUint::Overflow) => true,
        _ => false,
    }
}

/// Parses `v[start..]` as decimal digits, as `scan_digits` describes.
fn scan_digit_chars(v: &Vec<char>, start: usize, max: u64) -> (r: UintParse)
    requires
        start <= v.len(),
    ensures
        uint_parse_matches(r, scan_digits(v@.subrange(start as int, v.len() as int), 0, max as nat)),
{
    let mut acc: u64 = 0;
    let mut i = start;
    while i < v.len()
        invariant
            start <= i <= v.len(),
            acc <= max,
            scan_digits(v@.subrange(start as int, v.len() as int), 0, max as nat) == scan_digits(
                v@.subrange(i as int, v.len() as int),
                acc as nat,
                max as nat,
            ),
        decreases v.len() - i,
    {
        let c = v[i];
        assert(v@.subrange(i as int, v.len() as int)[0] == c);
        if !is_ascii_digit(c) {
            return UintParse::InvalidDigit;
        }
        let d = (c as u32 - 48) as u128;
        let next: u128 = (acc as u128) * 10 + d;
        if next > max as u128 {
            return UintParse::Overflow;
        }
        assert(v@.subrange(i as int, v.len() as int).drop_first() =~= v@.subrange(
            i + 1,
            v.len() as int,
        ));
        acc = next as u64;
        i += 1;
    }
    UintParse::Value(acc)
}

/// Parses an unsigned integer no larger than `max`, as `str::parse` does.
pub fn parse_uint_chars(v: &Vec<char>, max: u64) -> (r: UintParse)
    ensures
        uint_parse_matches(r, parse_uint(v@, max as nat)),
{
    if v.len() == 0 {
        return UintParse::Empty;
    }
    if (v[0] == '+' || v[0] == '-') && v.len() == 1 {
        return UintParse::InvalidDigit;
    }
    if v[0] == '+' {
        assert(v@.subrange(1, v.len() as int) =~= v@.drop_first());
        scan_digit_chars(v, 1, max)
    } else {
        assert(v@.subrange(0, v.len() as int) =~= v@);
        scan_digit_chars(v, 0, max)
    }
}

/// `str::parse::<u64>().ok()`.
pub fn parse_u64_chars(v: &Vec<char>) -> (r: Option<u64>)
    ensures
        r matches Some(x) ==> parsed_value(v@, u64::MAX as nat) == Some(x as nat),
        r is None ==> parsed_value(v@, u64::MAX as nat) is None,
{
    match parse_uint_chars(v, u64::MAX) {
        UintParse::Value(x) => Some(x),
        _ => None,
    }
}

/// A parsed value never exceeds the largest value of its type.
pub proof fn lemma_parse_uint_bounded(s: Seq<char>, max: nat)
    ensures
        parse_uint(s, max) matches ParsedUint::Value(v) ==> v <= max,
{
    if s.len() > 0 && s[0] == '+' {
        lemma_scan_digits_bounded(s.drop_first(), 0, max);
    } else {
        lemma_scan_digits_bounded(s, 0, max);
    }
}

proof fn lemma_scan_digits_bounded(s: Seq<char>, acc: nat, max: nat)
    requires
        acc <= max,
    ensures
        scan_digits(s, acc, max) matches ParsedUint::Value(v) ==> v <= max,
    decreases s.len(),
{
    if s.len() > 0 && is_ascii_digit_char(s[0]) {
        let next = acc * 10 + ((s[0] as u32) - 48);
        if next <= max {
            lemma_scan_digits_bounded(s.drop_first(), next as nat, max);
        }
    }
}

/// How `str::parse` of a signed integer type ends.
pub enum ParsedInt {
    Value(int),
    Empty,
    InvalidDigit,
    PosOverflow,
    NegOverflow,
}

/// `str::parse` for a signed integer type whose values run from
/// `-max_neg` to `max_pos`: an optional sign, then decimal digits.
pub open spec fn parse_int(s: Seq<char>, max_pos: nat, max_neg: nat) -> ParsedInt {
    if s.len() == 0 {
        ParsedInt::Empty
    } else if (s[0] == '+' || s[0] == '-') && s.len() == 1 {
        ParsedInt::InvalidDigit
    } else if s[0] == '-' {
        match scan_digits(s.drop_first(), 0, max_neg) {
            ParsedUint::Value(v) => ParsedInt::Value(-v),
            ParsedUint::Overflow => ParsedInt::NegOverflow,
            ParsedUint::Empty => ParsedInt::Empty,
            ParsedUint::InvalidDigit => ParsedInt::InvalidDigit,
        }
    } else {
        let body = if s[0] == '+' {
            s.drop_first()
        } else {
            s
        };
        match scan_digits(body, 0, max_pos) {
            ParsedUint::Value(v) => ParsedInt::Value(v as int),
            ParsedUint::Overflow => ParsedInt::PosOverflow,
            ParsedUint::Empty => ParsedInt::Empty,
            ParsedUint::InvalidDigit => ParsedInt::InvalidDigit,
        }
    }
}

/// Outcome of parsing a signed integer: its sign and magnitude, or why it
/// failed.
#[derive(Debug, PartialEq, Eq, Clone, Copy)]
pub enum IntParse {
    Value { negative: bool, magnitude: u64 },
    Empty,
    InvalidDigit,
    PosOverflow,
    NegOverflow,
}

pub open spec fn int_parse_matches(r: IntParse, p: ParsedInt) -> bool {
    match (r, p) {
        (IntParse::Value { negative, magnitude }, ParsedInt::Value(x)) => x == (if negative {
            -magnitude
        } else {
            magnitude as int
        }),
        (IntParse::Empty, ParsedInt::Empty) => true,
        (IntParse::InvalidDigit, ParsedInt::InvalidDigit) => true,
        (IntParse::PosOverflow, ParsedInt::PosOverflow) => true,
        (IntParse::NegOverflow, ParsedInt::NegOverflow) => true,
        _ => false,
    }
}

/// Parses a signed integer between `-max_neg` and `max_pos`, as
/// `str::parse` does.
pub fn parse_int_chars(v: &Vec<char>, max_pos: u64, max_neg: u64) -> (r: IntParse)
    ensures
        int_parse_matches(r, parse_int(v@, max_pos as nat, max_neg as nat)),
        r matches IntParse::Value { negative, magnitude } ==> magnitude <= (if negative {
            max_neg
        } else {
            max_pos
        }),
{
    if v.len() == 0 {
        return IntParse::Empty;
    }
    if (v[0] == '+' || v[0] == '-') && v.len() == 1 {
        return IntParse::InvalidDigit;
    }
    let negative = v[0] == '-';
    let start: usize = if v[0] == '+' || v[0] == '-' {
        1
    } else {
        0
    };
    let max = if negative {
        max_neg
    } else {
        max_pos
    };
    proof {
        if start == 1 {
            assert(v@.subrange(1, v.len() as int) =~= v@.drop_first());
        } else {
            assert(v@.subrange(0, v.len() as int) =~= v@);
        }
        lemma_scan_digits_bounded(v@.subrange(start as int, v.len() as int), 0, max as nat);
    }
    match scan_digit_chars(v, start, max) {
        UintParse::Value(m) => IntParse::Value { negative, magnitude: m },
        UintParse::Overflow => if negative {
            IntParse::NegOverflow
        } else {
            IntParse::PosOverflow
        },
        UintParse::Empty => IntParse::Empty,
        UintParse::InvalidDigit => IntParse::InvalidDigit,
    }
}

proof fn lemma_digit_char_value(d: nat)
    requires
        d < 10,
    ensures
        is_ascii_digit_char(digit_char(d)),
        (digit_char(d) as u32) - 48 == d,
        digit_char(d) != '+' && digit_char(d) != '-',
{
}

/// Scanning one more character continues from where the shorter text
/// ended.
proof fn lemma_scan_digits_push(s: Seq<char>, c: char, acc: nat, max: nat)
    ensures
        scan_digits(s.push(c), acc, max) == (match scan_digits(s, acc, max) {
            ParsedUint::Value(v) => if !is_ascii_digit_char(c) {
                ParsedUint::InvalidDigit
            } else if v * 10 + ((c as u32) - 48) > max {
                ParsedUint::Overflow
            } else {
                ParsedUint::Value((v * 10 + ((c as u32) - 48)) as nat)
            },
            other => other,
        }),
    decreases s.len(),
{
    let t = s.push(c);
    if s.len() == 0 {
        assert(t[0] == c);
        assert(t.drop_first() =~= Seq::<char>::empty());
        assert(scan_digits(s, acc, max) == ParsedUint::Value(acc));
        if is_ascii_digit_char(c) {
            let next = acc * 10 + ((c as u32) - 48);
            if next <= max {
                assert(scan_digits(Seq::<char>::empty(), next as nat, max) == ParsedUint::Value(
                    next as nat,
                ));
            }
        }
    } else {
        assert(t.drop_first() =~= s.drop_first().push(c));
        assert(t[0] == s[0]);
        if is_ascii_digit_char(s[0]) {
            let next = acc * 10 + ((s[0] as u32) - 48);
            if next <= max {
                lemma_scan_digits_push(s.drop_first(), c, next as nat, max);
                assert(scan_digits(t, acc, max) == scan_digits(t.drop_first(), next as nat, max));
                assert(scan_digits(s, acc, max) == scan_digits(s.drop_first(), next as nat, max));
            }
        }
    }
}

/// Reading back the decimal text of a number gives the number.
pub proof fn lemma_scan_decimal(n: nat, max: nat)
    requires
        n <= max,
    ensures
        scan_digits(decimal(n), 0, max) == ParsedUint::Value(n),
    decreases n,
{
    if n < 10 {
        lemma_digit_char_value(n);
        let d = seq![digit_char(n)];
        assert(decimal(n) == d);
        assert(d[0] == digit_char(n));
        assert(d.drop_first() =~= Seq::<char>::empty());
        assert(scan_digits(Seq::<char>::empty(), n, max) == ParsedUint::Value(n));
    } else {
        lemma_scan_decimal(n / 10, max);
        lemma_digit_char_value(n % 10);
        lemma_scan_digits_push(decimal(n / 10), digit_char(n % 10), 0, max);
        assert(decimal(n) == decimal(n / 10).push(digit_char(n % 10)));
        assert((n / 10) * 10 + n % 10 == n);
    }
}

/// `n.to_string().parse()` gives back `n`.
pub proof fn lemma_parse_decimal(n: nat, max: nat)
    requires
        n <= max,
    ensures
        parse_uint(decimal(n), max) == ParsedUint::Value(n),
        parsed_value(decimal(n), max) == Some(n),
{
    lemma_scan_decimal(n, max);
    lemma_decimal_digits(n);
}

/// Every character of a decimal text is a digit, and there is at least
/// one.
pub proof fn lemma_decimal_digits(n: nat)
    ensures
        decimal(n).len() > 0,
        forall|i: int| 0 <= i < decimal(n).len() ==> is_ascii_digit_char(#[trigger] decimal(n)[i]),
    decreases n,
{
    if n < 10 {
        lemma_digit_char_value(n);
    } else {
        lemma_decimal_digits(n / 10);
        lemma_digit_char_value(n % 10);
        assert forall|i: int| 0 <= i < decimal(n).len() implies is_ascii_digit_char(
            #[trigger] decimal(n)[i],
        ) by {
            if i < decimal(n / 10).len() {
                assert(decimal(n)[i] == decimal(n / 10)[i]);
            }
        }
    }
}

/// The `ParsedUint` an outcome stands for.
pub open spec fn parsed_of(r: UintParse) -> ParsedUint {
    match r {
        UintParse::Value(a) => ParsedUint::Value(a as nat),
        UintParse::Empty => ParsedUint::Empty,
        UintParse::InvalidDigit => ParsedUint::InvalidDigit,
        UintParse::Overflow => ParsedUint::Overflow,
    }
}

pub proof fn lemma_hex_fixed_len(n: nat, k: nat)
    ensures
        hex_fixed(n, k).len() == k,
    decreases k,
{
    if k > 0 {
        lemma_hex_fixed_len(n / 16, (k - 1) as nat);
    }
}

} // verus!
