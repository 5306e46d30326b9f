//! The Redis side of multiplayer: connection settings read from a
//! `redis://` URL, the RESP wire format of commands and replies, and the
//! key names under which rooms are stored.

use vstd::prelude::*;
use crate::text::{
    chars_of, extend_str, find_first, find_first_of, find_last, first_pos, first_pos_of,
    last_pos, starts_with_str, str_eq, string_of, sub_chars, trim, trim_chars,
};
use crate::numtext::{
    decimal, decimal_chars, int_parse_matches, lemma_parse_uint_bounded, parse_int,
    parse_int_chars, parse_uint, parse_uint_chars, parsed_of, IntParse, ParsedInt, ParsedUint,
    UintParse, uint_parse_matches,
};
use vstd::utf8::{decode_utf8, encode_utf8, valid_utf8};

verus! {

pub const DEFAULT_REDIS_PORT: u16 = 6379;

pub const REDIS_PRESENCE_TTL_MS: u64 = 35_000;

pub const REDIS_CAS_RETRIES: usize = 12;

pub const REDIS_KEY_PREFIX: &'static str = "hexfish:multiplayer";

// ── connection settings ─────────────────────────────────────────────

/// Where and how to connect to Redis.
pub struct RedisConfig {
    pub host: String,
    pub port: u16,
    pub password: Option<String>,
    pub db: Option<u32>,
}

/// The text `ParseIntError` displays for each way parsing fails.
pub open spec fn int_error_message(p: ParsedUint) -> Seq<char> {
    match p {
        ParsedUint::Empty => "cannot parse integer from empty string"@,
        ParsedUint::InvalidDigit => "invalid digit found in string"@,
        ParsedUint::Overflow => "number too large to fit in target type"@,
        ParsedUint::Value(_) => Seq::empty(),
    }
}

fn int_error_text(p: UintParse) -> (r: &'static str)
    ensures
        r@ == int_error_message(parsed_of(p)),
{
    proof {
        reveal_strlit("cannot parse integer from empty string");
        reveal_strlit("invalid digit found in string");
        reveal_strlit("number too large to fit in target type");
        reveal_strlit("");
    }
    match p {
        UintParse::Empty => "cannot parse integer from empty string",
        UintParse::InvalidDigit => "invalid digit found in string",
        UintParse::Overflow => "number too large to fit in target type",
        UintParse::Value(_) => "",
    }
}

/// The part of a URL after `redis://`, when it starts so.
pub open spec fn url_rest(url: Seq<char>) -> Option<Seq<char>> {
    let t = trim(url);
    if t.len() >= 8 && t.take(8) == "redis://"@ {
        Some(t.skip(8))
    } else {
        None
    }
}

/// `rest.split_once('/')`, with the whole text as authority when there is
/// no slash.
pub open spec fn url_authority(rest: Seq<char>) -> Seq<char> {
    let i = first_pos(rest, '/');
    if i < 0 {
        rest
    } else {
        rest.take(i)
    }
}

pub open spec fn url_path(rest: Seq<char>) -> Seq<char> {
    let i = first_pos(rest, '/');
    if i < 0 {
        Seq::empty()
    } else {
        rest.skip(i + 1)
    }
}

/// The user-info part before the last `@`.
pub open spec fn url_auth(authority: Seq<char>) -> Option<Seq<char>> {
    let i = last_pos(authority, '@');
    if i < 0 {
        None
    } else {
        Some(authority.take(i))
    }
}

pub open spec fn url_host_port(authority: Seq<char>) -> Seq<char> {
    let i = last_pos(authority, '@');
    if i < 0 {
        authority
    } else {
        authority.skip(i + 1)
    }
}

/// The password: what follows the last `:` of the user info (all of it
/// without a colon), unless that is empty.
pub open spec fn url_password(auth: Option<Seq<char>>) -> Option<Seq<char>> {
    match auth {
        None => None,
        Some(a) => {
            let i = last_pos(a, ':');
            let p = if i < 0 {
                a
            } else {
                a.skip(i + 1)
            };
            if p.len() == 0 {
                None
            } else {
                Some(p)
            }
        },
    }
}

pub open spec fn url_host(host_port: Seq<char>) -> Seq<char> {
    let i = last_pos(host_port, ':');
    if i < 0 {
        host_port
    } else {
        host_port.take(i)
    }
}

/// The port after the last `:`; the default port when there is none or it
/// does not parse as a `u16`.
pub open spec fn url_port(host_port: Seq<char>) -> nat {
    let i = last_pos(host_port, ':');
    if i < 0 {
        DEFAULT_REDIS_PORT as nat
    } else {
        match parse_uint(host_port.skip(i + 1), u16::MAX as nat) {
            ParsedUint::Value(p) => p,
            _ => DEFAULT_REDIS_PORT as nat,
        }
    }
}

/// The database text: the path up to the first `?` or `#`.
pub open spec fn url_db_text(path: Seq<char>) -> Seq<char> {
    let i = first_pos_of(path, '?', '#');
    if i < 0 {
        path
    } else {
        path.take(i)
    }
}

/// What `RedisConfig::parse` gives for a URL: host, port, password and
/// database, or the error message.
pub open spec fn spec_redis_config(url: Seq<char>) -> Result<
    (Seq<char>, nat, Option<Seq<char>>, Option<nat>),
    Seq<char>,
> {
    match url_rest(url) {
        None => Err("REDIS_URL must start with redis://"@),
        Some(rest) => {
            let authority = url_authority(rest);
            let host_port = url_host_port(authority);
            let host = url_host(host_port);
            if trim(host).len() == 0 {
                Err("REDIS_URL is missing a host"@)
            } else {
                let db_text = url_db_text(url_path(rest));
                let result = (
                    host,
                    url_port(host_port),
                    url_password(url_auth(authority)),
                    None::<nat>,
                );
                if db_text.len() == 0 {
                    Ok(result)
                } else {
                    match parse_uint(db_text, u32::MAX as nat) {
                        ParsedUint::Value(d) => Ok((result.0, result.1, result.2, Some(d))),
                        p => Err("invalid Redis database in REDIS_URL: "@ + int_error_message(p)),
                    }
                }
            }
        },
    }
}

pub open spec fn opt_string_chars(o: Option<String>) -> Option<Seq<char>> {
    match o {
        Some(s) => Some(s@),
        None => None,
    }
}

pub open spec fn opt_u32_nat(o: Option<u32>) -> Option<nat> {
    match o {
        Some(d) => Some(d as nat),
        None => None,
    }
}

impl RedisConfig {
    pub open spec fn view_tuple(&self) -> (Seq<char>, nat, Option<Seq<char>>, Option<nat>) {
        (self.host@, self.port as nat, opt_string_chars(self.password), opt_u32_nat(self.db))
    }

    /// Reads a `redis://[user:password@]host[:port][/db]` URL.
    pub fn parse(url: &str) -> (r: Result<RedisConfig, String>)
        ensures
            r matches Ok(c) ==> spec_redis_config(url@) == Ok::<
                (Seq<char>, nat, Option<Seq<char>>, Option<nat>),
                Seq<char>,
            >(c.view_tuple()),
            r matches Err(m) ==> spec_redis_config(url@) == Err::<
                (Seq<char>, nat, Option<Seq<char>>, Option<nat>),
                Seq<char>,
            >(m@),
    {
        let t = trim_chars(&chars_of(url));
        if !starts_with_str(&t, "redis://") {
            proof {
                reveal_strlit("redis://");
            }
            return Err("REDIS_URL must start with redis://".to_string());
        }
        proof {
            reveal_strlit("redis://");
        }
        let rest = sub_chars(&t, 8, t.len());
        assert(rest@ == url_rest(url@).unwrap());
        let (authority, path) = match find_first(&rest, '/') {
            Some(i) => (sub_chars(&rest, 0, i), sub_chars(&rest, i + 1, rest.len())),
            None => (sub_chars(&rest, 0, rest.len()), Vec::new()),
        };
        assert(authority@ == url_authority(rest@));
        assert(path@ == url_path(rest@));
        let (auth, host_port) = match find_last(&authority, '@') {
            Some(i) => (
                Some(sub_chars(&authority, 0, i)),
                sub_chars(&authority, i + 1, authority.len()),
            ),
            None => (None, sub_chars(&authority, 0, authority.len())),
        };
        assert(host_port@ == url_host_port(authority@));
        let password: Option<String> = match auth {
            None => None,
            Some(a) => {
                let p = match find_last(&a, ':') {
                    Some(i) => sub_chars(&a, i + 1, a.len()),
                    None => sub_chars(&a, 0, a.len()),
                };
                if p.len() == 0 {
                    None
                } else {
                    Some(string_of(&p))
                }
            },
        };
        assert(opt_string_chars(password) == url_password(url_auth(authority@)));
        let (host, port) = match find_last(&host_port, ':') {
            Some(i) => {
                let port_text = sub_chars(&host_port, i + 1, host_port.len());
                assert(port_text@ =~= host_port@.skip(i + 1));
                proof {
                    lemma_parse_uint_bounded(port_text@, 65535);
                }
                let port: u16 = match parse_uint_chars(&port_text, 65535) {
                    UintParse::Value(p) => p as u16,
                    _ => DEFAULT_REDIS_PORT,
                };
                (sub_chars(&host_port, 0, i), port)
            },
            None => (sub_chars(&host_port, 0, host_port.len()), DEFAULT_REDIS_PORT),
        };
        assert(host@ == url_host(host_port@));
        assert(port as nat == url_port(host_port@));
        if trim_chars(&host).len() == 0 {
            return Err("REDIS_URL is missing a host".to_string());
        }
        let db_text = match find_first_of(&path, '?', '#') {
            Some(i) => sub_chars(&path, 0, i),
            None => sub_chars(&path, 0, path.len()),
        };
        assert(db_text@ == url_db_text(path@));
        proof {
            lemma_parse_uint_bounded(db_text@, 0xffff_ffff);
        }
        let db: Option<u32> = if db_text.len() == 0 {
            None
        } else {
            match parse_uint_chars(&db_text, 0xffff_ffff) {
                UintParse::Value(d) => Some(d as u32),
                other => {
                    let mut msg: Vec<char> = Vec::new();
                    extend_str(&mut msg, "invalid Redis database in REDIS_URL: ");
                    extend_str(&mut msg, int_error_text(other));
                    return Err(string_of(&msg));
                },
            }
        };
        Ok(RedisConfig { host: string_of(&host), port, password, db })
    }
}


// ── commands on the wire ────────────────────────────────────────────

pub open spec fn ascii_bytes(s: Seq<char>) -> Seq<u8> {
    s.map_values(|c: char| c as u8)
}

pub open spec fn crlf() -> Seq<u8> {
    seq![13u8, 10u8]
}

/// One RESP bulk string: `$`, the byte length, CRLF, the bytes, CRLF.
pub open spec fn resp_bulk(b: Seq<u8>) -> Seq<u8> {
    seq![36u8] + ascii_bytes(decimal(b.len())) + crlf() + b + crlf()
}

pub open spec fn resp_bulks(args: Seq<Seq<char>>) -> Seq<u8>
    decreases args.len(),
{
    if args.len() == 0 {
        Seq::empty()
    } else {
        resp_bulks(args.drop_last()) + resp_bulk(encode_utf8(args.last()))
    }
}

/// A command as RESP sends it: an array of bulk strings, one per argument,
/// each holding the argument's UTF-8 bytes.
pub open spec fn resp_command(args: Seq<Seq<char>>) -> Seq<u8> {
    seq![42u8] + ascii_bytes(decimal(args.len())) + crlf() + resp_bulks(args)
}

fn push_ascii_decimal(dst: &mut Vec<u8>, n: u64)
    ensures
        final(dst)@ == old(dst)@ + ascii_bytes(decimal(n as nat)),
{
    let d = decimal_chars(n);
    let mut i: usize = 0;
    while i < d.len()
        invariant
            i <= d.len(),
            d@ == decimal(n as nat),
            dst@ == old(dst)@ + ascii_bytes(d@.subrange(0, i as int)),
        decreases d.len() - i,
    {
        dst.push(d[i] as u8);
        i += 1;
        assert(ascii_bytes(d@.subrange(0, i as int)) =~= ascii_bytes(d@.subrange(0, i - 1)).push(
            d@[i - 1] as u8,
        ));
        assert(dst@ =~= old(dst)@ + ascii_bytes(d@.subrange(0, i as int)));
    }
    assert(d@.subrange(0, d.len() as int) =~= d@);
}

fn push_bytes(dst: &mut Vec<u8>, b: &[u8])
    ensures
        final(dst)@ == old(dst)@ + b@,
{
    let mut i: usize = 0;
    while i < b.len()
        invariant
            i <= b@.len(),
            dst@ == old(dst)@ + b@.subrange(0, i as int),
        decreases b@.len() - i,
    {
        dst.push(b[i]);
        i += 1;
        assert(dst@ =~= old(dst)@ + b@.subrange(0, i as int));
    }
    assert(b@.subrange(0, b@.len() as int) =~= b@);
}

pub open spec fn string_views(v: Seq<String>) -> Seq<Seq<char>> {
    v.map_values(|s: String| s@)
}

/// The bytes that send `args` as one Redis command.
pub fn encode_command(args: &Vec<String>) -> (r: Vec<u8>)
    ensures
        r@ == resp_command(string_views(args@)),
{
    let mut data: Vec<u8> = Vec::new();
    data.push(42u8);
    push_ascii_decimal(&mut data, args.len() as u64);
    data.push(13u8);
    data.push(10u8);
    let ghost head = seq![42u8] + ascii_bytes(decimal(args.len() as nat)) + crlf();
    assert(data@ =~= head);
    let mut i: usize = 0;
    while i < args.len()
        invariant
            i <= args.len(),
            data@ == head + resp_bulks(string_views(args@.subrange(0, i as int))),
        decreases args.len() - i,
    {
        let bytes = args[i].as_str().as_bytes();
        let ghost before = data@;
        data.push(36u8);
        push_ascii_decimal(&mut data, bytes.len() as u64);
        data.push(13u8);
        data.push(10u8);
        push_bytes(&mut data, bytes);
        data.push(13u8);
        data.push(10u8);
        proof {
            let sv = string_views(args@.subrange(0, i + 1));
            assert(sv.drop_last() =~= string_views(args@.subrange(0, i as int)));
            assert(sv.last() == args@[i as int]@);
            assert(data@ =~= before + resp_bulk(bytes@));
        }
        i += 1;
    }
    assert(args@.subrange(0, args.len() as int) =~= args@);
    data
}

// ── replies ─────────────────────────────────────────────────────────

/// The first line of a reply, after its type byte, read as what it
/// announces.
pub enum RespHeader {
    Simple(String),
    Error(String),
    Integer(i64),
    /// A bulk string of this many bytes; `None` for the null bulk string.
    Bulk(Option<usize>),
    /// An array of this many values; `None` for the null array.
    Array(Option<usize>),
}

pub enum RespHeaderSpec {
    Simple(Seq<char>),
    Error(Seq<char>),
    Integer(int),
    Bulk(Option<nat>),
    Array(Option<nat>),
}

impl View for RespHeader {
    type V = RespHeaderSpec;

    open spec fn view(&self) -> RespHeaderSpec {
        match self {
            RespHeader::Simple(s) => RespHeaderSpec::Simple(s@),
            RespHeader::Error(s) => RespHeaderSpec::Error(s@),
            RespHeader::Integer(i) => RespHeaderSpec::Integer(*i as int),
            RespHeader::Bulk(n) => RespHeaderSpec::Bulk(
                match n {
                    Some(k) => Some(*k as nat),
                    None => None,
                },
            ),
            RespHeader::Array(n) => RespHeaderSpec::Array(
                match n {
                    Some(k) => Some(*k as nat),
                    None => None,
                },
            ),
        }
    }
}

pub open spec fn signed_error_message(p: ParsedInt) -> Seq<char> {
    match p {
        ParsedInt::Empty => "cannot parse integer from empty string"@,
        ParsedInt::InvalidDigit => "invalid digit found in string"@,
        ParsedInt::PosOverflow => "number too large to fit in target type"@,
        ParsedInt::NegOverflow => "number too small to fit in target type"@,
        ParsedInt::Value(_) => Seq::empty(),
    }
}

/// A length line (`$` or `*`) read as an `isize`: `Some` length when it is
/// not negative, `None` when it is.
pub open spec fn resp_length(line: Seq<char>) -> Result<Option<nat>, ParsedInt> {
    match parse_int(line, isize::MAX as nat, (isize::MAX + 1) as nat) {
        ParsedInt::Value(n) => Ok(
            if n < 0 {
                None
            } else {
                Some(n as nat)
            },
        ),
        p => Err(p),
    }
}

/// What the reply line after `prefix` announces, or the error that ends
/// the read.
pub open spec fn spec_resp_header(prefix: u8, line: Seq<char>) -> Result<RespHeaderSpec, Seq<char>> {
    if prefix == 43u8 {
        Ok(RespHeaderSpec::Simple(line))
    } else if prefix == 45u8 {
        Ok(RespHeaderSpec::Error(line))
    } else if prefix == 58u8 {
        match parse_int(line, i64::MAX as nat, (i64::MAX + 1) as nat) {
            ParsedInt::Value(v) => Ok(RespHeaderSpec::Integer(v)),
            p => Err("invalid Redis integer: "@ + signed_error_message(p)),
        }
    } else if prefix == 36u8 {
        match resp_length(line) {
            Ok(n) => Ok(RespHeaderSpec::Bulk(n)),
            Err(p) => Err("invalid Redis bulk length: "@ + signed_error_message(p)),
        }
    } else if prefix == 42u8 {
        match resp_length(line) {
            Ok(n) => Ok(RespHeaderSpec::Array(n)),
            Err(p) => Err("invalid Redis array length: "@ + signed_error_message(p)),
        }
    } else {
        Err("unexpected Redis response prefix: "@.push(prefix as char))
    }
}

pub open spec fn parsed_int_of(r: IntParse) -> ParsedInt {
    match r {
        IntParse::Value { negative, magnitude } => ParsedInt::Value(
            if negative {
                -magnitude
            } else {
                magnitude as int
            },
        ),
        IntParse::Empty => ParsedInt::Empty,
        IntParse::InvalidDigit => ParsedInt::InvalidDigit,
        IntParse::PosOverflow => ParsedInt::PosOverflow,
        IntParse::NegOverflow => ParsedInt::NegOverflow,
    }
}

fn signed_error_text(p: IntParse) -> (r: &'static str)
    ensures
        r@ == signed_error_message(parsed_int_of(p)),
{
    proof {
        reveal_strlit("cannot parse integer from empty string");
        reveal_strlit("invalid digit found in string");
        reveal_strlit("number too large to fit in target type");
        reveal_strlit("number too small to fit in target type");
        reveal_strlit("");
    }
    match p {
        IntParse::Empty => "cannot parse integer from empty string",
        IntParse::InvalidDigit => "invalid digit found in string",
        IntParse::PosOverflow => "number too large to fit in target type",
        IntParse::NegOverflow => "number too small to fit in target type",
        IntParse::Value { .. } => "",
    }
}

fn error_with(prefix: &str, detail: &str) -> (r: String)
    ensures
        r@ == prefix@ + detail@,
{
    let mut msg: Vec<char> = Vec::new();
    extend_str(&mut msg, prefix);
    extend_str(&mut msg, detail);
    string_of(&msg)
}

/// Reads a length line as an `isize`.
fn read_length(line: &Vec<char>) -> (r: Result<Option<usize>, IntParse>)
    ensures
        r matches Ok(n) ==> resp_length(line@) == Ok::<Option<nat>, ParsedInt>(
            match n {
                Some(k) => Some(k as nat),
                None => None,
            },
        ),
        r matches Err(p) ==> resp_length(line@) == Err::<Option<nat>, ParsedInt>(parsed_int_of(p)),
{
    let max_pos = isize::MAX as u64;
    let parsed = parse_int_chars(line, max_pos, max_pos + 1);
    match parsed {
        IntParse::Value { negative, magnitude } => {
            if negative && magnitude > 0 {
                Ok(None)
            } else {
                Ok(Some(magnitude as usize))
            }
        },
        other => Err(other),
    }
}

/// Whether a reply's type byte is one RESP defines here: `+ - : $ *`.
pub fn resp_prefix_known(prefix: u8) -> (r: bool)
    ensures
        r == (prefix == 43u8 || prefix == 45u8 || prefix == 58u8 || prefix == 36u8 || prefix
            == 42u8),
        !r ==> spec_resp_header(prefix, Seq::empty()) is Err,
{
    prefix == 43u8 || prefix == 45u8 || prefix == 58u8 || prefix == 36u8 || prefix == 42u8
}

/// Reads the line that follows a reply's type byte.
pub fn resp_header(prefix: u8, line: String) -> (r: Result<RespHeader, String>)
    ensures
        r matches Ok(h) ==> spec_resp_header(prefix, line@) == Ok::<RespHeaderSpec, Seq<char>>(h@),
        r matches Err(m) ==> spec_resp_header(prefix, line@) == Err::<RespHeaderSpec, Seq<char>>(m@),
{
    if prefix == 43u8 {
        return Ok(RespHeader::Simple(line));
    }
    if prefix == 45u8 {
        return Ok(RespHeader::Error(line));
    }
    let chars = chars_of(line.as_str());
    if prefix == 58u8 {
        let max_pos = i64::MAX as u64;
        return match parse_int_chars(&chars, max_pos, max_pos + 1) {
            IntParse::Value { negative, magnitude } => {
                let v: i64 = if !negative {
                    magnitude as i64
                } else if magnitude == max_pos + 1 {
                    i64::MIN
                } else {
                    -(magnitude as i64)
                };
                Ok(RespHeader::Integer(v))
            },
            other => Err(error_with("invalid Redis integer: ", signed_error_text(other))),
        };
    }
    if prefix == 36u8 {
        return match read_length(&chars) {
            Ok(n) => Ok(RespHeader::Bulk(n)),
            Err(p) => Err(error_with("invalid Redis bulk length: ", signed_error_text(p))),
        };
    }
    if prefix == 42u8 {
        return match read_length(&chars) {
            Ok(n) => Ok(RespHeader::Array(n)),
            Err(p) => Err(error_with("invalid Redis array length: ", signed_error_text(p))),
        };
    }
    let mut msg: Vec<char> = Vec::new();
    extend_str(&mut msg, "unexpected Redis response prefix: ");
    msg.push(prefix as char);
    Err(string_of(&msg))
}


// ── reply values ────────────────────────────────────────────────────

#[verifier::external_type_specification]
#[verifier::external_body]
pub struct ExFromUtf8Error(std::string::FromUtf8Error);

/// `String::from_utf8`: succeeds exactly on valid UTF-8, with the
/// characters that the bytes encode.
#[verifier::external_body]
fn string_from_utf8(bytes: Vec<u8>) -> (r: Result<String, std::string::FromUtf8Error>)
    ensures
        r is Ok <==> valid_utf8(bytes@),
        r matches Ok(s) ==> s@ == decode_utf8(bytes@),
{
    String::from_utf8(bytes)
}

/// A line without its `\r\n` or `\n` ending.
pub open spec fn strip_line_ending(b: Seq<u8>) -> Seq<u8> {
    if b.len() >= 2 && b[b.len() - 2] == 13u8 && b[b.len() - 1] == 10u8 {
        b.take(b.len() - 2)
    } else if b.len() >= 1 && b[b.len() - 1] == 10u8 {
        b.take(b.len() - 1)
    } else {
        b
    }
}

/// A reply line as text: the bytes up to the line ending, which must be
/// UTF-8. The error text after its fixed prefix is what `FromUtf8Error`
/// displays.
pub fn decode_line(bytes: Vec<u8>) -> (r: Result<String, String>)
    ensures
        r is Ok <==> valid_utf8(strip_line_ending(bytes@)),
        r matches Ok(s) ==> s@ == decode_utf8(strip_line_ending(bytes@)),
        r matches Err(m) ==> m@.len() >= 26 && m@.take(26) == "invalid Redis UTF-8 line: "@,
{
    let mut bytes = bytes;
    let n = bytes.len();
    if n >= 2 && bytes[n - 2] == 13u8 && bytes[n - 1] == 10u8 {
        bytes.truncate(n - 2);
    } else if n >= 1 && bytes[n - 1] == 10u8 {
        bytes.truncate(n - 1);
    }
    match string_from_utf8(bytes) {
        Ok(s) => Ok(s),
        Err(e) => {
            let detail = e.to_string();
            proof {
                reveal_strlit("invalid Redis UTF-8 line: ");
            }
            let m = error_with("invalid Redis UTF-8 line: ", detail.as_str());
            Err(m)
        },
    }
}

/// A value read from Redis.
#[derive(Debug)]
pub enum RedisValue {
    Simple(String),
    Error(String),
    Integer(i64),
    Bulk(Option<Vec<u8>>),
    Array(Option<Vec<RedisValue>>),
}

/// `format!("{what}{value:?}")`: the text `what` followed by the value's
/// derived `Debug` rendering, which is not stated.
#[verifier::external_body]
fn with_debug_text(what: &str, value: &RedisValue) -> (r: String)
    ensures
        r@.len() >= what@.len(),
        r@.take(what@.len() as int) == what@,
{
    format!("{what}{value:?}")
}

pub open spec fn starts_with(s: Seq<char>, p: Seq<char>) -> bool {
    s.len() >= p.len() && s.take(p.len() as int) == p
}

impl RedisValue {
    /// A bulk or simple string; `None` for the null bulk string.
    pub fn bulk_string(self) -> (r: Result<Option<String>, String>)
        ensures
            self matches RedisValue::Bulk(Some(b)) ==> (r is Ok <==> valid_utf8(b@)) && (r matches Ok(
                o,
            ) ==> o matches Some(s) && s@ == decode_utf8(b@)),
            self matches RedisValue::Bulk(None) ==> r matches Ok(None),
            self matches RedisValue::Simple(v) ==> r matches Ok(Some(s)) && s@ == v@,
            self matches RedisValue::Error(m) ==> r matches Err(e) && e@ == m@,
            (self is Integer || self is Array) ==> (r matches Err(e) && starts_with(
                e@,
                "unexpected Redis value: "@,
            )),
    {
        match self {
            RedisValue::Bulk(Some(bytes)) => match string_from_utf8(bytes) {
                Ok(s) => Ok(Some(s)),
                Err(e) => Err(e.to_string()),
            },
            RedisValue::Bulk(None) => Ok(None),
            RedisValue::Simple(value) => Ok(Some(value)),
            RedisValue::Error(message) => Err(message),
            other => Err(with_debug_text("unexpected Redis value: ", &other)),
        }
    }

    /// A string that must be present.
    pub fn string(self) -> (r: Result<String, String>)
        ensures
            self matches RedisValue::Bulk(Some(b)) ==> (r is Ok <==> valid_utf8(b@)) && (r matches Ok(
                s,
            ) ==> s@ == decode_utf8(b@)),
            self matches RedisValue::Bulk(None) ==> r matches Err(e) && e@ == "missing Redis value"@,
            self matches RedisValue::Simple(v) ==> r matches Ok(s) && s@ == v@,
            self matches RedisValue::Error(m) ==> r matches Err(e) && e@ == m@,
            (self is Integer || self is Array) ==> (r matches Err(e) && starts_with(
                e@,
                "unexpected Redis value: "@,
            )),
    {
        match self.bulk_string() {
            Ok(Some(s)) => Ok(s),
            Ok(None) => Err("missing Redis value".to_string()),
            Err(e) => Err(e),
        }
    }

    pub fn integer(self) -> (r: Result<i64, String>)
        ensures
            self matches RedisValue::Integer(v) ==> r == Ok::<i64, String>(v),
            self matches RedisValue::Error(m) ==> r matches Err(e) && e@ == m@,
            (self is Simple || self is Bulk || self is Array) ==> (r matches Err(e) && starts_with(
                e@,
                "unexpected Redis integer value: "@,
            )),
    {
        match self {
            RedisValue::Integer(value) => Ok(value),
            RedisValue::Error(message) => Err(message),
            other => Err(with_debug_text("unexpected Redis integer value: ", &other)),
        }
    }

    pub fn array(self) -> (r: Result<Option<Vec<RedisValue>>, String>)
        ensures
            self matches RedisValue::Array(values) ==> r == Ok::<Option<Vec<RedisValue>>, String>(
                values,
            ),
            self matches RedisValue::Bulk(None) ==> r matches Ok(None),
            self matches RedisValue::Error(m) ==> r matches Err(e) && e@ == m@,
            (self is Simple || self is Integer || self matches RedisValue::Bulk(Some(_)))
                ==> (r matches Err(e) && starts_with(e@, "unexpected Redis array value: "@)),
    {
        match self {
            RedisValue::Array(values) => Ok(values),
            RedisValue::Bulk(None) => Ok(None),
            RedisValue::Error(message) => Err(message),
            other => Err(with_debug_text("unexpected Redis array value: ", &other)),
        }
    }
}

// ── shared room writes ──────────────────────────────────────────────

/// How a shared room write goes on after its `EXEC` was answered.
#[derive(Debug, PartialEq, Eq)]
pub enum WriteStep {
    /// The transaction ran: the room was written.
    Committed,
    /// Another writer changed the room first: read it again and retry.
    Retry,
}

/// Decides what follows attempt `attempt` (counted from 0) of a watched
/// room write whose `EXEC` was answered `exec`: a run transaction is
/// committed; an aborted one is retried while attempts are left, and
/// after the last one the write gives up; any other answer is an error.
pub fn write_step(attempt: usize, exec: RedisValue) -> (r: Result<WriteStep, String>)
    requires
        attempt < REDIS_CAS_RETRIES,
    ensures
        exec matches RedisValue::Array(Some(_)) ==> r == Ok::<WriteStep, String>(WriteStep::Committed),
        (exec matches RedisValue::Array(None) || exec matches RedisValue::Bulk(None)) ==> (if attempt + 1
            < REDIS_CAS_RETRIES {
            r == Ok::<WriteStep, String>(WriteStep::Retry)
        } else {
            r matches Err(m) && m@ == "Room was updated concurrently; try again"@
        }),
        exec matches RedisValue::Error(m) ==> r matches Err(e) && e@ == m@,
        (exec is Simple || exec is Integer || exec matches RedisValue::Bulk(Some(_))) ==> (r matches Err(e)
            && starts_with(e@, "unexpected Redis array value: "@)),
{
    match exec.array()? {
        Some(_) => Ok(WriteStep::Committed),
        None => if attempt + 1 < REDIS_CAS_RETRIES {
            Ok(WriteStep::Retry)
        } else {
            Err("Room was updated concurrently; try again".to_string())
        },
    }
}

/// What creating a shared room under a code (`SET` with `NX`) was answered.
#[derive(Debug, PartialEq, Eq)]
pub enum CreateReply {
    /// The room was stored under the code.
    Created,
    /// A room already holds the code: try the next one.
    CodeTaken,
    /// Any other answer: creating fails with this message.
    Unexpected(String),
}

/// Reads the answer to a shared room's `SET ... NX`: `OK` stored it, a
/// null bulk string means the code is taken, anything else is reported.
pub fn create_reply(reply: RedisValue) -> (r: CreateReply)
    ensures
        reply matches RedisValue::Simple(s) && s@ == "OK"@ ==> r is Created,
        reply matches RedisValue::Bulk(None) ==> r is CodeTaken,
        !(reply matches RedisValue::Simple(s) && s@ == "OK"@) && !(reply matches RedisValue::Bulk(None)) ==> (
        r matches CreateReply::Unexpected(m) && starts_with(m@, "unexpected Redis room create response: "@)),
{
    match &reply {
        RedisValue::Simple(s) => {
            if str_eq(s.as_str(), "OK") {
                return CreateReply::Created;
            }
        },
        RedisValue::Bulk(None) => {
            return CreateReply::CodeTaken;
        },
        _ => {},
    }
    CreateReply::Unexpected(with_debug_text("unexpected Redis room create response: ", &reply))
}


// ── key names ───────────────────────────────────────────────────────

/// Names of the Redis keys and channel of one deployment, all under one
/// prefix.
pub struct RedisKeys {
    pub prefix: String,
}

impl RedisKeys {
    pub fn new(prefix: &str) -> (r: RedisKeys)
        ensures
            r.prefix@ == prefix@,
    {
        RedisKeys { prefix: prefix.to_string() }
    }

    fn under(&self, middle: &str, tail: &str) -> (r: String)
        ensures
            r@ == self.prefix@ + middle@ + tail@,
    {
        let mut v = chars_of(self.prefix.as_str());
        extend_str(&mut v, middle);
        extend_str(&mut v, tail);
        string_of(&v)
    }

    /// `{prefix}:room:{code}`
    pub fn room_key(&self, code: &str) -> (r: String)
        ensures
            r@ == self.prefix@ + ":room:"@ + code@,
    {
        self.under(":room:", code)
    }

    /// `{prefix}:rooms`
    pub fn rooms_key(&self) -> (r: String)
        ensures
            r@ == self.prefix@ + ":rooms"@,
    {
        proof {
            reveal_strlit("");
        }
        let r = self.under(":rooms", "");
        assert(r@ =~= self.prefix@ + ":rooms"@);
        r
    }

    /// `{prefix}:clock_deadlines`
    pub fn deadlines_key(&self) -> (r: String)
        ensures
            r@ == self.prefix@ + ":clock_deadlines"@,
    {
        proof {
            reveal_strlit("");
        }
        let r = self.under(":clock_deadlines", "");
        assert(r@ =~= self.prefix@ + ":clock_deadlines"@);
        r
    }

    /// `{prefix}:presence:{connection_id}`
    pub fn presence_key(&self, connection_id: &str) -> (r: String)
        ensures
            r@ == self.prefix@ + ":presence:"@ + connection_id@,
    {
        self.under(":presence:", connection_id)
    }

    /// `{prefix}:events`
    pub fn events_channel(&self) -> (r: String)
        ensures
            r@ == self.prefix@ + ":events"@,
    {
        proof {
            reveal_strlit("");
        }
        let r = self.under(":events", "");
        assert(r@ =~= self.prefix@ + ":events"@);
        r
    }
}

/// A connection id: `{process_id}:{now_ms}:{random}`.
pub fn connection_id(process_id: &str, now_ms: u64, random: u64) -> (r: String)
    ensures
        r@ == process_id@ + ":"@ + decimal(now_ms as nat) + ":"@ + decimal(random as nat),
{
    let mut v = chars_of(process_id);
    extend_str(&mut v, ":");
    crate::numtext::push_decimal(&mut v, now_ms);
    extend_str(&mut v, ":");
    crate::numtext::push_decimal(&mut v, random);
    string_of(&v)
}

/// The lengths a command writes (`*<n>` and `$<n>` lines) read back as
/// those lengths.
pub proof fn lemma_length_lines_read_back(n: nat)
    requires
        n <= isize::MAX,
    ensures
        spec_resp_header(36u8, decimal(n)) == Ok::<RespHeaderSpec, Seq<char>>(
            RespHeaderSpec::Bulk(Some(n)),
        ),
        spec_resp_header(42u8, decimal(n)) == Ok::<RespHeaderSpec, Seq<char>>(
            RespHeaderSpec::Array(Some(n)),
        ),
{
    crate::numtext::lemma_decimal_digits(n);
    crate::numtext::lemma_scan_decimal(n, isize::MAX as nat);
    let d = decimal(n);
    assert(crate::text::is_ascii_digit_char(d[0]));
    assert(parse_int(d, isize::MAX as nat, (isize::MAX + 1) as nat) == ParsedInt::Value(n as int));
}

} // verus!
