//! Clerk session tokens: the verifier's settings, and what a decoded
//! token must hold to name a user.

use vstd::prelude::*;
use vstd::utf8::encode_utf8;
use crate::text::{chars_of, extend_str, string_of, trim, trim_chars, trim_str};
use crate::identity::{
    authorized_party_allowed, parse_authorized_parties, party_listed, spec_authorized_parties,
    string_views,
};

verus! {

#[verifier::external_type_specification]
#[verifier::external_body]
pub struct ExDecodingKey(jsonwebtoken::DecodingKey);

#[verifier::external_type_specification]
#[verifier::external_body]
pub struct ExJwtError(jsonwebtoken::errors::Error);

/// Whether `DecodingKey::from_rsa_pem` accepts these bytes as a PEM
/// encoded RSA key.
pub uninterp spec fn rsa_pem_accepted(pem: Seq<u8>) -> bool;

/// `DecodingKey::from_rsa_pem`: reads a PEM encoded RSA public key. It
/// depends on the bytes alone; which bytes it accepts is named, not
/// stated.
#[verifier::external_body]
fn decoding_key_from_rsa_pem(pem: &[u8]) -> (r: Result<
    jsonwebtoken::DecodingKey,
    jsonwebtoken::errors::Error,
>)
    ensures
        r is Ok <==> rsa_pem_accepted(pem@),
{
    jsonwebtoken::DecodingKey::from_rsa_pem(pem)
}

/// The key text with each two-character `\n` escape turned into a line
/// break, as `str::replace("\\n", "\n")` does.
pub open spec fn unescape_newlines(s: Seq<char>) -> Seq<char>
    decreases s.len(),
{
    if s.len() == 0 {
        Seq::empty()
    } else if s.len() >= 2 && s[0] == '\\' && s[1] == 'n' {
        seq!['\n'] + unescape_newlines(s.skip(2))
    } else {
        seq![s[0]] + unescape_newlines(s.drop_first())
    }
}

pub fn unescape_newline_text(s: &str) -> (r: String)
    ensures
        r@ == unescape_newlines(s@),
{
    let v = chars_of(s);
    let mut out: Vec<char> = Vec::new();
    let mut i: usize = 0;
    assert(v@.skip(0) =~= v@);
    while i < v.len()
        invariant
            i <= v.len(),
            v@ == s@,
            out@ + unescape_newlines(v@.skip(i as int)) == unescape_newlines(s@),
        decreases v.len() - i,
    {
        let ghost rest = v@.skip(i as int);
        if i + 1 < v.len() && v[i] == '\\' && v[i + 1] == 'n' {
            out.push('\n');
            assert(rest.skip(2) =~= v@.skip(i + 2));
            assert(out@ + unescape_newlines(v@.skip(i + 2)) =~= unescape_newlines(s@));
            i += 2;
        } else {
            out.push(v[i]);
            assert(rest.drop_first() =~= v@.skip(i + 1));
            assert(out@ + unescape_newlines(v@.skip(i + 1)) =~= unescape_newlines(s@));
            i += 1;
        }
    }
    assert(out@ =~= unescape_newlines(s@));
    string_of(&out)
}

/// Verifies Clerk session tokens: the key they must be signed with, the
/// issuer they must name and the origins they may come from.
pub struct ClerkAuth {
    pub decoding_key: jsonwebtoken::DecodingKey,
    pub issuer: String,
    pub authorized_parties: Vec<String>,
}

pub open spec fn opt_chars(o: Option<&str>) -> Option<Seq<char>> {
    match o {
        Some(s) => Some(s@),
        None => None,
    }
}

/// The settings error `ClerkAuth::from_parts` reports, if any, before it
/// reads the key.
pub open spec fn clerk_settings_error(issuer: Option<Seq<char>>, parties: Option<Seq<char>>) -> Option<
    Seq<char>,
> {
    match (issuer, parties) {
        (None, _) => Some("CLERK_ISSUER must be set"@),
        (_, None) => Some("CLERK_AUTHORIZED_PARTIES must be set"@),
        (Some(i), Some(p)) => if trim(i).len() == 0 {
            Some("CLERK_ISSUER must not be empty"@)
        } else if spec_authorized_parties(p).len() == 0 {
            Some("CLERK_AUTHORIZED_PARTIES must include at least one origin"@)
        } else {
            None
        },
    }
}

pub open spec fn starts_with(s: Seq<char>, p: Seq<char>) -> bool {
    s.len() >= p.len() && s.take(p.len() as int) == p
}

impl ClerkAuth {
    /// Builds the verifier from the key text, the issuer setting and the
    /// comma-separated authorized parties setting.
    pub fn from_parts(jwt_key: &str, issuer: Option<&str>, authorized_parties: Option<&str>) -> (r:
        Result<ClerkAuth, String>)
        ensures
            clerk_settings_error(opt_chars(issuer), opt_chars(authorized_parties)) matches Some(m)
                ==> (r matches Err(e) && e@ == m),
            clerk_settings_error(opt_chars(issuer), opt_chars(authorized_parties)) is None ==> (r is Ok
                <==> rsa_pem_accepted(encode_utf8(unescape_newlines(jwt_key@)))),
            clerk_settings_error(opt_chars(issuer), opt_chars(authorized_parties)) is None && r is Err
                ==> (r matches Err(e) && starts_with(e@, "Invalid CLERK_JWT_KEY: "@)),
            r matches Ok(a) ==> a.issuer@ == issuer.unwrap()@ && string_views(a.authorized_parties@)
                == spec_authorized_parties(authorized_parties.unwrap()@),
    {
        let issuer = match issuer {
            Some(i) => i,
            None => return Err("CLERK_ISSUER must be set".to_string()),
        };
        let raw_parties = match authorized_parties {
            Some(p) => p,
            None => return Err("CLERK_AUTHORIZED_PARTIES must be set".to_string()),
        };
        let parties = parse_authorized_parties(raw_parties);
        if trim_str(issuer).len() == 0 {
            return Err("CLERK_ISSUER must not be empty".to_string());
        }
        if parties.len() == 0 {
            return Err("CLERK_AUTHORIZED_PARTIES must include at least one origin".to_string());
        }
        let pem = unescape_newline_text(jwt_key);
        match decoding_key_from_rsa_pem(pem.as_str().as_bytes()) {
            Ok(key) => Ok(ClerkAuth {
                decoding_key: key,
                issuer: issuer.to_string(),
                authorized_parties: parties,
            }),
            Err(e) => {
                let detail = e.to_string();
                let mut msg: Vec<char> = Vec::new();
                extend_str(&mut msg, "Invalid CLERK_JWT_KEY: ");
                proof {
                    reveal_strlit("Invalid CLERK_JWT_KEY: ");
                }
                let ghost head = msg@;
                extend_str(&mut msg, detail.as_str());
                assert(msg@.take(head.len() as int) =~= head);
                Err(string_of(&msg))
            },
        }
    }

    /// The verifier when a key is configured: none when the key setting is
    /// absent or blank.
    pub fn optional_from_settings(
        jwt_key: Option<&str>,
        issuer: Option<&str>,
        authorized_parties: Option<&str>,
    ) -> (r: Result<Option<ClerkAuth>, String>)
        ensures
            jwt_key is None ==> r matches Ok(None),
            jwt_key matches Some(k) && trim(k@).len() == 0 ==> r matches Ok(None),
            jwt_key matches Some(k) && trim(k@).len() > 0 ==> (clerk_settings_error(
                opt_chars(issuer),
                opt_chars(authorized_parties),
            ) matches Some(m) ==> (r matches Err(e) && e@ == m)),
            jwt_key is Some && trim(jwt_key.unwrap()@).len() > 0 && clerk_settings_error(
                opt_chars(issuer),
                opt_chars(authorized_parties),
            ) is None ==> (r matches Ok(Some(_)) <==> rsa_pem_accepted(
                encode_utf8(unescape_newlines(jwt_key.unwrap()@)),
            )),
    {
        let key = match jwt_key {
            Some(k) => k,
            None => return Ok(None),
        };
        if trim_str(key).len() == 0 {
            return Ok(None);
        }
        match ClerkAuth::from_parts(key, issuer, authorized_parties) {
            Ok(a) => Ok(Some(a)),
            Err(e) => Err(e),
        }
    }

    /// The verifier, which must be configured.
    pub fn from_settings(
        jwt_key: Option<&str>,
        issuer: Option<&str>,
        authorized_parties: Option<&str>,
    ) -> (r: Result<ClerkAuth, String>)
        ensures
            jwt_key is None ==> (r matches Err(e) && e@
                == "CLERK_JWT_KEY must be set to the Clerk JWT public key"@),
            jwt_key matches Some(k) ==> (clerk_settings_error(
                opt_chars(issuer),
                opt_chars(authorized_parties),
            ) matches Some(m) ==> (r matches Err(e) && e@ == m)),
            jwt_key is Some && clerk_settings_error(
                opt_chars(issuer),
                opt_chars(authorized_parties),
            ) is None ==> (r is Ok <==> rsa_pem_accepted(
                encode_utf8(unescape_newlines(jwt_key.unwrap()@)),
            )),
    {
        match jwt_key {
            None => Err("CLERK_JWT_KEY must be set to the Clerk JWT public key".to_string()),
            Some(k) => ClerkAuth::from_parts(k, issuer, authorized_parties),
        }
    }

    /// The token text to check: trimmed, and refused when empty.
    pub fn token_text(token: &str) -> (r: Result<String, String>)
        ensures
            trim(token@).len() == 0 ==> (r matches Err(e) && e@ == "Missing token"@),
            trim(token@).len() > 0 ==> (r matches Ok(t) && t@ == trim(token@)),
    {
        let t = trim_str(token);
        if t.len() == 0 {
            Err("Missing token".to_string())
        } else {
            Ok(string_of(&t))
        }
    }

    /// The user id of a token, from the outcome of decoding it: its
    /// trimmed `sub` claim, when the token decoded, names a subject and
    /// comes from an authorized origin (or names none).
    pub fn accept_claims(&self, decoded: Result<(String, Option<String>), String>) -> (r: Result<
        String,
        String,
    >)
        ensures
            decoded matches Err(d) ==> (r matches Err(e) && e@ == "Invalid Clerk token: "@ + d@),
            decoded matches Ok((subject, azp)) ==> (trim(subject@).len() == 0 ==> (r matches Err(e)
                && e@ == "Clerk token is missing sub"@)),
            decoded matches Ok((subject, azp)) ==> (trim(subject@).len() > 0 && azp is Some
                && !party_listed(self.authorized_parties@, azp.unwrap()@) ==> (r matches Err(e) && e@
                == "Clerk token is from an unauthorized origin"@)),
            decoded matches Ok((subject, azp)) ==> (trim(subject@).len() > 0 && (azp is Some
                ==> party_listed(self.authorized_parties@, azp.unwrap()@)) ==> (r matches Ok(u) && u@
                == trim(subject@))),
    {
        match decoded {
            Err(d) => {
                let mut msg: Vec<char> = Vec::new();
                extend_str(&mut msg, "Invalid Clerk token: ");
                extend_str(&mut msg, d.as_str());
                Err(string_of(&msg))
            },
            Ok((subject, azp)) => {
                let user_id = trim_str(subject.as_str());
                if user_id.len() == 0 {
                    return Err("Clerk token is missing sub".to_string());
                }
                let origin: Option<&str> = match &azp {
                    Some(o) => Some(o.as_str()),
                    None => None,
                };
                if !authorized_party_allowed(self.authorized_parties.as_slice(), origin) {
                    return Err("Clerk token is from an unauthorized origin".to_string());
                }
                Ok(string_of(&user_id))
            },
        }
    }
}

} // verus!
