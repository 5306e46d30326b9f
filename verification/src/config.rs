//! Reading server settings.

use vstd::prelude::*;
use crate::text::{chars_eq_str, extend_str, lowercase_ascii, lowercase_chars, string_of, trim, trim_str};
use crate::replay::{safe_share_slug, spec_safe_replay_token};

verus! {

/// Values of a boolean setting that switch it on; case and surrounding
/// whitespace do not matter.
pub open spec fn spec_parse_env_bool(value: Seq<char>) -> bool {
    let v = lowercase_ascii(trim(value));
    ||| v == "1"@
    ||| v == "true"@
    ||| v == "t"@
    ||| v == "yes"@
    ||| v == "y"@
    ||| v == "on"@
}

pub fn parse_env_bool(value: &str) -> (r: bool)
    ensures
        r == spec_parse_env_bool(value@),
{
    let t = trim_str(value);
    let v = lowercase_chars(&t);
    chars_eq_str(&v, "1") || chars_eq_str(&v, "true") || chars_eq_str(&v, "t") || chars_eq_str(
        &v,
        "yes",
    ) || chars_eq_str(&v, "y") || chars_eq_str(&v, "on")
}


pub const DATABASE_URL_ENV: &'static str = "DATABASE_URL";

pub const REPLAY_STORE_REQUIRED_ENV: &'static str = "HEXFISH_REPLAY_STORE_REQUIRED";

pub const MULTIPLAYER_BACKEND_ENV: &'static str = "HEXFISH_MULTIPLAYER_BACKEND";

pub const MULTIPLAYER_REQUIRED_ENV: &'static str = "HEXFISH_MULTIPLAYER_REQUIRED";

pub const REDIS_URL_ENV: &'static str = "REDIS_URL";

/// A boolean setting: off when unset.
pub fn env_flag(value: Option<&str>) -> (r: bool)
    ensures
        r == (match value {
            Some(v) => spec_parse_env_bool(v@),
            None => false,
        }),
{
    match value {
        Some(v) => parse_env_bool(v),
        None => false,
    }
}

/// A text setting, trimmed; unset when blank.
pub fn setting_text(value: Option<&str>) -> (r: Option<String>)
    ensures
        value is None ==> r is None,
        value matches Some(v) ==> (if trim(v@).len() == 0 {
            r is None
        } else {
            r matches Some(t) && t@ == trim(v@)
        }),
{
    match value {
        None => None,
        Some(v) => {
            let t = trim_str(v);
            if t.len() == 0 {
                None
            } else {
                Some(string_of(&t))
            }
        },
    }
}

/// Where multiplayer rooms live.
#[derive(Clone, Copy, Debug, PartialEq, Eq, Structural)]
pub enum MultiplayerPlan {
    /// In this process.
    Memory,
    /// In Redis; when `required`, failing to connect stops the server,
    /// otherwise rooms fall back to memory.
    Redis { required: bool },
    /// Redis was asked for without a URL: the server cannot start.
    RedisUrlMissing,
}

/// The multiplayer backend setting, trimmed and lowercased; `memory` when
/// unset or blank.
pub open spec fn spec_backend(backend: Option<Seq<char>>) -> Seq<char> {
    match backend {
        Some(b) => if trim(b).len() == 0 {
            "memory"@
        } else {
            lowercase_ascii(trim(b))
        },
        None => "memory"@,
    }
}

/// Redis is used when the backend is `redis` or a Redis URL is set; it is
/// required when the backend is `redis` or the required flag is on.
pub open spec fn spec_multiplayer_plan(
    backend: Option<Seq<char>>,
    redis_url_set: bool,
    required_flag: bool,
) -> MultiplayerPlan {
    let redis = spec_backend(backend) == "redis"@;
    let required = required_flag || redis;
    if redis || redis_url_set {
        if !redis_url_set {
            if required {
                MultiplayerPlan::RedisUrlMissing
            } else {
                MultiplayerPlan::Memory
            }
        } else {
            MultiplayerPlan::Redis { required }
        }
    } else {
        MultiplayerPlan::Memory
    }
}

pub fn multiplayer_plan(backend: Option<&str>, redis_url_set: bool, required_flag: bool) -> (r:
    MultiplayerPlan)
    ensures
        r == spec_multiplayer_plan(
            match backend {
                Some(b) => Some(b@),
                None => None,
            },
            redis_url_set,
            required_flag,
        ),
{
    proof {
        reveal_strlit("memory");
        reveal_strlit("redis");
        assert("memory"@.len() == 6);
        assert("redis"@.len() == 5);
        assert("memory"@ != "redis"@);
    }
    let is_redis = match backend {
        Some(b) => {
            let t = trim_str(b);
            let l = lowercase_chars(&t);
            if t.len() == 0 {
                assert(spec_backend(Some(b@)) == "memory"@);
                false
            } else {
                assert(spec_backend(Some(b@)) == l@);
                chars_eq_str(&l, "redis")
            }
        },
        None => false,
    };
    let ghost bv: Option<Seq<char>> = match backend {
        Some(b) => Some(b@),
        None => None,
    };
    assert(is_redis == (spec_backend(bv) == "redis"@));
    let required = required_flag || is_redis;
    if is_redis || redis_url_set {
        if !redis_url_set {
            if required {
                MultiplayerPlan::RedisUrlMissing
            } else {
                MultiplayerPlan::Memory
            }
        } else {
            MultiplayerPlan::Redis { required }
        }
    } else {
        MultiplayerPlan::Memory
    }
}

/// Where replays are stored.
#[derive(Clone, Copy, Debug, PartialEq, Eq, Structural)]
pub enum ReplayStorePlan {
    /// In Postgres; when `required`, failing to connect stops the server,
    /// otherwise the filesystem is tried.
    Postgres { required: bool },
    /// Storage is required but no database URL is set: the server cannot
    /// start.
    DatabaseUrlMissing,
    /// In the web log directory.
    Files,
    /// Nowhere: replays are not saved.
    Disabled,
}

/// The storage to try first: Postgres when a database URL is set; else,
/// unless storage is required, the log directory when there is one.
pub fn replay_store_plan(database_url_set: bool, required: bool, has_log_dir: bool) -> (r:
    ReplayStorePlan)
    ensures
        database_url_set ==> r == (ReplayStorePlan::Postgres { required }),
        !database_url_set && required ==> r == ReplayStorePlan::DatabaseUrlMissing,
        !database_url_set && !required && has_log_dir ==> r == ReplayStorePlan::Files,
        !database_url_set && !required && !has_log_dir ==> r == ReplayStorePlan::Disabled,
{
    if database_url_set {
        ReplayStorePlan::Postgres { required }
    } else if required {
        ReplayStorePlan::DatabaseUrlMissing
    } else if has_log_dir {
        ReplayStorePlan::Files
    } else {
        ReplayStorePlan::Disabled
    }
}

/// Where Postgres storage goes when it could not be opened: nowhere else
/// when it was required (the server stops), else the log directory.
pub fn replay_store_fallback(required: bool, has_log_dir: bool) -> (r: ReplayStorePlan)
    ensures
        required ==> r == ReplayStorePlan::Disabled,
        !required && has_log_dir ==> r == ReplayStorePlan::Files,
        !required && !has_log_dir ==> r == ReplayStorePlan::Disabled,
{
    if required {
        ReplayStorePlan::Disabled
    } else if has_log_dir {
        ReplayStorePlan::Files
    } else {
        ReplayStorePlan::Disabled
    }
}

/// Where a `/r/<slug>` share link redirects: the replay view for a safe
/// slug, the home page otherwise.
pub fn replay_redirect_target(slug: &str) -> (r: String)
    ensures
        spec_safe_replay_token(slug@) ==> r@ == "/?replay="@ + slug@,
        !spec_safe_replay_token(slug@) ==> r@ == "/"@,
{
    if safe_share_slug(slug) {
        let mut v: Vec<char> = Vec::new();
        extend_str(&mut v, "/?replay=");
        extend_str(&mut v, slug);
        string_of(&v)
    } else {
        "/".to_string()
    }
}

} // verus!
