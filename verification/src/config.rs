//! Engine configuration, read from a JSON document with defaults for every
//! missing or ill-typed option.

use vstd::prelude::*;

use crate::json::{obj_lookup, JsonValue};
use crate::json;

verus! {

pub const DEFAULT_HTTP_TIMEOUT_SECS: u64 = 30;

pub const DEFAULT_CACHE_DURATION_MINS: u64 = 60;

/// Minutes above this would overflow the TTL in seconds.
pub const TTL_MINS_CAP: u64 = 0xFFFFFFFFFFFFFFFF / 60;

#[derive(Debug, Clone, Copy)]
pub struct Config {
    /// Bound on each network fetch, in seconds.
    pub http_timeout_secs: u64,
    /// Cache validity window, in minutes. Zero makes every entry stale at
    /// once.
    pub cache_duration_mins: u64,
    /// Whether newly seen items are surfaced as a notification.
    pub notifications_enabled: bool,
}

impl Default for Config {
    fn default() -> (r: Self)
        ensures
            r.http_timeout_secs == DEFAULT_HTTP_TIMEOUT_SECS,
            r.cache_duration_mins == DEFAULT_CACHE_DURATION_MINS,
            !r.notifications_enabled,
    {
        Config {
            http_timeout_secs: DEFAULT_HTTP_TIMEOUT_SECS,
            cache_duration_mins: DEFAULT_CACHE_DURATION_MINS,
            notifications_enabled: false,
        }
    }
}

/// The configuration a document describes: recognized options are read, all
/// others fall back to their defaults.
pub open spec fn config_of(v: JsonValue) -> Config {
    match v {
        JsonValue::Obj(fields) => Config {
            http_timeout_secs: match obj_lookup(fields@, "http_timeout_secs"@) {
                Some(JsonValue::Int(n)) => n,
                _ => DEFAULT_HTTP_TIMEOUT_SECS,
            },
            cache_duration_mins: match obj_lookup(fields@, "cache_duration_mins"@) {
                Some(JsonValue::Int(n)) => n,
                _ => DEFAULT_CACHE_DURATION_MINS,
            },
            notifications_enabled: match obj_lookup(fields@, "notifications_enabled"@) {
                Some(JsonValue::Bool(b)) => b,
                _ => false,
            },
        },
        _ => Config {
            http_timeout_secs: DEFAULT_HTTP_TIMEOUT_SECS,
            cache_duration_mins: DEFAULT_CACHE_DURATION_MINS,
            notifications_enabled: false,
        },
    }
}

/// Reads the configuration from a document.
pub fn config_from_tree(v: &JsonValue) -> (r: Config)
    ensures
        r == config_of(*v),
{
    match v {
        JsonValue::Obj(fields) => {
            let http_timeout_secs: u64 = match json::obj_get(fields, "http_timeout_secs") {
                Some(JsonValue::Int(n)) => *n,
                _ => DEFAULT_HTTP_TIMEOUT_SECS,
            };
            let cache_duration_mins: u64 = match json::obj_get(fields, "cache_duration_mins") {
                Some(JsonValue::Int(n)) => *n,
                _ => DEFAULT_CACHE_DURATION_MINS,
            };
            let notifications_enabled: bool = match json::obj_get(
                fields,
                "notifications_enabled",
            ) {
                Some(JsonValue::Bool(b)) => *b,
                _ => false,
            };
            Config { http_timeout_secs, cache_duration_mins, notifications_enabled }
        },
        _ => Config {
            http_timeout_secs: DEFAULT_HTTP_TIMEOUT_SECS,
            cache_duration_mins: DEFAULT_CACHE_DURATION_MINS,
            notifications_enabled: false,
        },
    }
}

impl Config {
    /// The cache TTL in seconds (saturating).
    pub open spec fn spec_ttl_secs(&self) -> int {
        if self.cache_duration_mins > TTL_MINS_CAP {
            0xFFFFFFFFFFFFFFFF as int
        } else {
            self.cache_duration_mins * 60
        }
    }

    pub fn ttl_secs(&self) -> (r: u64)
        ensures
            r as int == self.spec_ttl_secs(),
    {
        if self.cache_duration_mins > TTL_MINS_CAP {
            u64::MAX
        } else {
            self.cache_duration_mins * 60
        }
    }
}

} // verus!
