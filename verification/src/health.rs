//! Per-source health, updated after every fetch attempt.
//!
//! A source is Unknown until its first attempt. A successful fetch records
//! Healthy, or Slow when the response took longer than the latency threshold,
//! and resets the consecutive-failure counter. Any failure (transport,
//! protocol status, body read, parse) records Broken, keeps the last success
//! and latency, stores the failure message and increments the counter. Health
//! is never persisted; every session starts from Unknown.

use vstd::prelude::*;

use crate::kvlist;
use crate::kvlist::{kv_lookup, kv_unique};

verus! {

/// Latency in milliseconds above which a successful fetch counts as slow.
pub const SLOW_THRESHOLD_MS: u64 = 5000;

#[derive(Debug, Clone, Copy, PartialEq, Eq, Structural)]
pub enum HealthStatus {
    Healthy,
    Slow,
    Broken,
    Unknown,
}

/// The health record of one source.
#[derive(Debug)]
pub struct FeedHealth {
    pub status: HealthStatus,
    /// Time of the last successful fetch, seconds since the epoch.
    pub last_success: Option<u64>,
    /// Latency of the last successful fetch, in milliseconds.
    pub last_latency_ms: Option<u64>,
    /// Message of the last failure, cleared by a success.
    pub last_error: Option<String>,
    /// Failures since the last success.
    pub consecutive_failures: u64,
}

impl Clone for FeedHealth {
    fn clone(&self) -> (r: Self)
        ensures
            r == *self,
    {
        FeedHealth {
            status: self.status,
            last_success: self.last_success,
            last_latency_ms: self.last_latency_ms,
            last_error: match &self.last_error {
                Some(e) => Some(e.clone()),
                None => None,
            },
            consecutive_failures: self.consecutive_failures,
        }
    }
}

/// The record of a source never yet attempted.
pub open spec fn unknown_health() -> FeedHealth {
    FeedHealth {
        status: HealthStatus::Unknown,
        last_success: None,
        last_latency_ms: None,
        last_error: None,
        consecutive_failures: 0,
    }
}

/// The status a successful fetch records, by its latency.
pub open spec fn success_status(latency_ms: u64) -> HealthStatus {
    if latency_ms > SLOW_THRESHOLD_MS {
        HealthStatus::Slow
    } else {
        HealthStatus::Healthy
    }
}

/// The record after a successful fetch: the counter resets and the last
/// error is cleared.
pub open spec fn after_success(latency_ms: u64, now: u64) -> FeedHealth {
    FeedHealth {
        status: success_status(latency_ms),
        last_success: Some(now),
        last_latency_ms: Some(latency_ms),
        last_error: None,
        consecutive_failures: 0,
    }
}

/// The record after a failed attempt: Broken, message stored, counter one
/// higher (saturating), last success and latency kept.
pub open spec fn after_failure(prev: FeedHealth, message: String) -> FeedHealth {
    FeedHealth {
        status: HealthStatus::Broken,
        last_success: prev.last_success,
        last_latency_ms: prev.last_latency_ms,
        last_error: Some(message),
        consecutive_failures: if prev.consecutive_failures == u64::MAX {
            u64::MAX
        } else {
            (prev.consecutive_failures + 1) as u64
        },
    }
}

/// Health latency threshold: a success at or under the threshold records
/// Healthy; one above it records Slow.
pub proof fn lemma_health_latency_threshold(latency_ms: u64, now: u64)
    ensures
        latency_ms <= SLOW_THRESHOLD_MS ==> after_success(latency_ms, now).status
            == HealthStatus::Healthy,
        latency_ms > SLOW_THRESHOLD_MS ==> after_success(latency_ms, now).status
            == HealthStatus::Slow,
        after_success(latency_ms, now).consecutive_failures == 0,
{
}

/// Per-source health records, keyed by source URL.
#[derive(Debug)]
pub struct HealthTracker {
    pub records: Vec<(String, FeedHealth)>,
}

impl HealthTracker {
    /// Unique source URLs.
    pub open spec fn wf(&self) -> bool {
        kv_unique(self.records@)
    }

    /// The record for a URL, Unknown when the source was never attempted.
    pub open spec fn spec_health(&self, url: Seq<char>) -> FeedHealth {
        match kv_lookup(self.records@, url) {
            Some(h) => h,
            None => unknown_health(),
        }
    }

    pub fn new() -> (r: Self)
        ensures
            r.wf(),
            r.records@.len() == 0,
            forall|u: Seq<char>| r.spec_health(u) == unknown_health(),
    {
        HealthTracker { records: Vec::new() }
    }

    /// Reads the record for a source.
    pub fn health(&self, url: &str) -> (r: FeedHealth)
        ensures
            r == self.spec_health(url@),
    {
        match kvlist::kv_find(&self.records, url) {
            Some(i) => self.records[i].1.clone(),
            None => FeedHealth {
                status: HealthStatus::Unknown,
                last_success: None,
                last_latency_ms: None,
                last_error: None,
                consecutive_failures: 0,
            },
        }
    }

    /// Stores a record for a source, leaving every other source's record
    /// unchanged.
    fn put(&mut self, url: &str, h: FeedHealth)
        requires
            old(self).wf(),
        ensures
            final(self).wf(),
            final(self).spec_health(url@) == h,
            forall|u: Seq<char>|
                u != url@ ==> final(self).spec_health(u) == old(self).spec_health(u),
    {
        let ghost s0 = self.records@;
        match kvlist::kv_find(&self.records, url) {
            Some(i) => {
                let (key, _) = self.records.remove(i);
                self.records.insert(i, (key, h));
                proof {
                    let x = self.records@[i as int];
                    assert(x.0@ == url@);
                    assert(self.records@ =~= s0.update(i as int, x));
                    assert forall|u: Seq<char>| u != url@ implies kv_lookup(self.records@, u)
                        == kv_lookup(s0, u) by {
                        kvlist::lemma_kv_update(s0, i as int, x, u);
                    }
                    kvlist::lemma_kv_update(s0, i as int, x, url@);
                    assert forall|a: int, b: int|
                        0 <= a < b < self.records@.len() implies (#[trigger] self.records@[a]).0@
                        != (#[trigger] self.records@[b]).0@ by {
                        assert(s0[a].0@ != s0[b].0@);
                        assert(self.records@[a].0@ == s0[a].0@);
                        assert(self.records@[b].0@ == s0[b].0@);
                    }
                }
            },
            None => {
                self.records.push((String::from_str(url), h));
                proof {
                    let x = self.records@[s0.len() as int];
                    assert(x.0@ == url@);
                    assert(self.records@ =~= s0.push(x));
                    assert forall|u: Seq<char>| u != url@ implies kv_lookup(self.records@, u)
                        == kv_lookup(s0, u) by {
                        kvlist::lemma_kv_push(s0, x, u);
                    }
                    kvlist::lemma_kv_push(s0, x, url@);
                    assert forall|a: int, b: int|
                        0 <= a < b < self.records@.len() implies (#[trigger] self.records@[a]).0@
                        != (#[trigger] self.records@[b]).0@ by {
                        if b < s0.len() {
                            assert(s0[a].0@ != s0[b].0@);
                        } else {
                            assert(self.records@[a].0@ == s0[a].0@);
                            assert(self.records@[b].0@ == url@);
                        }
                    }
                }
            },
        }
    }

    /// Records a successful fetch: Healthy or Slow by the latency threshold,
    /// counter reset, error cleared. Other sources are untouched.
    pub fn record_success(&mut self, url: &str, latency_ms: u64, now: u64)
        requires
            old(self).wf(),
        ensures
            final(self).wf(),
            final(self).spec_health(url@) == after_success(latency_ms, now),
            forall|u: Seq<char>|
                u != url@ ==> final(self).spec_health(u) == old(self).spec_health(u),
    {
        let h = FeedHealth {
            status: if latency_ms > SLOW_THRESHOLD_MS {
                HealthStatus::Slow
            } else {
                HealthStatus::Healthy
            },
            last_success: Some(now),
            last_latency_ms: Some(latency_ms),
            last_error: None,
            consecutive_failures: 0,
        };
        self.put(url, h);
    }

    /// Records a failed attempt: Broken, message stored, counter one higher.
    /// Other sources are untouched.
    pub fn record_failure(&mut self, url: &str, message: String)
        requires
            old(self).wf(),
        ensures
            final(self).wf(),
            final(self).spec_health(url@) == after_failure(
                old(self).spec_health(url@),
                message,
            ),
            forall|u: Seq<char>|
                u != url@ ==> final(self).spec_health(u) == old(self).spec_health(u),
    {
        let prev = self.health(url);
        let n: u64 = if prev.consecutive_failures == u64::MAX {
            u64::MAX
        } else {
            prev.consecutive_failures + 1
        };
        let h = FeedHealth {
            status: HealthStatus::Broken,
            last_success: prev.last_success,
            last_latency_ms: prev.last_latency_ms,
            last_error: Some(message),
            consecutive_failures: n,
        };
        self.put(url, h);
    }
}

} // verus!
