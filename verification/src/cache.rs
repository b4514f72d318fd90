//! The per-source, TTL-bounded cache of fetched items.
//!
//! Entries are keyed by a filesystem-safe token derived from the source URL.
//! The store keeps the decoded entries in memory and records the file
//! operations (writes and deletions) the caller must mirror to disk; at
//! startup the caller seeds it from the cache directory, handing in each
//! file's decoded entry, or its token alone where decoding failed.

use vstd::prelude::*;

use crate::item::{clone_items, FeedItem};
use crate::kvlist;
use crate::kvlist::{kv_lookup, kv_unique};

verus! {

/// What base64's standard encoding returns for a URL.
pub uninterp spec fn token_of(url: Seq<char>) -> Seq<char>;

/// Relies on base64's `STANDARD` engine: encoding depends on the input bytes
/// alone, and decoding inverts it, so distinct URLs get distinct tokens.
#[verifier::external_body]
fn encode_token(url: &str) -> (r: String)
    ensures
        r@ == token_of(url@),
        forall|s: Seq<char>| s != url@ ==> r@ != token_of(s),
{
    base64::Engine::encode(&base64::engine::general_purpose::STANDARD, url)
}

/// One cached fetch: the source URL, the items it yielded, and when.
#[derive(Debug)]
pub struct CacheEntry {
    pub url: String,
    pub content: Vec<FeedItem>,
    /// Fetch time, seconds since the epoch.
    pub last_updated: u64,
}

impl Clone for CacheEntry {
    fn clone(&self) -> (r: Self)
        ensures
            r.url@ == self.url@,
            r.content@ == self.content@,
            r.last_updated == self.last_updated,
    {
        CacheEntry {
            url: self.url.clone(),
            content: clone_items(&self.content),
            last_updated: self.last_updated,
        }
    }
}

/// A cache slot as seeded from disk: a decoded entry, or the remains of a
/// file that failed to decode.
#[derive(Debug)]
pub enum CacheBlob {
    Entry(CacheEntry),
    Corrupt,
}

/// A file operation the caller must mirror to the cache directory.
#[derive(Debug)]
pub enum FsOp {
    /// Write the entry's serialization under the token's filename.
    WriteCache(String, CacheEntry),
    /// Delete the file under the token's filename.
    DeleteCache(String),
}

/// Whether an entry is still fresh at `now` under the given TTL.
pub open spec fn entry_valid(e: CacheEntry, now: u64, ttl_secs: u64) -> bool {
    e.last_updated <= now && now - e.last_updated < ttl_secs
}

/// The per-source cache store.
#[derive(Debug)]
pub struct CacheStore {
    /// Slots keyed by cache token.
    pub slots: Vec<(String, CacheBlob)>,
    /// Validity window in seconds.
    pub ttl_secs: u64,
    /// File operations not yet mirrored to disk.
    pub pending_ops: Vec<FsOp>,
}

impl CacheStore {
    /// Unique tokens.
    pub open spec fn wf(&self) -> bool {
        kv_unique(self.slots@)
    }

    /// What `get` returns: the entry's items exactly when a slot under the
    /// URL's token holds a decoded entry that is still fresh.
    pub open spec fn spec_get(&self, url: Seq<char>, now: u64) -> Option<Seq<FeedItem>> {
        match kv_lookup(self.slots@, token_of(url)) {
            Some(CacheBlob::Entry(e)) => if entry_valid(e, now, self.ttl_secs) {
                Some(e.content@)
            } else {
                None
            },
            _ => None,
        }
    }

    pub fn new(ttl_secs: u64) -> (r: Self)
        ensures
            r.wf(),
            r.ttl_secs == ttl_secs,
            r.slots@.len() == 0,
            r.pending_ops@.len() == 0,
    {
        CacheStore { slots: Vec::new(), ttl_secs, pending_ops: Vec::new() }
    }

    /// Stores a blob under a token, replacing any slot with that token.
    /// Leaves every other slot and the pending operations unchanged.
    fn store_blob(&mut self, token: String, blob: CacheBlob)
        requires
            old(self).wf(),
        ensures
            final(self).wf(),
            final(self).ttl_secs == old(self).ttl_secs,
            final(self).pending_ops@ == old(self).pending_ops@,
            kv_lookup(final(self).slots@, token@) == Some(blob),
            forall|t: Seq<char>|
                t != token@ ==> kv_lookup(final(self).slots@, t) == kv_lookup(
                    old(self).slots@,
                    t,
                ),
    {
        let ghost s0 = self.slots@;
        match kvlist::kv_find(&self.slots, token.as_str()) {
            Some(i) => {
                self.slots.remove(i);
                self.slots.insert(i, (token, blob));
                proof {
                    let x = self.slots@[i as int];
                    assert(self.slots@ =~= s0.update(i as int, x));
                    assert forall|t: Seq<char>| t != x.0@ implies kv_lookup(self.slots@, t)
                        == kv_lookup(s0, t) by {
                        kvlist::lemma_kv_update(s0, i as int, x, t);
                    }
                    kvlist::lemma_kv_update(s0, i as int, x, x.0@);
                    assert forall|a: int, b: int|
                        0 <= a < b < self.slots@.len() implies (#[trigger] self.slots@[a]).0@
                        != (#[trigger] self.slots@[b]).0@ by {
                        assert(s0[a].0@ != s0[b].0@);
                        assert(self.slots@[a].0@ == s0[a].0@);
                        assert(self.slots@[b].0@ == s0[b].0@);
                    }
                }
            },
            None => {
                self.slots.push((token, blob));
                proof {
                    let x = self.slots@[s0.len() as int];
                    assert(self.slots@ =~= s0.push(x));
                    assert forall|t: Seq<char>| t != x.0@ implies kv_lookup(self.slots@, t)
                        == kv_lookup(s0, t) by {
                        kvlist::lemma_kv_push(s0, x, t);
                    }
                    kvlist::lemma_kv_push(s0, x, x.0@);
                    assert forall|a: int, b: int|
                        0 <= a < b < self.slots@.len() implies (#[trigger] self.slots@[a]).0@
                        != (#[trigger] self.slots@[b]).0@ by {
                        if b < s0.len() {
                            assert(s0[a].0@ != s0[b].0@);
                        } else {
                            assert(self.slots@[a].0@ == s0[a].0@);
                            assert(self.slots@[b].0@ == x.0@);
                        }
                    }
                }
            },
        }
    }

    /// Seeds the store with an entry decoded from disk. Queues no file
    /// operation: the file is already there.
    pub fn seed_entry(&mut self, entry: CacheEntry)
        requires
            old(self).wf(),
        ensures
            final(self).wf(),
            final(self).ttl_secs == old(self).ttl_secs,
            final(self).pending_ops@ == old(self).pending_ops@,
            kv_lookup(final(self).slots@, token_of(entry.url@)) == Some(CacheBlob::Entry(entry)),
            forall|t: Seq<char>|
                t != token_of(entry.url@) ==> kv_lookup(final(self).slots@, t) == kv_lookup(
                    old(self).slots@,
                    t,
                ),
    {
        let token = encode_token(entry.url.as_str());
        self.store_blob(token, CacheBlob::Entry(entry));
    }

    /// Seeds the store with the token of a file that failed to decode.
    pub fn seed_corrupt(&mut self, token: String)
        requires
            old(self).wf(),
        ensures
            final(self).wf(),
            final(self).ttl_secs == old(self).ttl_secs,
            final(self).pending_ops@ == old(self).pending_ops@,
            kv_lookup(final(self).slots@, token@) == Some(CacheBlob::Corrupt),
            forall|t: Seq<char>|
                t != token@ ==> kv_lookup(final(self).slots@, t) == kv_lookup(
                    old(self).slots@,
                    t,
                ),
    {
        self.store_blob(token, CacheBlob::Corrupt);
    }

    /// Overwrites the entry for a source unconditionally (no merge) and
    /// queues the write of the new file.
    pub fn put(&mut self, url: &str, content: Vec<FeedItem>, now: u64)
        requires
            old(self).wf(),
        ensures
            final(self).wf(),
            final(self).ttl_secs == old(self).ttl_secs,
            (match kv_lookup(final(self).slots@, token_of(url@)) {
                Some(CacheBlob::Entry(e)) => e.url@ == url@ && e.content@ == content@
                    && e.last_updated == now,
                _ => false,
            }),
            forall|t: Seq<char>|
                t != token_of(url@) ==> kv_lookup(final(self).slots@, t) == kv_lookup(
                    old(self).slots@,
                    t,
                ),
            final(self).pending_ops@.len() == old(self).pending_ops@.len() + 1,
            final(self).pending_ops@.subrange(0, old(self).pending_ops@.len() as int) == old(
                self,
            ).pending_ops@,
            (match final(self).pending_ops@.last() {
                FsOp::WriteCache(t, e) => t@ == token_of(url@) && e.url@ == url@ && e.content@
                    == content@ && e.last_updated == now,
                _ => false,
            }),
    {
        let ghost ops0 = self.pending_ops@;
        let token = encode_token(url);
        let entry = CacheEntry { url: String::from_str(url), content, last_updated: now };
        let op_entry = entry.clone();
        let op_token = token.clone();
        self.store_blob(token, CacheBlob::Entry(entry));
        self.pending_ops.push(FsOp::WriteCache(op_token, op_entry));
        proof {
            assert(self.pending_ops@.subrange(0, ops0.len() as int) =~= ops0);
        }
    }

    /// Reads the entry for a source: its items exactly when the slot holds a
    /// decoded entry that is still fresh. A slot that failed to decode is
    /// self-healing: it is dropped, its file's deletion is queued, and the
    /// read reports absence.
    pub fn get(&mut self, url: &str, now: u64) -> (r: Option<Vec<FeedItem>>)
        requires
            old(self).wf(),
        ensures
            final(self).wf(),
            final(self).ttl_secs == old(self).ttl_secs,
            (match r {
                Some(items) => old(self).spec_get(url@, now) == Some(items@),
                None => old(self).spec_get(url@, now) is None,
            }),
            forall|t: Seq<char>|
                t != token_of(url@) ==> kv_lookup(final(self).slots@, t) == kv_lookup(
                    old(self).slots@,
                    t,
                ),
            (match kv_lookup(old(self).slots@, token_of(url@)) {
                Some(CacheBlob::Corrupt) => kv_lookup(final(self).slots@, token_of(url@))
                    is None && final(self).pending_ops@.len() == old(self).pending_ops@.len() + 1
                    && final(self).pending_ops@.subrange(
                    0,
                    old(self).pending_ops@.len() as int,
                ) == old(self).pending_ops@ && (match final(self).pending_ops@.last() {
                    FsOp::DeleteCache(t) => t@ == token_of(url@),
                    _ => false,
                }),
                _ => final(self).slots@ == old(self).slots@ && final(self).pending_ops@ == old(
                    self,
                ).pending_ops@,
            }),
    {
        let ghost s0 = self.slots@;
        let ghost ops0 = self.pending_ops@;
        let token = encode_token(url);
        match kvlist::kv_find(&self.slots, token.as_str()) {
            Some(i) => {
                if matches!(&self.slots[i].1, CacheBlob::Corrupt) {
                    self.slots.remove(i);
                    self.pending_ops.push(FsOp::DeleteCache(token));
                    proof {
                        assert forall|t: Seq<char>| t != token_of(url@) implies kv_lookup(
                            self.slots@,
                            t,
                        ) == kv_lookup(s0, t) by {
                            kvlist::lemma_kv_remove(s0, i as int, t);
                        }
                        kvlist::lemma_kv_remove(s0, i as int, token_of(url@));
                        assert forall|a: int, b: int|
                            0 <= a < b < self.slots@.len() implies (#[trigger] self.slots@[a]).0@
                            != (#[trigger] self.slots@[b]).0@ by {
                            if b < i {
                                assert(self.slots@[a] == s0[a]);
                                assert(self.slots@[b] == s0[b]);
                            } else if a < i {
                                assert(self.slots@[a] == s0[a]);
                                assert(self.slots@[b] == s0[b + 1]);
                            } else {
                                assert(self.slots@[a] == s0[a + 1]);
                                assert(self.slots@[b] == s0[b + 1]);
                            }
                        }
                        assert(self.pending_ops@.subrange(0, ops0.len() as int) =~= ops0);
                    }
                    None
                } else {
                    match &self.slots[i].1 {
                        CacheBlob::Entry(e) => {
                            if e.last_updated <= now && now - e.last_updated < self.ttl_secs {
                                Some(clone_items(&e.content))
                            } else {
                                None
                            }
                        },
                        CacheBlob::Corrupt => None,
                    }
                }
            },
            None => None,
        }
    }

    /// Hands the queued file operations to the caller and forgets them.
    pub fn take_fs_ops(&mut self) -> (r: Vec<FsOp>)
        ensures
            r@ == old(self).pending_ops@,
            final(self).pending_ops@.len() == 0,
            final(self).slots@ == old(self).slots@,
            final(self).ttl_secs == old(self).ttl_secs,
    {
        let mut r: Vec<FsOp> = Vec::new();
        core::mem::swap(&mut r, &mut self.pending_ops);
        r
    }
}

/// How a store may move under reads alone: undecodable slots disappear (with
/// their files' deletions queued) and nothing else changes. Every read sees
/// the same items before and after.
pub open spec fn cache_evolved(pre: CacheStore, post: CacheStore) -> bool {
    &&& post.ttl_secs == pre.ttl_secs
    &&& forall|t: Seq<char>|
        #![trigger kv_lookup(post.slots@, t)]
        kv_lookup(post.slots@, t) == kv_lookup(pre.slots@, t) || (kv_lookup(pre.slots@, t)
            == Some(CacheBlob::Corrupt) && kv_lookup(post.slots@, t) is None)
    &&& post.pending_ops@.len() >= pre.pending_ops@.len()
    &&& post.pending_ops@.subrange(0, pre.pending_ops@.len() as int) == pre.pending_ops@
    &&& forall|i: int|
        pre.pending_ops@.len() <= i < post.pending_ops@.len() ==> (
        #[trigger] post.pending_ops@[i]) is DeleteCache
}

/// Losing undecodable slots changes no read: they already read as absent.
pub proof fn lemma_cache_evolved_same_reads(pre: CacheStore, post: CacheStore)
    requires
        cache_evolved(pre, post),
    ensures
        forall|u: Seq<char>, now: u64|
            #![trigger post.spec_get(u, now)]
            post.spec_get(u, now) == pre.spec_get(u, now),
{
    assert forall|u: Seq<char>, now: u64| #![trigger post.spec_get(u, now)] post.spec_get(u, now)
        == pre.spec_get(u, now) by {
        assert(kv_lookup(post.slots@, token_of(u)) == kv_lookup(pre.slots@, token_of(u)) || (
        kv_lookup(pre.slots@, token_of(u)) == Some(CacheBlob::Corrupt) && kv_lookup(
            post.slots@,
            token_of(u),
        ) is None));
    }
}

/// Cache TTL boundary: an entry younger than the TTL is returned, one at or
/// past it is treated as absent. In particular an entry one second younger
/// than the TTL is a hit and one a second past it is a miss.
pub proof fn lemma_ttl_boundary(s: CacheStore, url: Seq<char>, e: CacheEntry, now: u64)
    requires
        kv_lookup(s.slots@, token_of(url)) == Some(CacheBlob::Entry(e)),
        e.last_updated <= now,
    ensures
        now - e.last_updated < s.ttl_secs ==> s.spec_get(url, now) == Some(e.content@),
        now - e.last_updated >= s.ttl_secs ==> s.spec_get(url, now) is None,
{
}

} // verus!
