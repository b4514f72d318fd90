//! The feed manager: subscriptions, read and favorite marks, the cache
//! store, the health tracker, the seen set, and the refresh cycle.
//!
//! A refresh runs in three steps, with the caller doing the network work in
//! between: `begin_refresh` consults the cache per source and returns the
//! URLs that need fetching; `apply_fetch_outcome` takes one fetch's outcome
//! — response or transport error — and updates cache, health and the
//! in-progress aggregate; `finish_refresh` sorts the aggregate, diffs it
//! against the seen set, and hands back at most one notification. Failures
//! stay per-source: they land in the health tracker and never abort a cycle.

use vstd::prelude::*;

use crate::cache::{cache_evolved, token_of, CacheBlob, CacheEntry, CacheStore, FsOp};
use crate::config::Config;
use crate::feed_parse;
use crate::feed_parse::decoded_feed_of;
use crate::health::{after_failure, after_success, FeedHealth, HealthTracker};
use crate::idset;
use crate::idset::{contains_id, ids_unique, views_of};
use crate::item::{clone_items, dec_u64, FeedItem, ItemView};
use crate::json::JsonValue;
use crate::kvlist::kv_lookup;
use crate::sorting;
use crate::sorting::sorted_by_published_desc;
use crate::state;
use crate::strutil;
use crate::state::{
    dedup_keys, dedup_sources, has_url, migrate_spec, FeedSource, PersistedState, StateView,
};

verus! {

/// What one fetch attempt came back with.
#[derive(Debug)]
pub enum FetchOutcome {
    /// An HTTP response: status code and body bytes.
    Response(u16, Vec<u8>),
    /// No response; the transport error's text.
    TransportError(String),
}

/// At most one notification per refresh: the first few newly seen titles and
/// the full count.
#[derive(Debug)]
pub struct Notification {
    /// Titles of the first newly seen items, at most three.
    pub titles: Vec<String>,
    /// How many items were newly seen in all.
    pub total_new: usize,
}

/// The aggregate's newly seen items, in aggregate order.
pub open spec fn new_items_of(s: Seq<FeedItem>, seen: Seq<String>) -> Seq<FeedItem> {
    s.filter(|it: FeedItem| !contains_id(seen, it@.id))
}

/// Items a still-fresh cache entry contributes for a source; none otherwise.
pub open spec fn cached_items_of(cache: CacheStore, url: Seq<char>, now: u64) -> Seq<FeedItem> {
    match cache.spec_get(url, now) {
        Some(items) => items,
        None => Seq::empty(),
    }
}

pub open spec fn cache_hit(cache: CacheStore, url: Seq<char>, now: u64) -> bool {
    cache.spec_get(url, now) is Some
}

/// What the cache contributes to a cycle, in subscription order.
pub open spec fn gathered_from_cache(
    cache: CacheStore,
    feeds: Seq<FeedSource>,
    now: u64,
) -> Seq<FeedItem>
    decreases feeds.len(),
{
    if feeds.len() == 0 {
        Seq::empty()
    } else {
        gathered_from_cache(cache, feeds.drop_last(), now) + cached_items_of(
            cache,
            feeds.last().url@,
            now,
        )
    }
}

/// The sources a cycle must fetch, in subscription order: all of them under
/// force, otherwise those without a fresh cache entry.
pub open spec fn fetch_plan(
    cache: CacheStore,
    feeds: Seq<FeedSource>,
    force: bool,
    now: u64,
) -> Seq<Seq<char>>
    decreases feeds.len(),
{
    if feeds.len() == 0 {
        Seq::empty()
    } else {
        fetch_plan(cache, feeds.drop_last(), force, now) + (if force || !cache_hit(
            cache,
            feeds.last().url@,
            now,
        ) {
            seq![feeds.last().url@]
        } else {
            Seq::empty()
        })
    }
}

/// Whether a cache slot holds an item with this identity.
pub open spec fn slot_has_id(slot: (String, CacheBlob), y: Seq<char>) -> bool {
    match slot.1 {
        CacheBlob::Entry(e) => exists|k: int|
            0 <= k < e.content@.len() && (#[trigger] e.content@[k])@.id == y,
        CacheBlob::Corrupt => false,
    }
}

/// Whether any cache slot holds an item with this identity.
pub open spec fn id_in_cache(slots: Seq<(String, CacheBlob)>, y: Seq<char>) -> bool {
    exists|s: int| 0 <= s < slots.len() && slot_has_id(#[trigger] slots[s], y)
}

/// A failure with this message text was recorded for the source, and no
/// other source's health moved.
pub open spec fn failure_applied(
    pre: RssManager,
    post: RssManager,
    url: Seq<char>,
    msg: Seq<char>,
) -> bool {
    &&& exists|m: String|
        m@ == msg && post.health.spec_health(url) == #[trigger] after_failure(
            pre.health.spec_health(url),
            m,
        )
    &&& forall|u: Seq<char>|
        u != url ==> post.health.spec_health(u) == pre.health.spec_health(u)
}

/// A failure with some message was recorded for the source, and no other
/// source's health moved.
pub open spec fn some_failure_applied(pre: RssManager, post: RssManager, url: Seq<char>) -> bool {
    &&& exists|m: String|
        post.health.spec_health(url) == #[trigger] after_failure(pre.health.spec_health(url), m)
    &&& forall|u: Seq<char>|
        u != url ==> post.health.spec_health(u) == pre.health.spec_health(u)
}

/// The cache and the in-progress aggregate did not move.
pub open spec fn cache_untouched(pre: RssManager, post: RssManager) -> bool {
    &&& post.cache.slots@ == pre.cache.slots@
    &&& post.cache.pending_ops@ == pre.cache.pending_ops@
    &&& post.cache.ttl_secs == pre.cache.ttl_secs
    &&& post.gathered@ == pre.gathered@
}

/// A successful fetch was applied: items whose views are exactly `decoded`
/// — what the body decodes to — were appended to the aggregate, the source's
/// cache entry was overwritten with them (with the write queued), its health
/// records the success, and nothing else moved.
pub open spec fn success_applied(
    pre: RssManager,
    post: RssManager,
    url: Seq<char>,
    latency_ms: u64,
    now: u64,
    decoded: Seq<ItemView>,
) -> bool {
    &&& exists|items: Seq<FeedItem>|
        {
            &&& items.map_values(|it: FeedItem| it@) == decoded
            &&& post.gathered@ == #[trigger] (pre.gathered@ + items)
            &&& (match kv_lookup(post.cache.slots@, token_of(url)) {
                Some(CacheBlob::Entry(e)) => e.url@ == url && e.content@ == items
                    && e.last_updated == now,
                _ => false,
            })
            &&& post.cache.pending_ops@.len() == pre.cache.pending_ops@.len() + 1
            &&& post.cache.pending_ops@.subrange(0, pre.cache.pending_ops@.len() as int)
                == pre.cache.pending_ops@
            &&& (match post.cache.pending_ops@.last() {
                FsOp::WriteCache(t, e) => t@ == token_of(url) && e.url@ == url && e.content@
                    == items && e.last_updated == now,
                _ => false,
            })
        }
    &&& forall|t: Seq<char>|
        t != token_of(url) ==> kv_lookup(post.cache.slots@, t) == kv_lookup(pre.cache.slots@, t)
    &&& post.cache.ttl_secs == pre.cache.ttl_secs
    &&& post.health.spec_health(url) == after_success(latency_ms, now)
    &&& forall|u: Seq<char>|
        u != url ==> post.health.spec_health(u) == pre.health.spec_health(u)
}

/// The engine: everything the refresh cycle reads and writes.
#[derive(Debug)]
pub struct RssManager {
    /// Subscriptions, unique by URL.
    pub rss_feeds: Vec<FeedSource>,
    /// The aggregate of the last finished cycle, sorted newest first.
    pub current_feed_content: Vec<FeedItem>,
    /// Identities of items marked read.
    pub read_items: Vec<String>,
    /// Identities of items marked favorite.
    pub favorites: Vec<String>,
    /// Identities already surfaced for notification, this session.
    pub seen: Vec<String>,
    pub cache: CacheStore,
    pub health: HealthTracker,
    pub config: Config,
    /// The aggregate of the cycle in progress.
    pub gathered: Vec<FeedItem>,
}

impl RssManager {
    pub open spec fn wf(&self) -> bool {
        &&& self.cache.wf()
        &&& self.health.wf()
        &&& forall|i: int, j: int|
            0 <= i < j < self.rss_feeds@.len() ==> (#[trigger] self.rss_feeds@[i]).url@
                != (#[trigger] self.rss_feeds@[j]).url@
        &&& ids_unique(self.read_items@)
        &&& ids_unique(self.favorites@)
        &&& ids_unique(self.seen@)
    }

    /// A fresh engine: no subscriptions, empty sets, an empty cache with the
    /// configured TTL, all health unknown.
    pub fn new(config: Config) -> (r: Self)
        ensures
            r.wf(),
            r.rss_feeds@.len() == 0,
            r.current_feed_content@.len() == 0,
            r.read_items@.len() == 0,
            r.favorites@.len() == 0,
            r.seen@.len() == 0,
            r.cache.slots@.len() == 0,
            r.cache.pending_ops@.len() == 0,
            r.cache.ttl_secs as int == config.spec_ttl_secs(),
            r.health.records@.len() == 0,
            r.config == config,
            r.gathered@.len() == 0,
    {
        let ttl = config.ttl_secs();
        RssManager {
            rss_feeds: Vec::new(),
            current_feed_content: Vec::new(),
            read_items: Vec::new(),
            favorites: Vec::new(),
            seen: Vec::new(),
            cache: CacheStore::new(ttl),
            health: HealthTracker::new(),
            config,
            gathered: Vec::new(),
        }
    }

    /// Adopts persisted state from a document, migrating old schemas and
    /// removing duplicates. Reports `false` — leaving the state as it was —
    /// exactly when the document matches no known schema; the caller then
    /// deletes the file and carries on empty.
    pub fn load_state_tree(&mut self, tree: &JsonValue) -> (ok: bool)
        requires
            old(self).wf(),
        ensures
            final(self).wf(),
            (match migrate_spec(*tree) {
                Some(sv) => ok && final(self).rss_feeds@.map_values(|f: FeedSource| f@)
                    == dedup_sources(sv.feeds) && views_of(final(self).read_items@) == dedup_keys(
                    sv.read_items,
                ) && views_of(final(self).favorites@) == dedup_keys(sv.favorites),
                None => !ok && final(self).rss_feeds@ == old(self).rss_feeds@ && final(self).read_items@ == old(self).read_items@ && final(self).favorites@ == old(self).favorites@,
            }),
            final(self).current_feed_content@ == old(self).current_feed_content@,
            final(self).seen@ == old(self).seen@,
            final(self).cache == old(self).cache,
            final(self).health == old(self).health,
            final(self).config == old(self).config,
            final(self).gathered@ == old(self).gathered@,
    {
        match state::load_state(tree) {
            Some(s) => {
                let PersistedState { feeds, read_items, favorites } = s;
                self.rss_feeds = feeds;
                self.read_items = read_items;
                self.favorites = favorites;
                proof {
                    let sv = migrate_spec(*tree)->0;
                    state::lemma_dedup_sources_unique(sv.feeds);
                    state::lemma_dedup_keys_unique(sv.read_items);
                    state::lemma_dedup_keys_unique(sv.favorites);
                    let fviews = self.rss_feeds@.map_values(|f: FeedSource| f@);
                    assert forall|i: int, j: int|
                        0 <= i < j < self.rss_feeds@.len() implies (
                    #[trigger] self.rss_feeds@[i]).url@ != (#[trigger] self.rss_feeds@[j]).url@ by {
                        assert(fviews[i] == dedup_sources(sv.feeds)[i]);
                        assert(fviews[j] == dedup_sources(sv.feeds)[j]);
                    }
                }
                true
            },
            None => false,
        }
    }

    /// The state to persist, written in the current schema.
    pub fn save_state_tree(&self) -> (r: JsonValue)
        ensures
            state::tree_encodes_state(
                r,
                StateView {
                    feeds: self.rss_feeds@.map_values(|f: FeedSource| f@),
                    read_items: views_of(self.read_items@),
                    favorites: views_of(self.favorites@),
                },
            ),
    {
        let snapshot = PersistedState {
            feeds: clone_sources(&self.rss_feeds),
            read_items: clone_strings(&self.read_items),
            favorites: clone_strings(&self.favorites),
        };
        state::state_to_tree(&snapshot)
    }

    /// Whether the item is marked read.
    pub fn is_item_read(&self, item: &FeedItem) -> (r: bool)
        ensures
            r == contains_id(self.read_items@, item.id@),
    {
        idset::id_contains(&self.read_items, item.id.as_str())
    }

    /// Whether the item is marked favorite.
    pub fn is_item_favorite(&self, item: &FeedItem) -> (r: bool)
        ensures
            r == contains_id(self.favorites@, item.id@),
    {
        idset::id_contains(&self.favorites, item.id.as_str())
    }

    /// Toggles the read mark of the item at `index` of the current list;
    /// reports whether there was such an item. The change stands in memory
    /// whether or not the caller manages to persist it.
    pub fn toggle_read_status(&mut self, index: usize) -> (r: bool)
        requires
            old(self).wf(),
        ensures
            final(self).wf(),
            r == (index < old(self).current_feed_content@.len()),
            (if index < old(self).current_feed_content@.len() {
                forall|y: Seq<char>|
                    contains_id(final(self).read_items@, y) <==> (if y == old(self).current_feed_content@[index as int].id@ {
                        !contains_id(old(self).read_items@, y)
                    } else {
                        contains_id(old(self).read_items@, y)
                    })
            } else {
                final(self).read_items@ == old(self).read_items@
            }),
            final(self).rss_feeds@ == old(self).rss_feeds@,
            final(self).current_feed_content@ == old(self).current_feed_content@,
            final(self).favorites@ == old(self).favorites@,
            final(self).seen@ == old(self).seen@,
            final(self).cache == old(self).cache,
            final(self).health == old(self).health,
            final(self).config == old(self).config,
            final(self).gathered@ == old(self).gathered@,
    {
        if index < self.current_feed_content.len() {
            let id = self.current_feed_content[index].id.clone();
            if idset::id_contains(&self.read_items, id.as_str()) {
                idset::id_remove(&mut self.read_items, id.as_str());
            } else {
                idset::id_insert(&mut self.read_items, id.as_str());
            }
            true
        } else {
            false
        }
    }

    /// Toggles the favorite mark of the item at `index` of the current list;
    /// reports whether there was such an item.
    pub fn toggle_favorite(&mut self, index: usize) -> (r: bool)
        requires
            old(self).wf(),
        ensures
            final(self).wf(),
            r == (index < old(self).current_feed_content@.len()),
            (if index < old(self).current_feed_content@.len() {
                forall|y: Seq<char>|
                    contains_id(final(self).favorites@, y) <==> (if y == old(self).current_feed_content@[index as int].id@ {
                        !contains_id(old(self).favorites@, y)
                    } else {
                        contains_id(old(self).favorites@, y)
                    })
            } else {
                final(self).favorites@ == old(self).favorites@
            }),
            final(self).rss_feeds@ == old(self).rss_feeds@,
            final(self).current_feed_content@ == old(self).current_feed_content@,
            final(self).read_items@ == old(self).read_items@,
            final(self).seen@ == old(self).seen@,
            final(self).cache == old(self).cache,
            final(self).health == old(self).health,
            final(self).config == old(self).config,
            final(self).gathered@ == old(self).gathered@,
    {
        if index < self.current_feed_content.len() {
            let id = self.current_feed_content[index].id.clone();
            if idset::id_contains(&self.favorites, id.as_str()) {
                idset::id_remove(&mut self.favorites, id.as_str());
            } else {
                idset::id_insert(&mut self.favorites, id.as_str());
            }
            true
        } else {
            false
        }
    }

    /// Marks the item at `index` read; reports whether it existed and was
    /// unread until now.
    pub fn mark_as_read(&mut self, index: usize) -> (r: bool)
        requires
            old(self).wf(),
        ensures
            final(self).wf(),
            r == (index < old(self).current_feed_content@.len() && !contains_id(
                old(self).read_items@,
                old(self).current_feed_content@[index as int].id@,
            )),
            (if index < old(self).current_feed_content@.len() {
                forall|y: Seq<char>|
                    contains_id(final(self).read_items@, y) <==> (contains_id(
                        old(self).read_items@,
                        y,
                    ) || y == old(self).current_feed_content@[index as int].id@)
            } else {
                final(self).read_items@ == old(self).read_items@
            }),
            final(self).rss_feeds@ == old(self).rss_feeds@,
            final(self).current_feed_content@ == old(self).current_feed_content@,
            final(self).favorites@ == old(self).favorites@,
            final(self).seen@ == old(self).seen@,
            final(self).cache == old(self).cache,
            final(self).health == old(self).health,
            final(self).config == old(self).config,
            final(self).gathered@ == old(self).gathered@,
    {
        if index < self.current_feed_content.len() {
            let id = self.current_feed_content[index].id.clone();
            let was_read = idset::id_contains(&self.read_items, id.as_str());
            if !was_read {
                idset::id_insert(&mut self.read_items, id.as_str());
                true
            } else {
                false
            }
        } else {
            false
        }
    }

    /// Marks every item of the current list read.
    #[verifier::loop_isolation(false)]
    pub fn mark_all_as_read(&mut self)
        requires
            old(self).wf(),
        ensures
            final(self).wf(),
            forall|y: Seq<char>|
                contains_id(final(self).read_items@, y) <==> (contains_id(old(self).read_items@, y)
                    || exists|i: int|
                    0 <= i < old(self).current_feed_content@.len() && (#[trigger] old(self).current_feed_content@[i]).id@ == y),
            final(self).rss_feeds@ == old(self).rss_feeds@,
            final(self).current_feed_content@ == old(self).current_feed_content@,
            final(self).favorites@ == old(self).favorites@,
            final(self).seen@ == old(self).seen@,
            final(self).cache == old(self).cache,
            final(self).health == old(self).health,
            final(self).config == old(self).config,
            final(self).gathered@ == old(self).gathered@,
    {
        let ghost cur = self.current_feed_content@;
        let mut i: usize = 0;
        while i < self.current_feed_content.len()
            invariant
                i <= cur.len(),
                self.current_feed_content@ == cur,
                ids_unique(self.read_items@),
                forall|y: Seq<char>|
                    contains_id(self.read_items@, y) <==> (contains_id(old(self).read_items@, y)
                        || exists|j: int| 0 <= j < i && (#[trigger] cur[j]).id@ == y),
                self.rss_feeds@ == old(self).rss_feeds@,
                self.favorites@ == old(self).favorites@,
                self.seen@ == old(self).seen@,
                self.cache == old(self).cache,
                self.health == old(self).health,
                self.config == old(self).config,
                self.gathered@ == old(self).gathered@,
            decreases cur.len() - i,
        {
            let id = self.current_feed_content[i].id.clone();
            idset::id_insert(&mut self.read_items, id.as_str());
            proof {
                assert forall|y: Seq<char>| contains_id(self.read_items@, y) implies (contains_id(
                    old(self).read_items@,
                    y,
                ) || exists|j: int| 0 <= j < i + 1 && (#[trigger] cur[j]).id@ == y) by {
                    if y == cur[i as int].id@ {
                        assert((#[trigger] cur[i as int]).id@ == y);
                    }
                }
            }
            i += 1;
        }
    }

    /// Removes the subscription at `index` and clears the current list;
    /// reports whether there was such a subscription.
    pub fn delete_feed(&mut self, index: usize) -> (r: bool)
        requires
            old(self).wf(),
        ensures
            final(self).wf(),
            r == (index < old(self).rss_feeds@.len()),
            (if index < old(self).rss_feeds@.len() {
                final(self).rss_feeds@ == old(self).rss_feeds@.remove(index as int) && final(self).current_feed_content@.len() == 0
            } else {
                final(self).rss_feeds@ == old(self).rss_feeds@ && final(self).current_feed_content@ == old(self).current_feed_content@
            }),
            final(self).read_items@ == old(self).read_items@,
            final(self).favorites@ == old(self).favorites@,
            final(self).seen@ == old(self).seen@,
            final(self).cache == old(self).cache,
            final(self).health == old(self).health,
            final(self).config == old(self).config,
            final(self).gathered@ == old(self).gathered@,
    {
        if index < self.rss_feeds.len() {
            let ghost s0 = self.rss_feeds@;
            self.rss_feeds.remove(index);
            self.current_feed_content.clear();
            proof {
                assert forall|a: int, b: int|
                    0 <= a < b < self.rss_feeds@.len() implies (#[trigger] self.rss_feeds@[a]).url@
                    != (#[trigger] self.rss_feeds@[b]).url@ by {
                    let a0: int = if a < index { a } else { a + 1 };
                    let b0: int = if b < index { b } else { b + 1 };
                    assert(self.rss_feeds@[a] == s0[a0]);
                    assert(self.rss_feeds@[b] == s0[b0]);
                }
            }
            true
        } else {
            false
        }
    }

    /// Adds a subscription the caller has validated; refuses a URL already
    /// subscribed.
    pub fn add_feed(&mut self, source: FeedSource) -> (r: bool)
        requires
            old(self).wf(),
        ensures
            final(self).wf(),
            r == !has_url(old(self).rss_feeds@.map_values(|f: FeedSource| f@), source.url@),
            r ==> final(self).rss_feeds@ == old(self).rss_feeds@.push(source),
            !r ==> final(self).rss_feeds@ == old(self).rss_feeds@,
            final(self).current_feed_content@ == old(self).current_feed_content@,
            final(self).read_items@ == old(self).read_items@,
            final(self).favorites@ == old(self).favorites@,
            final(self).seen@ == old(self).seen@,
            final(self).cache == old(self).cache,
            final(self).health == old(self).health,
            final(self).config == old(self).config,
            final(self).gathered@ == old(self).gathered@,
    {
        let ghost s0 = self.rss_feeds@;
        let ghost fviews = s0.map_values(|f: FeedSource| f@);
        if state::vec_has_url(&self.rss_feeds, source.url.as_str()) {
            false
        } else {
            proof {
                assert forall|j: int| 0 <= j < s0.len() implies (#[trigger] s0[j]).url@
                    != source.url@ by {
                    if s0[j].url@ == source.url@ {
                        assert(fviews[j].url == source.url@);
                        assert(has_url(fviews, source.url@));
                    }
                }
            }
            self.rss_feeds.push(source);
            proof {
                assert forall|a: int, b: int|
                    0 <= a < b < self.rss_feeds@.len() implies (#[trigger] self.rss_feeds@[a]).url@
                    != (#[trigger] self.rss_feeds@[b]).url@ by {
                    if b < s0.len() {
                        assert(self.rss_feeds@[a] == s0[a]);
                        assert(self.rss_feeds@[b] == s0[b]);
                    } else {
                        assert(self.rss_feeds@[a] == s0[a]);
                        assert(self.rss_feeds@[b] == source);
                    }
                }
            }
            true
        }
    }

    /// Reads a source's cache entry through the self-healing path.
    pub fn get(&mut self, url: &str, now: u64) -> (r: Option<Vec<FeedItem>>)
        requires
            old(self).wf(),
        ensures
            final(self).wf(),
            (match r {
                Some(items) => old(self).cache.spec_get(url@, now) == Some(items@),
                None => old(self).cache.spec_get(url@, now) is None,
            }),
            (match kv_lookup(old(self).cache.slots@, token_of(url@)) {
                Some(CacheBlob::Corrupt) => kv_lookup(final(self).cache.slots@, token_of(url@))
                    is None && final(self).cache.pending_ops@.len() == old(self).cache.pending_ops@.len() + 1 && (match final(self).cache.pending_ops@.last() {
                    FsOp::DeleteCache(t) => t@ == token_of(url@),
                    _ => false,
                }),
                _ => final(self).cache.slots@ == old(self).cache.slots@ && final(self).cache.pending_ops@ == old(self).cache.pending_ops@,
            }),
            forall|t: Seq<char>|
                t != token_of(url@) ==> kv_lookup(final(self).cache.slots@, t) == kv_lookup(
                    old(self).cache.slots@,
                    t,
                ),
            final(self).cache.ttl_secs == old(self).cache.ttl_secs,
            final(self).rss_feeds@ == old(self).rss_feeds@,
            final(self).current_feed_content@ == old(self).current_feed_content@,
            final(self).read_items@ == old(self).read_items@,
            final(self).favorites@ == old(self).favorites@,
            final(self).seen@ == old(self).seen@,
            final(self).health == old(self).health,
            final(self).config == old(self).config,
            final(self).gathered@ == old(self).gathered@,
    {
        self.cache.get(url, now)
    }

    /// Reads a source's health record.
    pub fn health(&self, url: &str) -> (r: FeedHealth)
        ensures
            r == self.health.spec_health(url@),
    {
        self.health.health(url)
    }

    /// Seeds the cache with an entry decoded from disk.
    pub fn seed_cache_entry(&mut self, entry: CacheEntry)
        requires
            old(self).wf(),
        ensures
            final(self).wf(),
            kv_lookup(final(self).cache.slots@, token_of(entry.url@)) == Some(
                CacheBlob::Entry(entry),
            ),
            forall|t: Seq<char>|
                t != token_of(entry.url@) ==> kv_lookup(final(self).cache.slots@, t) == kv_lookup(
                    old(self).cache.slots@,
                    t,
                ),
            final(self).cache.pending_ops@ == old(self).cache.pending_ops@,
            final(self).cache.ttl_secs == old(self).cache.ttl_secs,
            final(self).rss_feeds@ == old(self).rss_feeds@,
            final(self).current_feed_content@ == old(self).current_feed_content@,
            final(self).read_items@ == old(self).read_items@,
            final(self).favorites@ == old(self).favorites@,
            final(self).seen@ == old(self).seen@,
            final(self).health == old(self).health,
            final(self).config == old(self).config,
            final(self).gathered@ == old(self).gathered@,
    {
        self.cache.seed_entry(entry);
    }

    /// Seeds the cache with the token of a file that failed to decode.
    pub fn seed_cache_corrupt(&mut self, token: String)
        requires
            old(self).wf(),
        ensures
            final(self).wf(),
            kv_lookup(final(self).cache.slots@, token@) == Some(CacheBlob::Corrupt),
            forall|t: Seq<char>|
                t != token@ ==> kv_lookup(final(self).cache.slots@, t) == kv_lookup(
                    old(self).cache.slots@,
                    t,
                ),
            final(self).cache.pending_ops@ == old(self).cache.pending_ops@,
            final(self).cache.ttl_secs == old(self).cache.ttl_secs,
            final(self).rss_feeds@ == old(self).rss_feeds@,
            final(self).current_feed_content@ == old(self).current_feed_content@,
            final(self).read_items@ == old(self).read_items@,
            final(self).favorites@ == old(self).favorites@,
            final(self).seen@ == old(self).seen@,
            final(self).health == old(self).health,
            final(self).config == old(self).config,
            final(self).gathered@ == old(self).gathered@,
    {
        self.cache.seed_corrupt(token);
    }

    /// Hands over the file operations not yet mirrored to disk.
    pub fn take_fs_ops(&mut self) -> (r: Vec<FsOp>)
        requires
            old(self).wf(),
        ensures
            final(self).wf(),
            r@ == old(self).cache.pending_ops@,
            final(self).cache.pending_ops@.len() == 0,
            final(self).cache.slots@ == old(self).cache.slots@,
            final(self).cache.ttl_secs == old(self).cache.ttl_secs,
            final(self).rss_feeds@ == old(self).rss_feeds@,
            final(self).current_feed_content@ == old(self).current_feed_content@,
            final(self).read_items@ == old(self).read_items@,
            final(self).favorites@ == old(self).favorites@,
            final(self).seen@ == old(self).seen@,
            final(self).health == old(self).health,
            final(self).config == old(self).config,
            final(self).gathered@ == old(self).gathered@,
    {
        self.cache.take_fs_ops()
    }

    /// Seeds the seen set with every identity held in the cache, so that
    /// items already on disk raise no notification burst at startup.
    #[verifier::loop_isolation(false)]
    pub fn seed_seen_from_cache(&mut self)
        requires
            old(self).wf(),
        ensures
            final(self).wf(),
            forall|y: Seq<char>|
                contains_id(final(self).seen@, y) <==> (contains_id(old(self).seen@, y)
                    || id_in_cache(old(self).cache.slots@, y)),
            final(self).rss_feeds@ == old(self).rss_feeds@,
            final(self).current_feed_content@ == old(self).current_feed_content@,
            final(self).read_items@ == old(self).read_items@,
            final(self).favorites@ == old(self).favorites@,
            final(self).cache == old(self).cache,
            final(self).health == old(self).health,
            final(self).config == old(self).config,
            final(self).gathered@ == old(self).gathered@,
    {
        let ghost slots = self.cache.slots@;
        let mut s: usize = 0;
        while s < self.cache.slots.len()
            invariant
                s <= slots.len(),
                self.cache.slots@ == slots,
                ids_unique(self.seen@),
                forall|y: Seq<char>|
                    contains_id(self.seen@, y) <==> (contains_id(old(self).seen@, y)
                        || id_in_cache(slots.subrange(0, s as int), y)),
                self.rss_feeds@ == old(self).rss_feeds@,
                self.current_feed_content@ == old(self).current_feed_content@,
                self.read_items@ == old(self).read_items@,
                self.favorites@ == old(self).favorites@,
                self.cache == old(self).cache,
                self.health == old(self).health,
                self.config == old(self).config,
                self.gathered@ == old(self).gathered@,
            decreases slots.len() - s,
        {
            let ghost seen_s = self.seen@;
            let is_entry = matches!(&self.cache.slots[s].1, CacheBlob::Entry(_));
            if is_entry {
                let n = match &self.cache.slots[s].1 {
                    CacheBlob::Entry(e) => e.content.len(),
                    CacheBlob::Corrupt => 0,
                };
                let ghost items = (match slots[s as int].1 {
                    CacheBlob::Entry(e) => e.content@,
                    CacheBlob::Corrupt => Seq::empty(),
                });
                let mut k: usize = 0;
                while k < n
                    invariant
                        k <= n,
                        n == items.len(),
                        self.cache.slots@ == slots,
                        s < slots.len(),
                        slots[s as int].1 is Entry,
                        items == slots[s as int].1->Entry_0.content@,
                        ids_unique(self.seen@),
                        forall|y: Seq<char>|
                            contains_id(self.seen@, y) <==> (contains_id(seen_s, y) || exists|
                                kk: int,
                            | 0 <= kk < k && (#[trigger] items[kk])@.id == y),
                        self.rss_feeds@ == old(self).rss_feeds@,
                        self.current_feed_content@ == old(self).current_feed_content@,
                        self.read_items@ == old(self).read_items@,
                        self.favorites@ == old(self).favorites@,
                        self.cache == old(self).cache,
                        self.health == old(self).health,
                        self.config == old(self).config,
                        self.gathered@ == old(self).gathered@,
                    decreases n - k,
                {
                    let id = match &self.cache.slots[s].1 {
                        CacheBlob::Entry(e) => e.content[k].id.clone(),
                        CacheBlob::Corrupt => String::new(),
                    };
                    assert(id@ == items[k as int]@.id);
                    idset::id_insert(&mut self.seen, id.as_str());
                    proof {
                        assert forall|y: Seq<char>| contains_id(self.seen@, y) implies (
                        contains_id(seen_s, y) || exists|kk: int|
                            0 <= kk < k + 1 && (#[trigger] items[kk])@.id == y) by {
                            if y == items[k as int]@.id {
                                assert((#[trigger] items[k as int])@.id == y);
                            }
                        }
                        assert forall|y: Seq<char>| (contains_id(seen_s, y) || exists|kk: int|
                            0 <= kk < k + 1 && (#[trigger] items[kk])@.id == y) implies
                            contains_id(self.seen@, y) by {
                            if !contains_id(seen_s, y) {
                                let kk = choose|kk: int|
                                    0 <= kk < k + 1 && (#[trigger] items[kk])@.id == y;
                                if kk == k {
                                    assert(y == id@);
                                }
                            }
                        }
                    }
                    k += 1;
                }
                proof {
                    assert forall|y: Seq<char>| contains_id(self.seen@, y) implies (contains_id(
                        old(self).seen@,
                        y,
                    ) || id_in_cache(slots.subrange(0, s + 1), y)) by {
                        if !contains_id(old(self).seen@, y) {
                            if contains_id(seen_s, y) {
                                assert(id_in_cache(slots.subrange(0, s as int), y));
                                let j = choose|j: int|
                                    0 <= j < s && slot_has_id(
                                        #[trigger] slots.subrange(0, s as int)[j],
                                        y,
                                    );
                                assert(slot_has_id(slots.subrange(0, s + 1)[j], y));
                            } else {
                                let kk = choose|kk: int|
                                    0 <= kk < items.len() && (#[trigger] items[kk])@.id == y;
                                assert(slots[s as int].1->Entry_0.content@[kk]@.id == y);
                                assert(slot_has_id(slots[s as int], y));
                                assert(slots.subrange(0, s + 1)[s as int] == slots[s as int]);
                                assert(slot_has_id(slots.subrange(0, s + 1)[s as int], y));
                            }
                        }
                    }
                    assert forall|y: Seq<char>| (contains_id(old(self).seen@, y) || id_in_cache(
                        slots.subrange(0, s + 1),
                        y,
                    )) implies contains_id(self.seen@, y) by {
                        if contains_id(old(self).seen@, y) {
                            assert(contains_id(seen_s, y));
                        } else if id_in_cache(slots.subrange(0, s + 1), y) {
                            let j = choose|j: int|
                                0 <= j < s + 1 && slot_has_id(
                                    #[trigger] slots.subrange(0, s + 1)[j],
                                    y,
                                );
                            if j < s {
                                assert(slot_has_id(slots.subrange(0, s as int)[j], y));
                                assert(id_in_cache(slots.subrange(0, s as int), y));
                                assert(contains_id(seen_s, y));
                            } else {
                                assert(slots.subrange(0, s + 1)[j] == slots[s as int]);
                                assert(slot_has_id(slots[s as int], y));
                                let kk = choose|kk: int|
                                    0 <= kk < slots[s as int].1->Entry_0.content@.len() && (
                                    #[trigger] slots[s as int].1->Entry_0.content@[kk])@.id == y;
                                assert((items[kk])@.id == y);
                            }
                        }
                    }
                }
            } else {
                proof {
                    assert forall|y: Seq<char>| id_in_cache(slots.subrange(0, s + 1), y) implies
                        id_in_cache(slots.subrange(0, s as int), y) by {
                        let j = choose|j: int|
                            0 <= j < s + 1 && slot_has_id(#[trigger] slots.subrange(0, s + 1)[j], y);
                        assert(!slot_has_id(slots[s as int], y));
                        assert(slot_has_id(slots.subrange(0, s as int)[j], y));
                    }
                    assert forall|y: Seq<char>| id_in_cache(slots.subrange(0, s as int), y) implies
                        id_in_cache(slots.subrange(0, s + 1), y) by {
                        let j = choose|j: int|
                            0 <= j < s && slot_has_id(#[trigger] slots.subrange(0, s as int)[j], y);
                        assert(slot_has_id(slots.subrange(0, s + 1)[j], y));
                    }
                }
            }
            s += 1;
        }
        proof {
            assert(slots.subrange(0, slots.len() as int) =~= slots);
        }
    }

    /// Opens a refresh cycle: attempts a cache read for each subscription
    /// in order, accumulating the hits, and returns the sources to fetch —
    /// all of them under force, which bypasses the store entirely. The reads
    /// self-heal: a consulted slot that failed to decode is dropped and its
    /// file's deletion queued; no read changes what any source's entry says.
    #[verifier::loop_isolation(false)]
    pub fn begin_refresh(&mut self, force: bool, now: u64) -> (to_fetch: Vec<String>)
        requires
            old(self).wf(),
        ensures
            final(self).wf(),
            views_of(to_fetch@) == fetch_plan(old(self).cache, old(self).rss_feeds@, force, now),
            final(self).gathered@ == (if force {
                Seq::<FeedItem>::empty()
            } else {
                gathered_from_cache(old(self).cache, old(self).rss_feeds@, now)
            }),
            cache_evolved(old(self).cache, final(self).cache),
            (!force ==> forall|j: int|
                0 <= j < old(self).rss_feeds@.len() ==> (kv_lookup(
                    old(self).cache.slots@,
                    token_of((#[trigger] old(self).rss_feeds@[j]).url@),
                ) == Some(CacheBlob::Corrupt) ==> kv_lookup(
                    final(self).cache.slots@,
                    token_of(old(self).rss_feeds@[j].url@),
                ) is None)),
            final(self).rss_feeds@ == old(self).rss_feeds@,
            final(self).current_feed_content@ == old(self).current_feed_content@,
            final(self).read_items@ == old(self).read_items@,
            final(self).favorites@ == old(self).favorites@,
            final(self).seen@ == old(self).seen@,
            final(self).health == old(self).health,
            final(self).config == old(self).config,
    {
        self.gathered = Vec::new();
        let mut to_fetch: Vec<String> = Vec::new();
        let ghost feeds = self.rss_feeds@;
        proof {
            assert(self.cache.pending_ops@.subrange(0, self.cache.pending_ops@.len() as int)
                =~= self.cache.pending_ops@);
            assert(cache_evolved(old(self).cache, self.cache));
        }
        let mut i: usize = 0;
        while i < self.rss_feeds.len()
            invariant
                i <= feeds.len(),
                self.rss_feeds@ == feeds,
                views_of(to_fetch@) == fetch_plan(
                    old(self).cache,
                    feeds.subrange(0, i as int),
                    force,
                    now,
                ),
                self.gathered@ == (if force {
                    Seq::<FeedItem>::empty()
                } else {
                    gathered_from_cache(old(self).cache, feeds.subrange(0, i as int), now)
                }),
                self.cache.wf(),
                cache_evolved(old(self).cache, self.cache),
                (!force ==> forall|j: int|
                    0 <= j < i ==> (kv_lookup(
                        old(self).cache.slots@,
                        token_of((#[trigger] feeds[j]).url@),
                    ) == Some(CacheBlob::Corrupt) ==> kv_lookup(
                        self.cache.slots@,
                        token_of(feeds[j].url@),
                    ) is None)),
                self.current_feed_content@ == old(self).current_feed_content@,
                self.read_items@ == old(self).read_items@,
                self.favorites@ == old(self).favorites@,
                self.seen@ == old(self).seen@,
                self.health == old(self).health,
                self.config == old(self).config,
            decreases feeds.len() - i,
        {
            proof {
                assert(feeds.subrange(0, i + 1).drop_last() =~= feeds.subrange(0, i as int));
                assert(feeds.subrange(0, i + 1).last() == feeds[i as int]);
            }
            let url = self.rss_feeds[i].url.clone();
            if force {
                to_fetch.push(url);
                proof {
                    assert(views_of(to_fetch@) =~= fetch_plan(
                        old(self).cache,
                        feeds.subrange(0, i + 1),
                        force,
                        now,
                    ));
                }
            } else {
                let ghost orig = old(self).cache;
                let ghost mid = self.cache;
                proof {
                    crate::cache::lemma_cache_evolved_same_reads(orig, mid);
                    assert(mid.spec_get(url@, now) == orig.spec_get(url@, now));
                }
                let got = self.cache.get(url.as_str(), now);
                proof {
                    let tok = token_of(url@);
                    // reading keeps the store an evolution of the original
                    assert forall|t: Seq<char>|
                        #![trigger kv_lookup(self.cache.slots@, t)]
                        kv_lookup(self.cache.slots@, t) == kv_lookup(orig.slots@, t) || (
                        kv_lookup(orig.slots@, t) == Some(CacheBlob::Corrupt) && kv_lookup(
                            self.cache.slots@,
                            t,
                        ) is None) by {
                        if t != tok {
                            assert(kv_lookup(self.cache.slots@, t) == kv_lookup(mid.slots@, t));
                            assert(kv_lookup(mid.slots@, t) == kv_lookup(orig.slots@, t) || (
                            kv_lookup(orig.slots@, t) == Some(CacheBlob::Corrupt) && kv_lookup(
                                mid.slots@,
                                t,
                            ) is None));
                        } else {
                            assert(kv_lookup(mid.slots@, tok) == kv_lookup(orig.slots@, tok) || (
                            kv_lookup(orig.slots@, tok) == Some(CacheBlob::Corrupt) && kv_lookup(
                                mid.slots@,
                                tok,
                            ) is None));
                        }
                    }
                    assert(self.cache.pending_ops@.subrange(0, orig.pending_ops@.len() as int)
                        =~= orig.pending_ops@);
                    assert forall|x: int|
                        orig.pending_ops@.len() <= x < self.cache.pending_ops@.len() implies (
                    #[trigger] self.cache.pending_ops@[x]) is DeleteCache by {
                        if x < mid.pending_ops@.len() {
                            assert(self.cache.pending_ops@[x] == mid.pending_ops@[x]);
                        } else {
                            assert(self.cache.pending_ops@[x] == self.cache.pending_ops@.last());
                        }
                    }
                    assert(cache_evolved(orig, self.cache));
                    // a consulted slot that was undecodable is gone
                    assert forall|j: int|
                        0 <= j < i + 1 implies (kv_lookup(
                        orig.slots@,
                        token_of((#[trigger] feeds[j]).url@),
                    ) == Some(CacheBlob::Corrupt) ==> kv_lookup(
                        self.cache.slots@,
                        token_of(feeds[j].url@),
                    ) is None) by {
                        let tj = token_of(feeds[j].url@);
                        if kv_lookup(orig.slots@, tj) == Some(CacheBlob::Corrupt) {
                            if j < i {
                                assert(kv_lookup(mid.slots@, tj) is None);
                                if tj != tok {
                                    assert(kv_lookup(self.cache.slots@, tj) == kv_lookup(
                                        mid.slots@,
                                        tj,
                                    ));
                                }
                            }
                        }
                    }
                }
                match got {
                    Some(mut items) => {
                        self.gathered.append(&mut items);
                        proof {
                            assert(views_of(to_fetch@) =~= fetch_plan(
                                orig,
                                feeds.subrange(0, i + 1),
                                force,
                                now,
                            ));
                        }
                    },
                    None => {
                        to_fetch.push(url);
                        proof {
                            assert(self.gathered@ =~= gathered_from_cache(
                                orig,
                                feeds.subrange(0, i + 1),
                                now,
                            ));
                            assert(views_of(to_fetch@) =~= fetch_plan(
                                orig,
                                feeds.subrange(0, i + 1),
                                force,
                                now,
                            ));
                        }
                    },
                }
            }
            i += 1;
        }
        proof {
            assert(feeds.subrange(0, feeds.len() as int) =~= feeds);
        }
        to_fetch
    }

    /// Applies one source's fetch outcome. A response outside the 2xx range
    /// records Broken health naming the status; a transport error records
    /// Broken with its message; a 2xx body is decoded (RSS, then Atom) — when
    /// either format parses, exactly its normalized items overwrite the
    /// source's cache entry and join the aggregate and the health records the
    /// success, and a body in neither format records Broken. No outcome
    /// touches any other source, and none aborts the cycle.
    pub fn apply_fetch_outcome(&mut self, url: &str, outcome: FetchOutcome, latency_ms: u64, now: u64)
        requires
            old(self).wf(),
        ensures
            final(self).wf(),
            (match outcome {
                FetchOutcome::TransportError(msg) => cache_untouched(*old(self), *final(self))
                    && failure_applied(*old(self), *final(self), url@, msg@),
                FetchOutcome::Response(status, body) => if 200 <= status < 300 {
                    match decoded_feed_of(body@, url@) {
                        Some(decoded) => success_applied(
                            *old(self),
                            *final(self),
                            url@,
                            latency_ms,
                            now,
                            decoded,
                        ),
                        None => cache_untouched(*old(self), *final(self))
                            && some_failure_applied(*old(self), *final(self), url@),
                    }
                } else {
                    cache_untouched(*old(self), *final(self)) && failure_applied(
                        *old(self),
                        *final(self),
                        url@,
                        "HTTP "@ + dec_u64(status as nat),
                    )
                },
            }),
            final(self).rss_feeds@ == old(self).rss_feeds@,
            final(self).current_feed_content@ == old(self).current_feed_content@,
            final(self).read_items@ == old(self).read_items@,
            final(self).favorites@ == old(self).favorites@,
            final(self).seen@ == old(self).seen@,
            final(self).config == old(self).config,
    {
        match outcome {
            FetchOutcome::TransportError(msg) => {
                self.health.record_failure(url, msg);
            },
            FetchOutcome::Response(status, body) => {
                if 200 <= status && status < 300 {
                    match feed_parse::decode_feed(body.as_slice(), url) {
                        Ok(items) => {
                            let ghost item_values = items@;
                            let ghost decoded = decoded_feed_of(body@, url@)->0;
                            let mut for_aggregate = clone_items(&items);
                            self.cache.put(url, items, now);
                            self.gathered.append(&mut for_aggregate);
                            self.health.record_success(url, latency_ms, now);
                            proof {
                                assert(item_values.map_values(|it: FeedItem| it@) == decoded);
                                assert(success_applied(
                                    *old(self),
                                    *self,
                                    url@,
                                    latency_ms,
                                    now,
                                    decoded,
                                ));
                            }
                        },
                        Err(e) => {
                            self.health.record_failure(url, e);
                        },
                    }
                } else {
                    let mut msg_chars = strutil::chars_of("HTTP ");
                    crate::item::push_dec_u64(&mut msg_chars, status as u64);
                    let msg = strutil::string_of_chars(&msg_chars);
                    proof {
                        assert(msg@ == "HTTP "@ + dec_u64(status as nat));
                    }
                    self.health.record_failure(url, msg);
                }
            },
        }
    }

    /// Closes a refresh cycle: sorts the aggregate newest first (undated
    /// items last), replaces the current list with it, and diffs it against
    /// the seen set. When notifications are enabled and anything is newly
    /// seen, exactly one notification comes back, carrying the first (at
    /// most three) new titles and the full count; the aggregate's identities
    /// then join the seen set.
    #[verifier::loop_isolation(false)]
    #[verifier::rlimit(60)]
    pub fn finish_refresh(&mut self) -> (r: Option<Notification>)
        requires
            old(self).wf(),
        ensures
            final(self).wf(),
            final(self).gathered@.len() == 0,
            sorted_by_published_desc(final(self).current_feed_content@),
            final(self).current_feed_content@.to_multiset() == old(self).gathered@.to_multiset(),
            ({
                let fresh = new_items_of(final(self).current_feed_content@, old(self).seen@);
                match r {
                    Some(n) => old(self).config.notifications_enabled && fresh.len() > 0
                        && n.total_new == fresh.len() && n.titles@.len() == (if fresh.len() < 3 {
                        fresh.len() as int
                    } else {
                        3
                    }) && (forall|j: int|
                        0 <= j < n.titles@.len() ==> (#[trigger] n.titles@[j])@
                            == fresh[j]@.title),
                    None => !old(self).config.notifications_enabled || new_items_of(
                        final(self).current_feed_content@,
                        old(self).seen@,
                    ).len() == 0,
                }
            }),
            forall|y: Seq<char>|
                contains_id(final(self).seen@, y) <==> (contains_id(old(self).seen@, y)
                    || exists|i: int|
                    0 <= i < final(self).current_feed_content@.len()
                        && (#[trigger] final(self).current_feed_content@[i]).id@ == y),
            final(self).rss_feeds@ == old(self).rss_feeds@,
            final(self).read_items@ == old(self).read_items@,
            final(self).favorites@ == old(self).favorites@,
            final(self).cache == old(self).cache,
            final(self).health == old(self).health,
            final(self).config == old(self).config,
    {
        let mut pending: Vec<FeedItem> = Vec::new();
        core::mem::swap(&mut pending, &mut self.gathered);
        let sorted = sorting::sort_items_by_published_desc(pending);
        self.current_feed_content = sorted;
        let ghost cur = self.current_feed_content@;
        let ghost seen0 = self.seen@;
        let mut titles: Vec<String> = Vec::new();
        let mut total_new: usize = 0;
        let mut i: usize = 0;
        while i < self.current_feed_content.len()
            invariant
                i <= cur.len(),
                self.current_feed_content@ == cur,
                self.seen@ == seen0,
                self.gathered@.len() == 0,
                total_new == new_items_of(cur.subrange(0, i as int), seen0).len(),
                total_new <= i,
                titles@.len() == (if total_new < 3 {
                    total_new as int
                } else {
                    3
                }),
                forall|j: int|
                    0 <= j < titles@.len() ==> (#[trigger] titles@[j])@ == new_items_of(
                        cur.subrange(0, i as int),
                        seen0,
                    )[j]@.title,
                self.rss_feeds@ == old(self).rss_feeds@,
                self.read_items@ == old(self).read_items@,
                self.favorites@ == old(self).favorites@,
                self.cache == old(self).cache,
                self.health == old(self).health,
                self.config == old(self).config,
            decreases cur.len() - i,
        {
            let ghost pre = new_items_of(cur.subrange(0, i as int), seen0);
            proof {
                reveal(Seq::filter);
                assert(cur.subrange(0, i + 1).drop_last() =~= cur.subrange(0, i as int));
                assert(cur.subrange(0, i + 1).last() == cur[i as int]);
            }
            let is_new = !idset::id_contains(&self.seen, self.current_feed_content[i].id.as_str());
            proof {
                assert(is_new == !contains_id(seen0, cur[i as int]@.id));
            }
            if is_new {
                total_new += 1;
                if titles.len() < 3 {
                    titles.push(self.current_feed_content[i].title.clone());
                }
                proof {
                    assert(new_items_of(cur.subrange(0, i + 1), seen0) == pre.push(cur[i as int]));
                }
            } else {
                proof {
                    assert(new_items_of(cur.subrange(0, i + 1), seen0) == pre);
                }
            }
            i += 1;
        }
        proof {
            assert(cur.subrange(0, cur.len() as int) =~= cur);
        }
        let mut k: usize = 0;
        while k < self.current_feed_content.len()
            invariant
                k <= cur.len(),
                self.current_feed_content@ == cur,
                ids_unique(self.seen@),
                self.gathered@.len() == 0,
                forall|y: Seq<char>|
                    contains_id(self.seen@, y) ==> (contains_id(seen0, y) || exists|j: int|
                        0 <= j < k && (#[trigger] cur[j]).id@ == y),
                forall|y: Seq<char>| contains_id(seen0, y) ==> contains_id(self.seen@, y),
                forall|j: int| 0 <= j < k ==> contains_id(self.seen@, (#[trigger] cur[j]).id@),
                self.rss_feeds@ == old(self).rss_feeds@,
                self.read_items@ == old(self).read_items@,
                self.favorites@ == old(self).favorites@,
                self.cache == old(self).cache,
                self.health == old(self).health,
                self.config == old(self).config,
            decreases cur.len() - k,
        {
            let id = self.current_feed_content[k].id.clone();
            let ghost seen_k = self.seen@;
            idset::id_insert(&mut self.seen, id.as_str());
            proof {
                assert forall|y: Seq<char>| contains_id(self.seen@, y) implies (contains_id(
                    seen0,
                    y,
                ) || exists|j: int| 0 <= j < k + 1 && (#[trigger] cur[j]).id@ == y) by {
                    if contains_id(seen_k, y) {
                        if !contains_id(seen0, y) {
                            let j = choose|j: int| 0 <= j < k && (#[trigger] cur[j]).id@ == y;
                            assert(0 <= j < k + 1 && (#[trigger] cur[j]).id@ == y);
                        }
                    } else {
                        assert(y == id@);
                        assert((#[trigger] cur[k as int]).id@ == y);
                    }
                }
                assert forall|j: int| 0 <= j < k + 1 implies contains_id(
                    self.seen@,
                    (#[trigger] cur[j]).id@,
                ) by {
                    if j < k {
                        assert(contains_id(seen_k, cur[j].id@));
                    } else {
                        assert(cur[j].id@ == id@);
                    }
                }
            }
            k += 1;
        }
        proof {
            assert forall|y: Seq<char>|
                contains_id(self.seen@, y) <==> (contains_id(old(self).seen@, y) || exists|
                    i2: int,
                |
                    0 <= i2 < self.current_feed_content@.len()
                        && (#[trigger] self.current_feed_content@[i2]).id@ == y) by {
                if !contains_id(self.seen@, y) {
                    if exists|i2: int|
                        0 <= i2 < self.current_feed_content@.len()
                            && (#[trigger] self.current_feed_content@[i2]).id@ == y {
                        let i2 = choose|i2: int|
                            0 <= i2 < self.current_feed_content@.len() && (
                            #[trigger] self.current_feed_content@[i2]).id@ == y;
                        assert(contains_id(self.seen@, cur[i2].id@));
                    }
                }
                if contains_id(self.seen@, y) {
                    if !contains_id(old(self).seen@, y) {
                        let j = choose|j: int| 0 <= j < cur.len() && (#[trigger] cur[j]).id@ == y;
                        assert(0 <= j < self.current_feed_content@.len()
                            && (#[trigger] self.current_feed_content@[j]).id@ == y);
                    }
                }
            }
        }
        if self.config.notifications_enabled && total_new > 0 {
            Some(Notification { titles, total_new })
        } else {
            None
        }
    }

    /// The favorite items of the current list, in order.
    pub fn get_favorites(&self) -> (r: Vec<FeedItem>)
        ensures
            r@ == self.current_feed_content@.filter(
                |it: FeedItem| contains_id(self.favorites@, it@.id),
            ),
    {
        let ghost cur = self.current_feed_content@;
        let mut out: Vec<FeedItem> = Vec::new();
        let mut i: usize = 0;
        proof {
            reveal(Seq::filter);
        }
        while i < self.current_feed_content.len()
            invariant
                i <= cur.len(),
                self.current_feed_content@ == cur,
                out@ == cur.subrange(0, i as int).filter(
                    |it: FeedItem| contains_id(self.favorites@, it@.id),
                ),
            decreases cur.len() - i,
        {
            let ghost spred = |it: FeedItem| contains_id(self.favorites@, it@.id);
            proof {
                reveal(Seq::filter);
                assert(cur.subrange(0, i + 1).drop_last() =~= cur.subrange(0, i as int));
                assert(cur.subrange(0, i + 1).last() == cur[i as int]);
            }
            if idset::id_contains(&self.favorites, self.current_feed_content[i].id.as_str()) {
                out.push(self.current_feed_content[i].clone());
            }
            i += 1;
        }
        proof {
            assert(cur.subrange(0, cur.len() as int) =~= cur);
        }
        out
    }
}

/// Clones a subscription list, keeping its contents.
fn clone_sources(v: &Vec<FeedSource>) -> (r: Vec<FeedSource>)
    ensures
        r@ == v@,
{
    let mut r: Vec<FeedSource> = Vec::new();
    let mut i: usize = 0;
    while i < v.len()
        invariant
            i <= v.len(),
            r@ == v@.subrange(0, i as int),
        decreases v.len() - i,
    {
        r.push(v[i].clone());
        assert(r@ =~= v@.subrange(0, i + 1));
        i += 1;
    }
    assert(v@.subrange(0, v.len() as int) =~= v@);
    r
}

/// Clones an identity list, keeping its contents.
fn clone_strings(v: &Vec<String>) -> (r: Vec<String>)
    ensures
        r@ == v@,
{
    let mut r: Vec<String> = Vec::new();
    let mut i: usize = 0;
    while i < v.len()
        invariant
            i <= v.len(),
            r@ == v@.subrange(0, i as int),
        decreases v.len() - i,
    {
        r.push(v[i].clone());
        assert(r@ =~= v@.subrange(0, i + 1));
        i += 1;
    }
    assert(v@.subrange(0, v.len() as int) =~= v@);
    r
}

} // verus!
