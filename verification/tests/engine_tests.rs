use base64::Engine as _;
use reedy::cache::{CacheEntry, CacheStore, FsOp};
use reedy::config::Config;
use reedy::engine::{FetchOutcome, RssManager};
use reedy::health::{HealthStatus, HealthTracker};
use reedy::item::FeedItem;
use reedy::sorting::sort_items_by_published_desc;

fn item(title: &str, published: Option<u64>) -> FeedItem {
    FeedItem {
        title: title.to_string(),
        description: String::new(),
        link: String::new(),
        published,
        id: reedy::create_item_id(title, "https://src.example/feed", published),
    }
}

fn rss_body(titles: &[&str]) -> Vec<u8> {
    let mut xml = String::from(
        "<?xml version=\"1.0\"?><rss version=\"2.0\"><channel><title>F</title>\
         <link>https://f</link><description>d</description>",
    );
    for t in titles {
        xml.push_str("<item><title>");
        xml.push_str(t);
        xml.push_str(
            "</title><description>text</description><link>https://l</link>\
             <pubDate>Mon, 01 Jan 2024 00:00:00 GMT</pubDate></item>",
        );
    }
    xml.push_str("</channel></rss>");
    xml.into_bytes()
}

fn engine_with_feeds(urls: &[&str]) -> RssManager {
    let mut m = RssManager::new(Config::default());
    for u in urls {
        let added = m.add_feed(reedy::state::FeedSource {
            url: u.to_string(),
            title: u.to_string(),
            category: None,
        });
        assert!(added);
    }
    m
}

// Identity determinism: repeated calls agree; changing the URL or the
// publish time while holding the title fixed changes the identity.
#[test]
fn identity_is_stable_and_sensitive() {
    let a = reedy::create_item_id("Title", "https://a.example", Some(123));
    let b = reedy::create_item_id("Title", "https://a.example", Some(123));
    assert_eq!(a, b);
    let other_url = reedy::create_item_id("Title", "https://b.example", Some(123));
    assert_ne!(a, other_url);
    let other_time = reedy::create_item_id("Title", "https://a.example", Some(124));
    assert_ne!(a, other_time);
    let no_time = reedy::create_item_id("Title", "https://a.example", None);
    assert_ne!(a, no_time);
}

// The identity's exact shape: ten decimal digits per URL character, an
// underscore, then the lowercased title with non-alphanumerics replaced.
#[test]
fn identity_exact_value() {
    let id = reedy::create_item_id("AbC!", "ab", None);
    assert_eq!(id, "00000000970000000098_abc_");
    let with_time = reedy::create_item_id("AbC!", "ab", Some(7));
    assert_eq!(with_time, "00000000970000000098_abc__00000000000000000007");
}

// Cache TTL boundary: one second under the TTL is a hit, one second past it
// is a miss.
#[test]
fn cache_ttl_boundary() {
    let mut store = CacheStore::new(3600);
    store.seed_entry(CacheEntry {
        url: "https://s.example/feed".to_string(),
        content: vec![item("A", Some(5))],
        last_updated: 1000,
    });
    let hit = store.get("https://s.example/feed", 1000 + 3600 - 1);
    assert!(hit.is_some());
    assert_eq!(hit.unwrap().len(), 1);
    let miss = store.get("https://s.example/feed", 1000 + 3600 + 1);
    assert!(miss.is_none());
}

// An entry exactly at the TTL is already stale.
#[test]
fn cache_ttl_exact_edge() {
    let mut store = CacheStore::new(3600);
    store.seed_entry(CacheEntry {
        url: "https://s.example/feed".to_string(),
        content: vec![item("A", Some(5))],
        last_updated: 1000,
    });
    assert!(store.get("https://s.example/feed", 1000 + 3600).is_none());
    // a zero TTL makes every entry stale at once
    let mut zero = CacheStore::new(0);
    zero.seed_entry(CacheEntry {
        url: "https://s.example/feed".to_string(),
        content: vec![item("A", Some(5))],
        last_updated: 1000,
    });
    assert!(zero.get("https://s.example/feed", 1000).is_none());
}

// Corrupt cache self-heals: a slot seeded from an undecodable file reads as
// absent, the slot is gone afterwards, and its file's deletion is queued.
#[test]
fn corrupt_cache_self_heals() {
    let url = "https://s.example/feed";
    let token = base64::engine::general_purpose::STANDARD.encode(url);
    let mut store = CacheStore::new(3600);
    store.seed_corrupt(token.clone());
    let got = store.get(url, 1000);
    assert!(got.is_none());
    assert!(store.slots.iter().all(|(t, _)| t != &token));
    let ops = store.take_fs_ops();
    assert_eq!(ops.len(), 1);
    match &ops[0] {
        FsOp::DeleteCache(t) => assert_eq!(t, &token),
        other => panic!("unexpected op: {:?}", other),
    }
    // a later read finds nothing and queues nothing further
    assert!(store.get(url, 1000).is_none());
    assert!(store.take_fs_ops().is_empty());
}

// Health latency threshold: 4999 ms on success records Healthy, 5001 ms
// records Slow; success resets the failure counter.
#[test]
fn health_latency_threshold() {
    let mut tracker = HealthTracker::new();
    tracker.record_success("https://a.example", 4999, 100);
    assert_eq!(tracker.health("https://a.example").status, HealthStatus::Healthy);
    tracker.record_success("https://a.example", 5001, 200);
    assert_eq!(tracker.health("https://a.example").status, HealthStatus::Slow);
    assert_eq!(tracker.health("https://a.example").consecutive_failures, 0);
    assert_eq!(tracker.health("https://a.example").last_latency_ms, Some(5001));
}

// Failures turn a source Broken and count up; a success resets the counter.
#[test]
fn health_failure_counting() {
    let mut tracker = HealthTracker::new();
    assert_eq!(tracker.health("https://a.example").status, HealthStatus::Unknown);
    tracker.record_failure("https://a.example", "boom".to_string());
    assert_eq!(tracker.health("https://a.example").status, HealthStatus::Broken);
    assert_eq!(tracker.health("https://a.example").consecutive_failures, 1);
    assert_eq!(tracker.health("https://a.example").last_error, Some("boom".to_string()));
    tracker.record_failure("https://a.example", "boom again".to_string());
    assert_eq!(tracker.health("https://a.example").consecutive_failures, 2);
    tracker.record_success("https://a.example", 10, 300);
    assert_eq!(tracker.health("https://a.example").consecutive_failures, 0);
    assert_eq!(tracker.health("https://a.example").last_error, None);
}

// Sort order scenario: timestamps [2024-01-01, absent, 2024-06-01] sort to
// [2024-06-01, 2024-01-01, absent].
#[test]
fn sort_order_scenario() {
    let jan = 1704067200000000000u64;
    let jun = 1717200000000000000u64;
    let items = vec![item("jan", Some(jan)), item("none", None), item("jun", Some(jun))];
    let sorted = sort_items_by_published_desc(items);
    assert_eq!(sorted.len(), 3);
    assert_eq!(sorted[0].published, Some(jun));
    assert_eq!(sorted[1].published, Some(jan));
    assert_eq!(sorted[2].published, None);
}

// Per-source isolation: with three sources where the second answers HTTP
// 500, a full cycle still aggregates items from the first and third, and
// only the second is Broken.
#[test]
fn per_source_isolation() {
    let u1 = "https://one.example/feed";
    let u2 = "https://two.example/feed";
    let u3 = "https://three.example/feed";
    let mut m = engine_with_feeds(&[u1, u2, u3]);
    let plan = m.begin_refresh(true, 10_000);
    assert_eq!(plan, vec![u1.to_string(), u2.to_string(), u3.to_string()]);
    m.apply_fetch_outcome(u1, FetchOutcome::Response(200, rss_body(&["One"])), 10, 10_000);
    m.apply_fetch_outcome(u2, FetchOutcome::Response(500, Vec::new()), 10, 10_000);
    m.apply_fetch_outcome(u3, FetchOutcome::Response(200, rss_body(&["Three"])), 10, 10_000);
    let _ = m.finish_refresh();
    let titles: Vec<&str> = m.current_feed_content.iter().map(|i| i.title.as_str()).collect();
    assert_eq!(titles.len(), 2);
    assert!(titles.iter().any(|t| t.starts_with("One | ")));
    assert!(titles.iter().any(|t| t.starts_with("Three | ")));
    assert_eq!(m.health(u1).status, HealthStatus::Healthy);
    assert_eq!(m.health(u2).status, HealthStatus::Broken);
    assert_eq!(m.health(u2).last_error, Some("HTTP 500".to_string()));
    assert_eq!(m.health(u3).status, HealthStatus::Healthy);
}

// A transport error and an unparsable body record Broken with a message.
#[test]
fn failures_record_broken() {
    let u = "https://a.example/feed";
    let mut m = engine_with_feeds(&[u]);
    m.begin_refresh(true, 1_000);
    m.apply_fetch_outcome(
        u,
        FetchOutcome::TransportError("connection refused".to_string()),
        0,
        1_000,
    );
    assert_eq!(m.health(u).status, HealthStatus::Broken);
    assert_eq!(m.health(u).last_error, Some("connection refused".to_string()));
    m.begin_refresh(true, 2_000);
    m.apply_fetch_outcome(u, FetchOutcome::Response(200, b"not xml at all".to_vec()), 0, 2_000);
    assert_eq!(m.health(u).status, HealthStatus::Broken);
    assert_eq!(m.health(u).consecutive_failures, 2);
    assert!(m.health(u).last_error.is_some());
}

// Notification diff scenario: with {A, B} already seen, a refresh whose
// aggregate is {A, B, C} raises exactly one notification naming only C.
#[test]
fn notification_diff_scenario() {
    let u = "https://n.example/feed";
    let mut config = Config::default();
    config.notifications_enabled = true;
    let mut m = RssManager::new(config);
    m.add_feed(reedy::state::FeedSource {
        url: u.to_string(),
        title: u.to_string(),
        category: None,
    });
    m.begin_refresh(true, 1_000);
    m.apply_fetch_outcome(u, FetchOutcome::Response(200, rss_body(&["A", "B"])), 5, 1_000);
    let first = m.finish_refresh();
    assert!(first.is_some());
    assert_eq!(first.unwrap().total_new, 2);

    m.begin_refresh(true, 2_000);
    m.apply_fetch_outcome(u, FetchOutcome::Response(200, rss_body(&["A", "B", "C"])), 5, 2_000);
    let second = m.finish_refresh();
    let n = second.expect("one notification for the newly seen item");
    assert_eq!(n.total_new, 1);
    assert_eq!(n.titles.len(), 1);
    assert!(n.titles[0].starts_with("C | "));

    // nothing new: no notification at all
    m.begin_refresh(true, 3_000);
    m.apply_fetch_outcome(u, FetchOutcome::Response(200, rss_body(&["A", "B", "C"])), 5, 3_000);
    assert!(m.finish_refresh().is_none());
}

// More than three new titles come back as three plus the count.
#[test]
fn notification_caps_titles_at_three() {
    let u = "https://n.example/feed";
    let mut config = Config::default();
    config.notifications_enabled = true;
    let mut m = RssManager::new(config);
    m.add_feed(reedy::state::FeedSource {
        url: u.to_string(),
        title: u.to_string(),
        category: None,
    });
    m.begin_refresh(true, 1_000);
    m.apply_fetch_outcome(
        u,
        FetchOutcome::Response(200, rss_body(&["A", "B", "C", "D", "E"])),
        5,
        1_000,
    );
    let n = m.finish_refresh().expect("notification");
    assert_eq!(n.total_new, 5);
    assert_eq!(n.titles.len(), 3);
}

// With notifications disabled, nothing is ever raised.
#[test]
fn notifications_disabled_by_default() {
    let u = "https://n.example/feed";
    let mut m = engine_with_feeds(&[u]);
    m.begin_refresh(true, 1_000);
    m.apply_fetch_outcome(u, FetchOutcome::Response(200, rss_body(&["A"])), 5, 1_000);
    assert!(m.finish_refresh().is_none());
}

// A successful cycle fills the cache; the next cycle without force is served
// from it and fetches nothing.
#[test]
fn refresh_uses_cache_within_ttl() {
    let u = "https://c.example/feed";
    let mut m = engine_with_feeds(&[u]);
    let plan = m.begin_refresh(false, 1_000);
    assert_eq!(plan, vec![u.to_string()]);
    m.apply_fetch_outcome(u, FetchOutcome::Response(200, rss_body(&["A"])), 5, 1_000);
    let _ = m.finish_refresh();
    let ops = m.take_fs_ops();
    assert!(ops.iter().any(|op| matches!(op, FsOp::WriteCache(_, _))));

    // within the TTL the source is not fetched again
    let plan2 = m.begin_refresh(false, 1_000 + 60);
    assert!(plan2.is_empty());
    let _ = m.finish_refresh();
    assert_eq!(m.current_feed_content.len(), 1);

    // past the TTL it is
    let plan3 = m.begin_refresh(false, 1_000 + 3600 + 1);
    assert_eq!(plan3, vec![u.to_string()]);
}

// Decoding succeeds exactly on a body in one of the two formats.
#[test]
fn decode_feed_accepts_rss_rejects_garbage() {
    let items = reedy::feed_parse::decode_feed(&rss_body(&["X"]), "https://u.example")
        .expect("valid RSS decodes");
    assert_eq!(items.len(), 1);
    assert!(items[0].title.starts_with("X | "));
    let err = reedy::feed_parse::decode_feed(b"definitely not xml", "https://u.example");
    assert!(err.is_err());
}

// Atom is tried when RSS parsing fails.
#[test]
fn atom_fallback() {
    let u = "https://atom.example/feed";
    let body = "<?xml version=\"1.0\"?>\
        <feed xmlns=\"http://www.w3.org/2005/Atom\">\
        <title>F</title><id>f</id><updated>2024-01-01T00:00:00Z</updated>\
        <entry><title>AtomEntry</title><id>e1</id>\
        <updated>2024-01-01T00:00:00Z</updated>\
        <link href=\"https://l.example/a\"/>\
        <summary>sum</summary></entry></feed>"
        .as_bytes()
        .to_vec();
    let mut m = engine_with_feeds(&[u]);
    m.begin_refresh(true, 1_000);
    m.apply_fetch_outcome(u, FetchOutcome::Response(200, body), 5, 1_000);
    let _ = m.finish_refresh();
    assert_eq!(m.current_feed_content.len(), 1);
    let it = &m.current_feed_content[0];
    assert!(it.title.starts_with("AtomEntry | "));
    assert_eq!(it.link, "https://l.example/a");
    // the update time stands in for the missing publish time
    assert_eq!(it.published, Some(1704067200000000000));
}

// The RFC 2822 publish date of an RSS item becomes nanoseconds since the
// epoch, and HTML descriptions are reduced to plain text.
#[test]
fn rss_conversion_details() {
    let u = "https://c.example/feed";
    let body = "<?xml version=\"1.0\"?><rss version=\"2.0\"><channel>\
        <title>F</title><link>https://f</link><description>d</description>\
        <item><title>A</title>\
        <description>&lt;p&gt;hello world&lt;/p&gt;</description>\
        <link>https://l</link>\
        <pubDate>Mon, 01 Jan 2024 00:00:00 GMT</pubDate></item>\
        </channel></rss>"
        .as_bytes()
        .to_vec();
    let mut m = engine_with_feeds(&[u]);
    m.begin_refresh(true, 1_000);
    m.apply_fetch_outcome(u, FetchOutcome::Response(200, body), 5, 1_000);
    let _ = m.finish_refresh();
    assert_eq!(m.current_feed_content.len(), 1);
    let it = &m.current_feed_content[0];
    assert_eq!(it.published, Some(1704067200000000000));
    assert!(it.description.contains("hello world"));
    assert!(!it.description.contains("<p>"));
    assert_eq!(it.title, format!("A | {}", u));
}

// Seeding the seen set from the cache suppresses the startup burst.
#[test]
fn seen_seeding_suppresses_startup_burst() {
    let u = "https://s.example/feed";
    let mut config = Config::default();
    config.notifications_enabled = true;
    let mut m = RssManager::new(config);
    m.add_feed(reedy::state::FeedSource {
        url: u.to_string(),
        title: u.to_string(),
        category: None,
    });
    let cached = item("A", Some(77));
    m.seed_cache_entry(CacheEntry {
        url: u.to_string(),
        content: vec![cached],
        last_updated: 900,
    });
    m.seed_seen_from_cache();
    // the cached item flows into the aggregate but raises no notification
    let plan = m.begin_refresh(false, 1_000);
    assert!(plan.is_empty());
    assert!(m.finish_refresh().is_none());
    assert_eq!(m.current_feed_content.len(), 1);
}

// Read and favorite marks toggle by index into the current list.
#[test]
fn read_and_favorite_marks() {
    let u = "https://m.example/feed";
    let mut m = engine_with_feeds(&[u]);
    m.begin_refresh(true, 1_000);
    m.apply_fetch_outcome(u, FetchOutcome::Response(200, rss_body(&["A", "B"])), 5, 1_000);
    let _ = m.finish_refresh();
    assert_eq!(m.current_feed_content.len(), 2);

    let first = m.current_feed_content[0].clone();
    assert!(!m.is_item_read(&first));
    assert!(m.toggle_read_status(0));
    assert!(m.is_item_read(&first));
    assert!(m.toggle_read_status(0));
    assert!(!m.is_item_read(&first));
    assert!(!m.toggle_read_status(99));

    assert!(m.mark_as_read(0));
    assert!(!m.mark_as_read(0));
    m.mark_all_as_read();
    let second = m.current_feed_content[1].clone();
    assert!(m.is_item_read(&second));

    assert!(m.toggle_favorite(1));
    assert!(m.is_item_favorite(&second));
    let favs = m.get_favorites();
    assert_eq!(favs.len(), 1);
    assert!(favs[0].title.starts_with("B | ") || favs[0].title.starts_with("A | "));
}

// Duplicate subscriptions are refused; deletion clears the current list.
#[test]
fn add_and_delete_feed() {
    let u = "https://d.example/feed";
    let mut m = engine_with_feeds(&[u]);
    let again = m.add_feed(reedy::state::FeedSource {
        url: u.to_string(),
        title: "other title".to_string(),
        category: None,
    });
    assert!(!again);
    assert_eq!(m.rss_feeds.len(), 1);
    assert!(!m.delete_feed(5));
    assert!(m.delete_feed(0));
    assert_eq!(m.rss_feeds.len(), 0);
    assert_eq!(m.current_feed_content.len(), 0);
}
