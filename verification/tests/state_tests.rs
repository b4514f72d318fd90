use reedy::config::{config_from_tree, Config};
use reedy::json::JsonValue;
use reedy::state::{load_state, state_to_tree, FeedSource, PersistedState};

fn obj(fields: Vec<(&str, JsonValue)>) -> JsonValue {
    JsonValue::Obj(fields.into_iter().map(|(k, v)| (k.to_string(), v)).collect())
}

fn str_arr(xs: &[&str]) -> JsonValue {
    JsonValue::Arr(xs.iter().map(|x| JsonValue::Str(x.to_string())).collect())
}

// Schema migration: the oldest shape (bare URL strings, no favorites key)
// loads with every URL present, titles defaulting to the URLs, and an empty
// favorites set.
#[test]
fn oldest_schema_loads() {
    let doc = obj(vec![
        ("feeds", str_arr(&["https://a.example/feed", "https://b.example/feed"])),
        ("read_items", str_arr(&["id1"])),
    ]);
    let state = load_state(&doc).expect("oldest schema is accepted");
    assert_eq!(state.feeds.len(), 2);
    assert_eq!(state.feeds[0].url, "https://a.example/feed");
    assert_eq!(state.feeds[0].title, "https://a.example/feed");
    assert_eq!(state.feeds[0].category, None);
    assert_eq!(state.feeds[1].url, "https://b.example/feed");
    assert_eq!(state.read_items, vec!["id1".to_string()]);
    assert!(state.favorites.is_empty());
}

// The middle shape (bare URL strings plus favorites) keeps its favorites.
#[test]
fn middle_schema_loads() {
    let doc = obj(vec![
        ("feeds", str_arr(&["https://a.example/feed"])),
        ("read_items", str_arr(&[])),
        ("favorites", str_arr(&["fav1", "fav2"])),
    ]);
    let state = load_state(&doc).expect("middle schema is accepted");
    assert_eq!(state.feeds.len(), 1);
    assert_eq!(state.favorites, vec!["fav1".to_string(), "fav2".to_string()]);
}

// The current shape: structured records, title defaulting to the URL and
// category to absent where missing.
#[test]
fn current_schema_loads() {
    let entry_full = obj(vec![
        ("url", JsonValue::Str("https://a.example/feed".to_string())),
        ("title", JsonValue::Str("A Feed".to_string())),
        ("category", JsonValue::Str("news".to_string())),
    ]);
    let entry_bare = obj(vec![("url", JsonValue::Str("https://b.example/feed".to_string()))]);
    let doc = obj(vec![
        ("feeds", JsonValue::Arr(vec![entry_full, entry_bare])),
        ("read_items", str_arr(&["r1"])),
        ("favorites", str_arr(&["f1"])),
    ]);
    let state = load_state(&doc).expect("current schema is accepted");
    assert_eq!(state.feeds[0].title, "A Feed");
    assert_eq!(state.feeds[0].category, Some("news".to_string()));
    assert_eq!(state.feeds[1].title, "https://b.example/feed");
    assert_eq!(state.feeds[1].category, None);
}

// A document matching no known schema is rejected, never adopted halfway.
#[test]
fn corrupted_documents_are_rejected() {
    assert!(load_state(&JsonValue::Str("garbage".to_string())).is_none());
    assert!(load_state(&JsonValue::Null).is_none());
    assert!(load_state(&obj(vec![("feeds", str_arr(&["u"]))])).is_none());
    let bad_feed_entry = obj(vec![
        ("feeds", JsonValue::Arr(vec![JsonValue::Int(3)])),
        ("read_items", str_arr(&[])),
    ]);
    assert!(load_state(&bad_feed_entry).is_none());
}

// Duplicate URLs and identities collapse to their first occurrence.
#[test]
fn loading_removes_duplicates() {
    let doc = obj(vec![
        ("feeds", str_arr(&["https://a.example", "https://a.example", "https://b.example"])),
        ("read_items", str_arr(&["x", "x", "y"])),
    ]);
    let state = load_state(&doc).expect("loads");
    assert_eq!(state.feeds.len(), 2);
    assert_eq!(state.read_items, vec!["x".to_string(), "y".to_string()]);
}

// Save and load round trip: what is written in the current schema reads
// back unchanged.
#[test]
fn save_load_round_trip() {
    let state = PersistedState {
        feeds: vec![
            FeedSource {
                url: "https://a.example/feed".to_string(),
                title: "A".to_string(),
                category: Some("tech".to_string()),
            },
            FeedSource {
                url: "https://b.example/feed".to_string(),
                title: "B".to_string(),
                category: None,
            },
        ],
        read_items: vec!["r1".to_string(), "r2".to_string()],
        favorites: vec!["f1".to_string()],
    };
    let tree = state_to_tree(&state);
    let back = load_state(&tree).expect("written state reads back");
    assert_eq!(back.feeds.len(), 2);
    assert_eq!(back.feeds[0].url, state.feeds[0].url);
    assert_eq!(back.feeds[0].title, state.feeds[0].title);
    assert_eq!(back.feeds[0].category, state.feeds[0].category);
    assert_eq!(back.feeds[1].category, None);
    assert_eq!(back.read_items, state.read_items);
    assert_eq!(back.favorites, state.favorites);
}

// Configuration: recognized options are read, everything else defaults.
#[test]
fn config_options_and_defaults() {
    let defaults = Config::default();
    assert_eq!(defaults.http_timeout_secs, 30);
    assert_eq!(defaults.cache_duration_mins, 60);
    assert!(!defaults.notifications_enabled);
    assert_eq!(defaults.ttl_secs(), 3600);

    let doc = obj(vec![
        ("http_timeout_secs", JsonValue::Int(5)),
        ("notifications_enabled", JsonValue::Bool(true)),
        ("unknown_option", JsonValue::Str("ignored".to_string())),
    ]);
    let c = config_from_tree(&doc);
    assert_eq!(c.http_timeout_secs, 5);
    assert_eq!(c.cache_duration_mins, 60);
    assert!(c.notifications_enabled);

    let not_an_object = config_from_tree(&JsonValue::Null);
    assert_eq!(not_an_object.http_timeout_secs, 30);
}
