//! Persisted subscriptions, read-item and favorite sets, and the schema
//! migration that reads them back.
//!
//! Three on-disk shapes are accepted, newest first: the current one
//! (structured subscription records plus read items and favorites), a middle
//! one (bare URL strings plus favorites) and the oldest one (bare URL strings,
//! no favorites). Missing fields are synthesized: the title defaults to the
//! URL, the category to absent, favorites to empty. A document matching no
//! shape is corrupted; the loader reports that and the caller starts from an
//! empty state.

use vstd::prelude::*;

use crate::json;
use crate::json::{obj_lookup, JsonValue};
use crate::strutil;

verus! {

broadcast use vstd::string::group_string_axioms;

/// One subscription.
#[derive(Debug)]
pub struct FeedSource {
    /// Source URL; the unique key of the subscription.
    pub url: String,
    /// Display title.
    pub title: String,
    /// Optional category label.
    pub category: Option<String>,
}

/// The mathematical shape of a subscription.
#[verifier::ext_equal]
pub ghost struct SourceView {
    pub url: Seq<char>,
    pub title: Seq<char>,
    pub category: Option<Seq<char>>,
}

impl View for FeedSource {
    type V = SourceView;

    open spec fn view(&self) -> SourceView {
        SourceView {
            url: self.url@,
            title: self.title@,
            category: match self.category {
                Some(c) => Some(c@),
                None => None,
            },
        }
    }
}

impl Clone for FeedSource {
    fn clone(&self) -> (r: Self)
        ensures
            r == *self,
    {
        FeedSource {
            url: self.url.clone(),
            title: self.title.clone(),
            category: match &self.category {
                Some(c) => Some(c.clone()),
                None => None,
            },
        }
    }
}

/// Everything that survives a restart: subscriptions, read identities and
/// favorite identities. The two identity lists hold no duplicates.
#[derive(Debug)]
pub struct PersistedState {
    pub feeds: Vec<FeedSource>,
    pub read_items: Vec<String>,
    pub favorites: Vec<String>,
}

/// The mathematical shape of the persisted state.
#[verifier::ext_equal]
pub ghost struct StateView {
    pub feeds: Seq<SourceView>,
    pub read_items: Seq<Seq<char>>,
    pub favorites: Seq<Seq<char>>,
}

impl View for PersistedState {
    type V = StateView;

    open spec fn view(&self) -> StateView {
        StateView {
            feeds: self.feeds@.map_values(|f: FeedSource| f@),
            read_items: self.read_items@.map_values(|s: String| s@),
            favorites: self.favorites@.map_values(|s: String| s@),
        }
    }
}

// ----- schema interpretation -----

pub open spec fn as_str_view(v: JsonValue) -> Option<Seq<char>> {
    match v {
        JsonValue::Str(s) => Some(s@),
        _ => None,
    }
}

/// A subscription read from a bare URL string (middle and oldest schemas).
pub open spec fn bare_source_of(v: JsonValue) -> Option<SourceView> {
    match v {
        JsonValue::Str(s) => Some(SourceView { url: s@, title: s@, category: None }),
        _ => None,
    }
}

/// A subscription read from a structured record (current schema): `url` is
/// required, `title` defaults to the URL, `category` to absent.
pub open spec fn source_of_entry(v: JsonValue) -> Option<SourceView> {
    match v {
        JsonValue::Obj(fields) => match obj_lookup(fields@, "url"@) {
            Some(JsonValue::Str(u)) => {
                let title = match obj_lookup(fields@, "title"@) {
                    Some(JsonValue::Str(t)) => Some(t@),
                    None => Some(u@),
                    Some(_) => None,
                };
                let category = match obj_lookup(fields@, "category"@) {
                    Some(JsonValue::Str(c)) => Some(Some(c@)),
                    Some(JsonValue::Null) => Some(None),
                    None => Some(None),
                    Some(_) => None,
                };
                match (title, category) {
                    (Some(t), Some(c)) => Some(SourceView { url: u@, title: t, category: c }),
                    _ => None,
                }
            },
            _ => None,
        },
        _ => None,
    }
}

pub open spec fn strings_of_array(items: Seq<JsonValue>) -> Option<Seq<Seq<char>>> {
    if forall|i: int| 0 <= i < items.len() ==> as_str_view(#[trigger] items[i]) is Some {
        Some(Seq::new(items.len(), |i: int| as_str_view(items[i])->0))
    } else {
        None
    }
}

pub open spec fn sources_of_array(items: Seq<JsonValue>) -> Option<Seq<SourceView>> {
    if forall|i: int| 0 <= i < items.len() ==> source_of_entry(#[trigger] items[i]) is Some {
        Some(Seq::new(items.len(), |i: int| source_of_entry(items[i])->0))
    } else {
        None
    }
}

pub open spec fn bare_sources_of_array(items: Seq<JsonValue>) -> Option<Seq<SourceView>> {
    if forall|i: int| 0 <= i < items.len() ==> bare_source_of(#[trigger] items[i]) is Some {
        Some(Seq::new(items.len(), |i: int| bare_source_of(items[i])->0))
    } else {
        None
    }
}

/// The current schema: structured records plus read items and favorites.
pub open spec fn parse_current(v: JsonValue) -> Option<StateView> {
    match v {
        JsonValue::Obj(fields) => match obj_lookup(fields@, "feeds"@) {
            Some(JsonValue::Arr(fv)) => match sources_of_array(fv@) {
                Some(srcs) => match obj_lookup(fields@, "read_items"@) {
                    Some(JsonValue::Arr(rv)) => match strings_of_array(rv@) {
                        Some(reads) => match obj_lookup(fields@, "favorites"@) {
                            Some(JsonValue::Arr(av)) => match strings_of_array(av@) {
                                Some(favs) => Some(
                                    StateView { feeds: srcs, read_items: reads, favorites: favs },
                                ),
                                None => None,
                            },
                            _ => None,
                        },
                        None => None,
                    },
                    _ => None,
                },
                None => None,
            },
            _ => None,
        },
        _ => None,
    }
}

/// The middle schema: bare URL strings plus read items and favorites.
pub open spec fn parse_middle(v: JsonValue) -> Option<StateView> {
    match v {
        JsonValue::Obj(fields) => match obj_lookup(fields@, "feeds"@) {
            Some(JsonValue::Arr(fv)) => match bare_sources_of_array(fv@) {
                Some(srcs) => match obj_lookup(fields@, "read_items"@) {
                    Some(JsonValue::Arr(rv)) => match strings_of_array(rv@) {
                        Some(reads) => match obj_lookup(fields@, "favorites"@) {
                            Some(JsonValue::Arr(av)) => match strings_of_array(av@) {
                                Some(favs) => Some(
                                    StateView { feeds: srcs, read_items: reads, favorites: favs },
                                ),
                                None => None,
                            },
                            _ => None,
                        },
                        None => None,
                    },
                    _ => None,
                },
                None => None,
            },
            _ => None,
        },
        _ => None,
    }
}

/// The oldest schema: bare URL strings and read items; favorites default to
/// empty.
pub open spec fn parse_oldest(v: JsonValue) -> Option<StateView> {
    match v {
        JsonValue::Obj(fields) => match obj_lookup(fields@, "feeds"@) {
            Some(JsonValue::Arr(fv)) => match bare_sources_of_array(fv@) {
                Some(srcs) => match obj_lookup(fields@, "read_items"@) {
                    Some(JsonValue::Arr(rv)) => match strings_of_array(rv@) {
                        Some(reads) => Some(
                            StateView {
                                feeds: srcs,
                                read_items: reads,
                                favorites: Seq::empty(),
                            },
                        ),
                        None => None,
                    },
                    _ => None,
                },
                None => None,
            },
            _ => None,
        },
        _ => None,
    }
}

/// Schema detection, newest first.
pub open spec fn migrate_spec(v: JsonValue) -> Option<StateView> {
    if parse_current(v) is Some {
        parse_current(v)
    } else if parse_middle(v) is Some {
        parse_middle(v)
    } else {
        parse_oldest(v)
    }
}

// ----- duplicate removal (the identity lists are sets) -----

/// Keeps the first occurrence of each element.
pub open spec fn dedup_keys(s: Seq<Seq<char>>) -> Seq<Seq<char>>
    decreases s.len(),
{
    if s.len() == 0 {
        Seq::empty()
    } else {
        let rest = dedup_keys(s.drop_last());
        if rest.contains(s.last()) {
            rest
        } else {
            rest.push(s.last())
        }
    }
}

pub open spec fn has_url(s: Seq<SourceView>, u: Seq<char>) -> bool {
    exists|i: int| 0 <= i < s.len() && s[i].url == u
}

/// Keeps the first subscription for each URL.
pub open spec fn dedup_sources(s: Seq<SourceView>) -> Seq<SourceView>
    decreases s.len(),
{
    if s.len() == 0 {
        Seq::empty()
    } else {
        let rest = dedup_sources(s.drop_last());
        if has_url(rest, s.last().url) {
            rest
        } else {
            rest.push(s.last())
        }
    }
}

/// Removes duplicate identities, keeping first occurrences.
pub fn dedup_strings(v: &Vec<String>) -> (r: Vec<String>)
    ensures
        r@.map_values(|s: String| s@) == dedup_keys(v@.map_values(|s: String| s@)),
{
    let ghost views = v@.map_values(|s: String| s@);
    let mut out: Vec<String> = Vec::new();
    let mut i: usize = 0;
    while i < v.len()
        invariant
            i <= v.len(),
            views == v@.map_values(|s: String| s@),
            out@.map_values(|s: String| s@) == dedup_keys(views.subrange(0, i as int)),
        decreases v.len() - i,
    {
        let ghost pre = views.subrange(0, i as int);
        let ghost cur = views.subrange(0, i + 1);
        proof {
            assert(cur.drop_last() =~= pre);
            assert(cur.last() == views[i as int]);
        }
        if !strutil::vec_contains_str(&out, v[i].as_str()) {
            out.push(v[i].clone());
            assert(out@.map_values(|s: String| s@) =~= dedup_keys(cur));
        } else {
            assert(out@.map_values(|s: String| s@) =~= dedup_keys(cur));
        }
        i += 1;
    }
    proof {
        assert(views.subrange(0, v@.len() as int) =~= views);
    }
    out
}

/// Whether one of the subscriptions carries this URL.
pub fn vec_has_url(v: &Vec<FeedSource>, url: &str) -> (r: bool)
    ensures
        r == has_url(v@.map_values(|f: FeedSource| f@), url@),
{
    let ghost views = v@.map_values(|f: FeedSource| f@);
    let mut i: usize = 0;
    while i < v.len()
        invariant
            i <= v.len(),
            views == v@.map_values(|f: FeedSource| f@),
            forall|j: int| 0 <= j < i ==> (#[trigger] views[j]).url != url@,
        decreases v.len() - i,
    {
        if strutil::str_eq(v[i].url.as_str(), url) {
            assert(views[i as int].url == url@);
            return true;
        }
        i += 1;
    }
    proof {
        if has_url(views, url@) {
            let j = choose|j: int| 0 <= j < views.len() && views[j].url == url@;
            assert(views[j].url != url@);
        }
    }
    false
}

/// Removes subscriptions whose URL already occurred, keeping first
/// occurrences.
pub fn dedup_feeds(v: &Vec<FeedSource>) -> (r: Vec<FeedSource>)
    ensures
        r@.map_values(|f: FeedSource| f@) == dedup_sources(v@.map_values(|f: FeedSource| f@)),
{
    let ghost views = v@.map_values(|f: FeedSource| f@);
    let mut out: Vec<FeedSource> = Vec::new();
    let mut i: usize = 0;
    while i < v.len()
        invariant
            i <= v.len(),
            views == v@.map_values(|f: FeedSource| f@),
            out@.map_values(|f: FeedSource| f@) == dedup_sources(views.subrange(0, i as int)),
        decreases v.len() - i,
    {
        let ghost pre = views.subrange(0, i as int);
        let ghost cur = views.subrange(0, i + 1);
        proof {
            assert(cur.drop_last() =~= pre);
            assert(cur.last() == views[i as int]);
        }
        if !vec_has_url(&out, v[i].url.as_str()) {
            out.push(v[i].clone());
            assert(out@.map_values(|f: FeedSource| f@) =~= dedup_sources(cur));
        } else {
            assert(out@.map_values(|f: FeedSource| f@) =~= dedup_sources(cur));
        }
        i += 1;
    }
    proof {
        assert(views.subrange(0, v@.len() as int) =~= views);
    }
    out
}

// ----- executable schema parsing -----

fn parse_string_array(items: &Vec<JsonValue>) -> (r: Option<Vec<String>>)
    ensures
        match r {
            Some(out) => strings_of_array(items@) == Some(out@.map_values(|s: String| s@)),
            None => strings_of_array(items@) is None,
        },
{
    let mut out: Vec<String> = Vec::new();
    let mut i: usize = 0;
    while i < items.len()
        invariant
            i <= items.len(),
            out@.len() == i,
            forall|j: int|
                0 <= j < i ==> as_str_view(#[trigger] items@[j]) is Some && out@.map_values(
                    |s: String| s@,
                )[j] == as_str_view(items@[j])->0,
        decreases items.len() - i,
    {
        match &items[i] {
            JsonValue::Str(s) => {
                out.push(s.clone());
            },
            _ => {
                assert(as_str_view(items@[i as int]) is None);
                return None;
            },
        }
        i += 1;
    }
    proof {
        assert(strings_of_array(items@) is Some);
        assert(out@.map_values(|s: String| s@) =~= strings_of_array(items@)->0);
    }
    Some(out)
}

fn parse_source_entry(v: &JsonValue) -> (r: Option<FeedSource>)
    ensures
        match r {
            Some(f) => source_of_entry(*v) == Some(f@),
            None => source_of_entry(*v) is None,
        },
{
    match v {
        JsonValue::Obj(fields) => match json::obj_get(fields, "url") {
            Some(JsonValue::Str(u)) => {
                let title: String = match json::obj_get(fields, "title") {
                    Some(JsonValue::Str(t)) => t.clone(),
                    None => u.clone(),
                    Some(_) => {
                        return None;
                    },
                };
                let category: Option<String> = match json::obj_get(fields, "category") {
                    Some(JsonValue::Str(c)) => Some(c.clone()),
                    Some(JsonValue::Null) => None,
                    None => None,
                    Some(_) => {
                        return None;
                    },
                };
                Some(FeedSource { url: u.clone(), title, category })
            },
            _ => None,
        },
        _ => None,
    }
}

fn parse_source_array(items: &Vec<JsonValue>) -> (r: Option<Vec<FeedSource>>)
    ensures
        match r {
            Some(out) => sources_of_array(items@) == Some(out@.map_values(|f: FeedSource| f@)),
            None => sources_of_array(items@) is None,
        },
{
    let mut out: Vec<FeedSource> = Vec::new();
    let mut i: usize = 0;
    while i < items.len()
        invariant
            i <= items.len(),
            out@.len() == i,
            forall|j: int|
                0 <= j < i ==> source_of_entry(#[trigger] items@[j]) is Some && out@.map_values(
                    |f: FeedSource| f@,
                )[j] == source_of_entry(items@[j])->0,
        decreases items.len() - i,
    {
        match parse_source_entry(&items[i]) {
            Some(f) => {
                out.push(f);
            },
            None => {
                return None;
            },
        }
        i += 1;
    }
    proof {
        assert(sources_of_array(items@) is Some);
        assert(out@.map_values(|f: FeedSource| f@) =~= sources_of_array(items@)->0);
    }
    Some(out)
}

fn parse_bare_source_array(items: &Vec<JsonValue>) -> (r: Option<Vec<FeedSource>>)
    ensures
        match r {
            Some(out) => bare_sources_of_array(items@) == Some(
                out@.map_values(|f: FeedSource| f@),
            ),
            None => bare_sources_of_array(items@) is None,
        },
{
    let mut out: Vec<FeedSource> = Vec::new();
    let mut i: usize = 0;
    while i < items.len()
        invariant
            i <= items.len(),
            out@.len() == i,
            forall|j: int|
                0 <= j < i ==> bare_source_of(#[trigger] items@[j]) is Some && out@.map_values(
                    |f: FeedSource| f@,
                )[j] == bare_source_of(items@[j])->0,
        decreases items.len() - i,
    {
        match &items[i] {
            JsonValue::Str(s) => {
                out.push(FeedSource { url: s.clone(), title: s.clone(), category: None });
            },
            _ => {
                assert(bare_source_of(items@[i as int]) is None);
                return None;
            },
        }
        i += 1;
    }
    proof {
        assert(bare_sources_of_array(items@) is Some);
        assert(out@.map_values(|f: FeedSource| f@) =~= bare_sources_of_array(items@)->0);
    }
    Some(out)
}

fn try_parse_current(v: &JsonValue) -> (r: Option<PersistedState>)
    ensures
        match r {
            Some(s) => parse_current(*v) == Some(s@),
            None => parse_current(*v) is None,
        },
{
    match v {
        JsonValue::Obj(fields) => match json::obj_get(fields, "feeds") {
            Some(JsonValue::Arr(fv)) => match parse_source_array(fv) {
                Some(feeds) => match json::obj_get(fields, "read_items") {
                    Some(JsonValue::Arr(rv)) => match parse_string_array(rv) {
                        Some(reads) => match json::obj_get(fields, "favorites") {
                            Some(JsonValue::Arr(av)) => match parse_string_array(av) {
                                Some(favs) => Some(
                                    PersistedState {
                                        feeds,
                                        read_items: reads,
                                        favorites: favs,
                                    },
                                ),
                                None => None,
                            },
                            _ => None,
                        },
                        None => None,
                    },
                    _ => None,
                },
                None => None,
            },
            _ => None,
        },
        _ => None,
    }
}

fn try_parse_middle(v: &JsonValue) -> (r: Option<PersistedState>)
    ensures
        match r {
            Some(s) => parse_middle(*v) == Some(s@),
            None => parse_middle(*v) is None,
        },
{
    match v {
        JsonValue::Obj(fields) => match json::obj_get(fields, "feeds") {
            Some(JsonValue::Arr(fv)) => match parse_bare_source_array(fv) {
                Some(feeds) => match json::obj_get(fields, "read_items") {
                    Some(JsonValue::Arr(rv)) => match parse_string_array(rv) {
                        Some(reads) => match json::obj_get(fields, "favorites") {
                            Some(JsonValue::Arr(av)) => match parse_string_array(av) {
                                Some(favs) => Some(
                                    PersistedState {
                                        feeds,
                                        read_items: reads,
                                        favorites: favs,
                                    },
                                ),
                                None => None,
                            },
                            _ => None,
                        },
                        None => None,
                    },
                    _ => None,
                },
                None => None,
            },
            _ => None,
        },
        _ => None,
    }
}

fn try_parse_oldest(v: &JsonValue) -> (r: Option<PersistedState>)
    ensures
        match r {
            Some(s) => parse_oldest(*v) == Some(s@),
            None => parse_oldest(*v) is None,
        },
{
    match v {
        JsonValue::Obj(fields) => match json::obj_get(fields, "feeds") {
            Some(JsonValue::Arr(fv)) => match parse_bare_source_array(fv) {
                Some(feeds) => match json::obj_get(fields, "read_items") {
                    Some(JsonValue::Arr(rv)) => match parse_string_array(rv) {
                        Some(reads) => {
                            let s = PersistedState {
                                feeds,
                                read_items: reads,
                                favorites: Vec::new(),
                            };
                            proof {
                                assert(s@.favorites =~= Seq::<Seq<char>>::empty());
                            }
                            Some(s)
                        },
                        None => None,
                    },
                    _ => None,
                },
                None => None,
            },
            _ => None,
        },
        _ => None,
    }
}

/// Reads persisted state from a document, trying the known schemas newest
/// first and removing duplicate subscriptions and identities. Returns nothing
/// exactly when the document matches no known schema; the caller then treats
/// the file as corrupted, deletes it and starts empty.
pub fn load_state(v: &JsonValue) -> (r: Option<PersistedState>)
    ensures
        match migrate_spec(*v) {
            Some(sv) => match r {
                Some(s) => s@.feeds == dedup_sources(sv.feeds) && s@.read_items == dedup_keys(
                    sv.read_items,
                ) && s@.favorites == dedup_keys(sv.favorites),
                None => false,
            },
            None => r is None,
        },
{
    let parsed: Option<PersistedState> = match try_parse_current(v) {
        Some(s) => Some(s),
        None => match try_parse_middle(v) {
            Some(s) => Some(s),
            None => try_parse_oldest(v),
        },
    };
    match parsed {
        Some(s) => Some(
            PersistedState {
                feeds: dedup_feeds(&s.feeds),
                read_items: dedup_strings(&s.read_items),
                favorites: dedup_strings(&s.favorites),
            },
        ),
        None => None,
    }
}

// ----- writing the current schema -----

/// Whether a field holds the given name and string value.
pub open spec fn is_str_field(fld: (String, JsonValue), name: Seq<char>, val: Seq<char>) -> bool {
    fld.0@ == name && match fld.1 {
        JsonValue::Str(s) => s@ == val,
        _ => false,
    }
}

/// Whether a record encodes the given subscription in the current schema.
pub open spec fn entry_encodes_source(e: JsonValue, f: SourceView) -> bool {
    match e {
        JsonValue::Obj(ef) => {
            &&& is_str_field(ef@[0], "url"@, f.url)
            &&& is_str_field(ef@[1], "title"@, f.title)
            &&& match f.category {
                Some(c) => ef@.len() == 3 && is_str_field(ef@[2], "category"@, c),
                None => ef@.len() == 2,
            }
        },
        _ => false,
    }
}

/// Whether an array holds exactly the given strings.
pub open spec fn array_encodes_strings(items: Seq<JsonValue>, xs: Seq<Seq<char>>) -> bool {
    items.len() == xs.len() && forall|i: int|
        0 <= i < items.len() ==> as_str_view(#[trigger] items[i]) == Some(xs[i])
}

/// Whether a document encodes the given state in the current schema.
pub open spec fn tree_encodes_state(t: JsonValue, s: StateView) -> bool {
    match t {
        JsonValue::Obj(fields) => {
            &&& fields@.len() == 3
            &&& fields@[0].0@ == "feeds"@
            &&& match fields@[0].1 {
                JsonValue::Arr(fv) => fv@.len() == s.feeds.len() && forall|i: int|
                    0 <= i < fv@.len() ==> entry_encodes_source(#[trigger] fv@[i], s.feeds[i]),
                _ => false,
            }
            &&& fields@[1].0@ == "read_items"@
            &&& match fields@[1].1 {
                JsonValue::Arr(rv) => array_encodes_strings(rv@, s.read_items),
                _ => false,
            }
            &&& fields@[2].0@ == "favorites"@
            &&& match fields@[2].1 {
                JsonValue::Arr(av) => array_encodes_strings(av@, s.favorites),
                _ => false,
            }
        },
        _ => false,
    }
}

fn strings_to_array(xs: &Vec<String>) -> (r: Vec<JsonValue>)
    ensures
        array_encodes_strings(r@, xs@.map_values(|s: String| s@)),
{
    let mut out: Vec<JsonValue> = Vec::new();
    let mut i: usize = 0;
    while i < xs.len()
        invariant
            i <= xs.len(),
            out@.len() == i,
            forall|j: int|
                0 <= j < i ==> as_str_view(#[trigger] out@[j]) == Some(xs@[j]@),
        decreases xs.len() - i,
    {
        out.push(JsonValue::Str(xs[i].clone()));
        i += 1;
    }
    out
}

/// Writes the state in the current schema. Every save rewrites the whole
/// document.
pub fn state_to_tree(s: &PersistedState) -> (r: JsonValue)
    ensures
        tree_encodes_state(r, s@),
{
    let mut feed_vals: Vec<JsonValue> = Vec::new();
    let mut i: usize = 0;
    while i < s.feeds.len()
        invariant
            i <= s.feeds.len(),
            feed_vals@.len() == i,
            forall|j: int|
                0 <= j < i ==> entry_encodes_source(
                    #[trigger] feed_vals@[j],
                    s.feeds@.map_values(|f: FeedSource| f@)[j],
                ),
        decreases s.feeds.len() - i,
    {
        let f = &s.feeds[i];
        let mut ef: Vec<(String, JsonValue)> = Vec::new();
        ef.push((String::from_str("url"), JsonValue::Str(f.url.clone())));
        ef.push((String::from_str("title"), JsonValue::Str(f.title.clone())));
        match &f.category {
            Some(c) => {
                ef.push((String::from_str("category"), JsonValue::Str(c.clone())));
            },
            None => {},
        }
        feed_vals.push(JsonValue::Obj(ef));
        i += 1;
    }
    let read_vals = strings_to_array(&s.read_items);
    let fav_vals = strings_to_array(&s.favorites);
    let mut fields: Vec<(String, JsonValue)> = Vec::new();
    fields.push((String::from_str("feeds"), JsonValue::Arr(feed_vals)));
    fields.push((String::from_str("read_items"), JsonValue::Arr(read_vals)));
    fields.push((String::from_str("favorites"), JsonValue::Arr(fav_vals)));
    JsonValue::Obj(fields)
}

// ----- migration laws -----

/// Well-formed state: subscription URLs are unique and the identity lists
/// hold no duplicates.
pub open spec fn state_wf(s: StateView) -> bool {
    &&& forall|i: int, j: int|
        0 <= i < j < s.feeds.len() ==> (#[trigger] s.feeds[i]).url != (#[trigger] s.feeds[j]).url
    &&& s.read_items.no_duplicates()
    &&& s.favorites.no_duplicates()
}

proof fn lemma_entry_round_trip(e: JsonValue, f: SourceView)
    requires
        entry_encodes_source(e, f),
    ensures
        source_of_entry(e) == Some(f),
{
    reveal_strlit("url");
    reveal_strlit("title");
    reveal_strlit("category");
    let ef = e->Obj_0;
    assert("url"@.len() == 3);
    assert("title"@.len() == 5);
    assert("category"@.len() == 8);
    assert(ef@[0].0@ == "url"@);
    assert(ef@[1].0@ == "title"@);
    assert(obj_lookup(ef@, "url"@) == Some(ef@[0].1));
    json::lemma_obj_lookup_skip(ef@, "title"@, 1);
    assert(ef@.skip(1)[0] == ef@[1]);
    assert(obj_lookup(ef@, "title"@) == Some(ef@[1].1));
    json::lemma_obj_lookup_skip(ef@, "category"@, 2);
    match f.category {
        Some(c) => {
            assert(ef@.skip(2)[0] == ef@[2]);
            assert(obj_lookup(ef@, "category"@) == Some(ef@[2].1));
        },
        None => {
            assert(ef@.skip(2).len() == 0);
            assert(obj_lookup(ef@, "category"@) is None);
        },
    }
}

proof fn lemma_array_strings_round_trip(items: Seq<JsonValue>, xs: Seq<Seq<char>>)
    requires
        array_encodes_strings(items, xs),
    ensures
        strings_of_array(items) == Some(xs),
{
    assert(strings_of_array(items) is Some);
    assert(strings_of_array(items)->0 =~= xs);
}

/// Migration round trip: a document written in the current schema reads back
/// as exactly the state it was written from.
pub proof fn lemma_state_round_trip(t: JsonValue, s: StateView)
    requires
        tree_encodes_state(t, s),
    ensures
        migrate_spec(t) == Some(s),
{
    reveal_strlit("feeds");
    reveal_strlit("read_items");
    reveal_strlit("favorites");
    let fields = t->Obj_0;
    assert("feeds"@.len() == 5);
    assert("read_items"@.len() == 10);
    assert("favorites"@.len() == 9);
    assert(fields@[0].0@ == "feeds"@);
    assert(fields@[1].0@ == "read_items"@);
    assert(obj_lookup(fields@, "feeds"@) == Some(fields@[0].1));
    json::lemma_obj_lookup_skip(fields@, "read_items"@, 1);
    assert(fields@.skip(1)[0] == fields@[1]);
    assert(obj_lookup(fields@, "read_items"@) == Some(fields@[1].1));
    json::lemma_obj_lookup_skip(fields@, "favorites"@, 2);
    assert(fields@.skip(2)[0] == fields@[2]);
    assert(obj_lookup(fields@, "favorites"@) == Some(fields@[2].1));
    let fv = fields@[0].1->Arr_0;
    let rv = fields@[1].1->Arr_0;
    let av = fields@[2].1->Arr_0;
    assert forall|i: int| 0 <= i < fv@.len() implies source_of_entry(#[trigger] fv@[i]) == Some(
        s.feeds[i],
    ) by {
        lemma_entry_round_trip(fv@[i], s.feeds[i]);
    }
    assert(sources_of_array(fv@) is Some);
    assert(sources_of_array(fv@)->0 =~= s.feeds);
    lemma_array_strings_round_trip(rv@, s.read_items);
    lemma_array_strings_round_trip(av@, s.favorites);
    assert(parse_current(t) == Some(s));
}

/// The oldest schema still loads: a document with bare URL strings under
/// `feeds`, a `read_items` list and no `favorites` key migrates to a state
/// with every URL present (title defaulting to the URL) and empty favorites.
pub proof fn lemma_oldest_schema_loads(
    fields: Vec<(String, JsonValue)>,
    fv: Vec<JsonValue>,
    rv: Vec<JsonValue>,
    urls: Seq<Seq<char>>,
    reads: Seq<Seq<char>>,
)
    requires
        obj_lookup(fields@, "feeds"@) == Some(JsonValue::Arr(fv)),
        obj_lookup(fields@, "read_items"@) == Some(JsonValue::Arr(rv)),
        obj_lookup(fields@, "favorites"@) is None,
        strings_of_array(fv@) == Some(urls),
        strings_of_array(rv@) == Some(reads),
    ensures
        migrate_spec(JsonValue::Obj(fields)) == Some(
            StateView {
                feeds: urls.map_values(
                    |u: Seq<char>| SourceView { url: u, title: u, category: None },
                ),
                read_items: reads,
                favorites: Seq::empty(),
            },
        ),
{
    let t = JsonValue::Obj(fields);
    // bare string entries are not structured records, and there is no
    // favorites key, so the current schema does not match
    if fv@.len() > 0 {
        assert(as_str_view(fv@[0]) is Some);
        assert(source_of_entry(fv@[0]) is None);
        assert(sources_of_array(fv@) is None);
    }
    assert(parse_current(t) is None);
    // without a favorites key the middle schema does not match either
    assert(parse_middle(t) is None);
    // the oldest schema matches
    assert forall|i: int| 0 <= i < fv@.len() implies bare_source_of(#[trigger] fv@[i]) == Some(
        SourceView { url: urls[i], title: urls[i], category: None },
    ) by {
        assert(as_str_view(fv@[i]) is Some);
        assert(as_str_view(fv@[i]) == Some(urls[i]));
    }
    assert(bare_sources_of_array(fv@) is Some);
    assert(bare_sources_of_array(fv@)->0 =~= urls.map_values(
        |u: Seq<char>| SourceView { url: u, title: u, category: None },
    ));
    assert(parse_oldest(t) == Some(
        StateView {
            feeds: urls.map_values(|u: Seq<char>| SourceView { url: u, title: u, category: None }),
            read_items: reads,
            favorites: Seq::empty(),
        },
    ));
}

/// Removing duplicates from a duplicate-free list changes nothing.
pub proof fn lemma_dedup_keys_identity(s: Seq<Seq<char>>)
    requires
        s.no_duplicates(),
    ensures
        dedup_keys(s) == s,
    decreases s.len(),
{
    if s.len() > 0 {
        assert(s.drop_last().no_duplicates());
        lemma_dedup_keys_identity(s.drop_last());
        if s.drop_last().contains(s.last()) {
            let i = choose|i: int|
                0 <= i < s.drop_last().len() && s.drop_last()[i] == s.last();
            assert(s[i] == s[s.len() - 1]);
            assert(false);
        }
        assert(s.drop_last().push(s.last()) =~= s);
    }
}

/// Removing duplicate URLs from subscriptions with unique URLs changes
/// nothing.
pub proof fn lemma_dedup_sources_identity(s: Seq<SourceView>)
    requires
        forall|i: int, j: int|
            0 <= i < j < s.len() ==> (#[trigger] s[i]).url != (#[trigger] s[j]).url,
    ensures
        dedup_sources(s) == s,
    decreases s.len(),
{
    if s.len() > 0 {
        lemma_dedup_sources_identity(s.drop_last());
        if has_url(s.drop_last(), s.last().url) {
            let i = choose|i: int|
                0 <= i < s.drop_last().len() && s.drop_last()[i].url == s.last().url;
            assert(s[i].url == s[s.len() - 1].url);
            assert(false);
        }
        assert(s.drop_last().push(s.last()) =~= s);
    }
}

/// What duplicate removal keeps is duplicate-free.
pub proof fn lemma_dedup_keys_unique(s: Seq<Seq<char>>)
    ensures
        dedup_keys(s).no_duplicates(),
        forall|x: Seq<char>| #[trigger] dedup_keys(s).contains(x) <==> s.contains(x),
    decreases s.len(),
{
    if s.len() > 0 {
        lemma_dedup_keys_unique(s.drop_last());
        assert forall|x: Seq<char>| #[trigger] dedup_keys(s).contains(x) implies s.contains(
            x,
        ) by {
            if dedup_keys(s.drop_last()).contains(x) {
                let j = choose|j: int|
                    0 <= j < s.drop_last().len() && s.drop_last()[j] == x;
                assert(s[j] == x);
            }
        }
        assert forall|x: Seq<char>| s.contains(x) implies #[trigger] dedup_keys(s).contains(
            x,
        ) by {
            let j = choose|j: int| 0 <= j < s.len() && s[j] == x;
            if j < s.len() - 1 {
                assert(s.drop_last()[j] == x);
                if !dedup_keys(s.drop_last()).contains(x) {
                    assert(false);
                }
                if !dedup_keys(s.drop_last()).contains(s.last()) {
                    assert(dedup_keys(s) == dedup_keys(s.drop_last()).push(s.last()));
                    let k = choose|k: int|
                        0 <= k < dedup_keys(s.drop_last()).len() && dedup_keys(s.drop_last())[k]
                            == x;
                    assert(dedup_keys(s)[k] == x);
                }
            } else {
                assert(s.last() == x);
                if !dedup_keys(s.drop_last()).contains(x) {
                    assert(dedup_keys(s).last() == x);
                }
            }
        }
    }
}

/// What URL-wise duplicate removal keeps has unique URLs.
pub proof fn lemma_dedup_sources_unique(s: Seq<SourceView>)
    ensures
        forall|i: int, j: int|
            0 <= i < j < dedup_sources(s).len() ==> (#[trigger] dedup_sources(s)[i]).url
                != (#[trigger] dedup_sources(s)[j]).url,
    decreases s.len(),
{
    if s.len() > 0 {
        lemma_dedup_sources_unique(s.drop_last());
        let rest = dedup_sources(s.drop_last());
        if !has_url(rest, s.last().url) {
            assert forall|i: int, j: int|
                0 <= i < j < dedup_sources(s).len() implies (#[trigger] dedup_sources(s)[i]).url
                != (#[trigger] dedup_sources(s)[j]).url by {
                if j < rest.len() {
                    assert(dedup_sources(s)[i] == rest[i]);
                    assert(dedup_sources(s)[j] == rest[j]);
                } else {
                    assert(dedup_sources(s)[i] == rest[i]);
                    assert(dedup_sources(s)[j] == s.last());
                    if rest[i].url == s.last().url {
                        assert(has_url(rest, s.last().url));
                    }
                }
            }
        }
    }
}

/// Save–load round trip: a well-formed state written in the current schema is
/// read back unchanged by the loader (migration finds the current schema and
/// duplicate removal is the identity).
pub proof fn lemma_save_load_round_trip(t: JsonValue, s: StateView)
    requires
        tree_encodes_state(t, s),
        state_wf(s),
    ensures
        migrate_spec(t) == Some(s),
        dedup_sources(s.feeds) == s.feeds,
        dedup_keys(s.read_items) == s.read_items,
        dedup_keys(s.favorites) == s.favorites,
{
    lemma_state_round_trip(t, s);
    lemma_dedup_sources_identity(s.feeds);
    lemma_dedup_keys_identity(s.read_items);
    lemma_dedup_keys_identity(s.favorites);
}

} // verus!
