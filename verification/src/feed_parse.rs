//! Decoding fetched bytes into normalized items.
//!
//! A response body is tried as RSS first and as Atom only when RSS parsing
//! fails: an explicit, ordered list of candidate decoders, since a wrong
//! format is an expected outcome, not an exception. The parsers hand over
//! plain raw entries; everything from there on — descriptions reduced to
//! text, display titles, publish times, identities — is verified conversion.

use vstd::prelude::*;

use crate::item::{identity_of, FeedItem, ItemView};
use crate::item;
use crate::strutil;

verus! {

/// A raw RSS item as the parser hands it over.
#[derive(Debug)]
pub struct RawRssEntry {
    pub title: Option<String>,
    pub description: Option<String>,
    pub link: Option<String>,
    /// Publish date as an RFC 2822 string, when the item carries one.
    pub pub_date: Option<String>,
}

/// A raw Atom entry as the parser hands it over.
#[derive(Debug)]
pub struct RawAtomEntry {
    pub title: String,
    pub content: Option<String>,
    pub summary: Option<String>,
    /// The first link's target.
    pub link: Option<String>,
    /// Publish time in nanoseconds since the epoch.
    pub published: Option<i64>,
    /// Update time in nanoseconds since the epoch.
    pub updated: Option<i64>,
}

/// The mathematical shape of a raw RSS item.
#[verifier::ext_equal]
pub ghost struct RssEntryView {
    pub title: Option<Seq<char>>,
    pub description: Option<Seq<char>>,
    pub link: Option<Seq<char>>,
    pub pub_date: Option<Seq<char>>,
}

impl View for RawRssEntry {
    type V = RssEntryView;

    open spec fn view(&self) -> RssEntryView {
        RssEntryView {
            title: match self.title {
                Some(t) => Some(t@),
                None => None,
            },
            description: match self.description {
                Some(d) => Some(d@),
                None => None,
            },
            link: match self.link {
                Some(l) => Some(l@),
                None => None,
            },
            pub_date: match self.pub_date {
                Some(p) => Some(p@),
                None => None,
            },
        }
    }
}

/// The mathematical shape of a raw Atom entry.
#[verifier::ext_equal]
pub ghost struct AtomEntryView {
    pub title: Seq<char>,
    pub content: Option<Seq<char>>,
    pub summary: Option<Seq<char>>,
    pub link: Option<Seq<char>>,
    pub published: Option<i64>,
    pub updated: Option<i64>,
}

impl View for RawAtomEntry {
    type V = AtomEntryView;

    open spec fn view(&self) -> AtomEntryView {
        AtomEntryView {
            title: self.title@,
            content: match self.content {
                Some(c) => Some(c@),
                None => None,
            },
            summary: match self.summary {
                Some(su) => Some(su@),
                None => None,
            },
            link: match self.link {
                Some(l) => Some(l@),
                None => None,
            },
            published: self.published,
            updated: self.updated,
        }
    }
}

/// What rss's `Channel::read_from` yields for a body: the items' raw fields,
/// or nothing when the bytes are not a valid RSS document.
pub uninterp spec fn rss_parse_of(body: Seq<u8>) -> Option<Seq<RssEntryView>>;

/// What atom_syndication's `Feed::read_from` yields for a body: the entries'
/// raw fields, or nothing when the bytes are not a valid Atom document.
pub uninterp spec fn atom_parse_of(body: Seq<u8>) -> Option<Seq<AtomEntryView>>;

/// Relies on rss's `Channel::read_from`: parses the bytes as an RSS
/// document, succeeding exactly when they are one. Each item's title,
/// description, link and publish date move over as plain strings; a parse
/// failure returns the error's text.
#[verifier::external_body]
fn parse_rss_raw(body: &[u8]) -> (r: Result<Vec<RawRssEntry>, String>)
    ensures
        (r is Ok) == (rss_parse_of(body@) is Some),
        (match r {
            Ok(entries) => entries@.map_values(|e: RawRssEntry| e@) == rss_parse_of(body@)->0,
            Err(_) => true,
        }),
{
    match rss::Channel::read_from(body) {
        Ok(ch) => Ok(ch.items().iter().map(|it| RawRssEntry {
            title: it.title().map(|s| s.to_string()),
            description: it.description().map(|s| s.to_string()),
            link: it.link().map(|s| s.to_string()),
            pub_date: it.pub_date().map(|s| s.to_string()),
        }).collect()),
        Err(e) => Err(e.to_string()),
    }
}

/// Relies on atom_syndication's `Feed::read_from`: parses the bytes as an
/// Atom document, succeeding exactly when they are one. Each entry's title,
/// content, summary, first link and timestamps move over as plain values; a
/// parse failure returns the error's text.
#[verifier::external_body]
fn parse_atom_raw(body: &[u8]) -> (r: Result<Vec<RawAtomEntry>, String>)
    ensures
        (r is Ok) == (atom_parse_of(body@) is Some),
        (match r {
            Ok(entries) => entries@.map_values(|e: RawAtomEntry| e@) == atom_parse_of(body@)->0,
            Err(_) => true,
        }),
{
    match atom_syndication::Feed::read_from(body) {
        Ok(feed) => Ok(feed.entries().iter().map(|en| RawAtomEntry {
            title: en.title().value.clone(),
            content: en.content().and_then(|c| c.value.clone()),
            summary: en.summary().map(|s| s.value.clone()),
            link: en.links().first().map(|l| l.href().to_string()),
            published: en.published().and_then(|d| d.timestamp_nanos_opt()),
            updated: en.updated().timestamp_nanos_opt(),
        }).collect()),
        Err(e) => Err(e.to_string()),
    }
}

/// What chrono's RFC 2822 parser yields for a string: nanoseconds since the
/// epoch, absent when the string does not parse or the time overflows.
pub uninterp spec fn rfc2822_nanos_of(s: Seq<char>) -> Option<i64>;

/// Relies on chrono's `DateTime::parse_from_rfc2822` and
/// `timestamp_nanos_opt`: the result depends on the string alone.
#[verifier::external_body]
fn parse_rfc2822_nanos(s: &str) -> (r: Option<i64>)
    ensures
        r == rfc2822_nanos_of(s@),
{
    match chrono::DateTime::parse_from_rfc2822(s) {
        Ok(dt) => dt.timestamp_nanos_opt(),
        Err(_) => None,
    }
}

/// What html2text renders a document to at eighty columns, when it succeeds.
pub uninterp spec fn html_text_of(s: Seq<char>) -> Option<Seq<char>>;

/// Relies on html2text's `from_read` at width eighty: the result depends on
/// the input alone.
#[verifier::external_body]
fn html_to_text(s: &str) -> (r: Option<String>)
    ensures
        (r is Some) == (html_text_of(s@) is Some),
        r is Some ==> r->0@ == html_text_of(s@)->0,
{
    html2text::from_read(s.as_bytes(), 80).ok()
}

// ----- verified conversion -----

/// Publish times are clamped at the epoch, as unsigned nanoseconds.
pub open spec fn clamp_nanos(n: Option<i64>) -> Option<u64> {
    match n {
        Some(v) => if v < 0 {
            Some(0)
        } else {
            Some(v as u64)
        },
        None => None,
    }
}

fn clamp_nanos_exec(n: Option<i64>) -> (r: Option<u64>)
    ensures
        r == clamp_nanos(n),
{
    match n {
        Some(v) => if v < 0 {
            Some(0)
        } else {
            Some(v as u64)
        },
        None => None,
    }
}

/// Newlines flattened to spaces before rendering, as the feed descriptions
/// are shown on single lines.
pub open spec fn flatten_ws(s: Seq<char>) -> Seq<char> {
    s.map_values(|c: char| if c == '\n' || c == '\r' { ' ' } else { c })
}

fn flatten_ws_exec(s: &str) -> (r: String)
    ensures
        r@ == flatten_ws(s@),
{
    let chars = strutil::chars_of(s);
    let mut out: Vec<char> = Vec::new();
    let mut i: usize = 0;
    while i < chars.len()
        invariant
            i <= chars.len(),
            chars@ == s@,
            out@ == flatten_ws(s@).subrange(0, i as int),
        decreases chars.len() - i,
    {
        let c = chars[i];
        if c == '\n' || c == '\r' {
            out.push(' ');
        } else {
            out.push(c);
        }
        assert(out@ =~= flatten_ws(s@).subrange(0, i + 1));
        i += 1;
    }
    assert(flatten_ws(s@).subrange(0, s@.len() as int) =~= flatten_ws(s@));
    strutil::string_of_chars(&out)
}

/// A description cleaned for display: newlines flattened, HTML reduced to
/// plain text; the flattened text itself where rendering fails.
pub open spec fn clean_desc_of(s: Seq<char>) -> Seq<char> {
    match html_text_of(flatten_ws(s)) {
        Some(t) => t,
        None => flatten_ws(s),
    }
}

fn clean_description(s: &str) -> (r: String)
    ensures
        r@ == clean_desc_of(s@),
{
    let flat = flatten_ws_exec(s);
    match html_to_text(flat.as_str()) {
        Some(t) => t,
        None => flat,
    }
}

/// The display title: the entry's title with the source URL appended.
pub open spec fn display_title_of(title: Seq<char>, url: Seq<char>) -> Seq<char> {
    title + " | "@ + url
}

fn display_title(title: &str, url: &str) -> (r: String)
    ensures
        r@ == display_title_of(title@, url@),
{
    let t = String::from_str(title);
    let t = t.concat(" | ");
    t.concat(url)
}

/// The item an RSS entry normalizes to: absent fields fall back to fixed
/// texts, the publish date is read as RFC 2822, and the identity derives
/// from the raw title, the source URL and the publish time.
pub open spec fn rss_item_view(e: RssEntryView, url: Seq<char>) -> ItemView {
    let t = match e.title {
        Some(t) => t,
        None => "No title"@,
    };
    let d = match e.description {
        Some(d) => d,
        None => "No description"@,
    };
    let link = match e.link {
        Some(l) => l,
        None => Seq::empty(),
    };
    let published = clamp_nanos(
        match e.pub_date {
            Some(p) => rfc2822_nanos_of(p),
            None => None,
        },
    );
    ItemView {
        title: display_title_of(t, url),
        description: clean_desc_of(d),
        link,
        published,
        id: identity_of(t, url, published),
    }
}

/// The item an Atom entry normalizes to: the description prefers the
/// content over the summary, the publish time falls back to the update time,
/// and the identity derives from the title, the source URL and that time.
pub open spec fn atom_item_view(e: AtomEntryView, url: Seq<char>) -> ItemView {
    let d = match e.content {
        Some(c) => c,
        None => match e.summary {
            Some(s) => s,
            None => "No description"@,
        },
    };
    let published = clamp_nanos(
        match e.published {
            Some(p) => Some(p),
            None => e.updated,
        },
    );
    ItemView {
        title: display_title_of(e.title, url),
        description: clean_desc_of(d),
        link: match e.link {
            Some(l) => l,
            None => Seq::empty(),
        },
        published,
        id: identity_of(e.title, url, published),
    }
}

fn convert_rss_item(e: &RawRssEntry, feed_url: &str) -> (r: FeedItem)
    ensures
        r@ == rss_item_view((*e)@, feed_url@),
{
    let title: &str = match &e.title {
        Some(t) => t.as_str(),
        None => "No title",
    };
    let desc: &str = match &e.description {
        Some(d) => d.as_str(),
        None => "No description",
    };
    let link: String = match &e.link {
        Some(l) => l.clone(),
        None => String::new(),
    };
    let parsed: Option<i64> = match &e.pub_date {
        Some(p) => parse_rfc2822_nanos(p.as_str()),
        None => None,
    };
    let published = clamp_nanos_exec(parsed);
    let id = item::create_item_id(title, feed_url, published);
    FeedItem {
        title: display_title(title, feed_url),
        description: clean_description(desc),
        link,
        published,
        id,
    }
}

fn convert_atom_item(e: &RawAtomEntry, feed_url: &str) -> (r: FeedItem)
    ensures
        r@ == atom_item_view((*e)@, feed_url@),
{
    let desc: &str = match &e.content {
        Some(c) => c.as_str(),
        None => match &e.summary {
            Some(s) => s.as_str(),
            None => "No description",
        },
    };
    let link: String = match &e.link {
        Some(l) => l.clone(),
        None => String::new(),
    };
    let raw_time: Option<i64> = match e.published {
        Some(p) => Some(p),
        None => e.updated,
    };
    let published = clamp_nanos_exec(raw_time);
    let id = item::create_item_id(e.title.as_str(), feed_url, published);
    FeedItem {
        title: display_title(e.title.as_str(), feed_url),
        description: clean_description(desc),
        link,
        published,
        id,
    }
}

/// Normalizes parsed RSS items for one source.
pub fn convert_rss_items(entries: &Vec<RawRssEntry>, feed_url: &str) -> (r: Vec<FeedItem>)
    ensures
        r@.len() == entries@.len(),
        forall|i: int|
            0 <= i < entries@.len() ==> (#[trigger] r@[i])@ == rss_item_view(
                entries@[i]@,
                feed_url@,
            ),
{
    let mut out: Vec<FeedItem> = Vec::new();
    let mut i: usize = 0;
    while i < entries.len()
        invariant
            i <= entries.len(),
            out@.len() == i,
            forall|j: int|
                0 <= j < i ==> (#[trigger] out@[j])@ == rss_item_view(entries@[j]@, feed_url@),
        decreases entries.len() - i,
    {
        out.push(convert_rss_item(&entries[i], feed_url));
        i += 1;
    }
    out
}

/// Normalizes parsed Atom entries for one source.
pub fn convert_atom_items(entries: &Vec<RawAtomEntry>, feed_url: &str) -> (r: Vec<FeedItem>)
    ensures
        r@.len() == entries@.len(),
        forall|i: int|
            0 <= i < entries@.len() ==> (#[trigger] r@[i])@ == atom_item_view(
                entries@[i]@,
                feed_url@,
            ),
{
    let mut out: Vec<FeedItem> = Vec::new();
    let mut i: usize = 0;
    while i < entries.len()
        invariant
            i <= entries.len(),
            out@.len() == i,
            forall|j: int|
                0 <= j < i ==> (#[trigger] out@[j])@ == atom_item_view(entries@[j]@, feed_url@),
        decreases entries.len() - i,
    {
        out.push(convert_atom_item(&entries[i], feed_url));
        i += 1;
    }
    out
}

/// What a body decodes to for this source: the normalized items of its RSS
/// parse when the bytes are valid RSS, else of its Atom parse when they are
/// valid Atom, and nothing when they are neither.
pub open spec fn decoded_feed_of(body: Seq<u8>, url: Seq<char>) -> Option<Seq<ItemView>> {
    match rss_parse_of(body) {
        Some(es) => Some(es.map_values(|e: RssEntryView| rss_item_view(e, url))),
        None => match atom_parse_of(body) {
            Some(es) => Some(es.map_values(|e: AtomEntryView| atom_item_view(e, url))),
            None => None,
        },
    }
}

/// Decodes a response body, trying RSS first and Atom only when RSS parsing
/// fails: succeeds with exactly the normalized items of whichever parse
/// succeeded, and fails exactly when the body is neither valid RSS nor valid
/// Atom (returning the Atom error's text); the source then contributes
/// nothing this cycle.
pub fn decode_feed(body: &[u8], feed_url: &str) -> (r: Result<Vec<FeedItem>, String>)
    ensures
        (r is Ok) == (decoded_feed_of(body@, feed_url@) is Some),
        (match r {
            Ok(items) => items@.map_values(|it: FeedItem| it@) == decoded_feed_of(
                body@,
                feed_url@,
            )->0,
            Err(_) => true,
        }),
{
    match parse_rss_raw(body) {
        Ok(entries) => {
            let items = convert_rss_items(&entries, feed_url);
            proof {
                let es = rss_parse_of(body@)->0;
                assert(entries@.map_values(|e: RawRssEntry| e@) == es);
                assert forall|i: int| 0 <= i < items@.len() implies items@.map_values(
                    |it: FeedItem| it@,
                )[i] == decoded_feed_of(body@, feed_url@)->0[i] by {
                    assert(items@[i]@ == rss_item_view(entries@[i]@, feed_url@));
                    assert(es[i] == entries@.map_values(|e: RawRssEntry| e@)[i]);
                }
                assert(items@.map_values(|it: FeedItem| it@) =~= decoded_feed_of(
                    body@,
                    feed_url@,
                )->0);
            }
            Ok(items)
        },
        Err(_) => match parse_atom_raw(body) {
            Ok(entries) => {
                let items = convert_atom_items(&entries, feed_url);
                proof {
                    let es = atom_parse_of(body@)->0;
                    assert(entries@.map_values(|e: RawAtomEntry| e@) == es);
                    assert forall|i: int| 0 <= i < items@.len() implies items@.map_values(
                        |it: FeedItem| it@,
                    )[i] == decoded_feed_of(body@, feed_url@)->0[i] by {
                        assert(items@[i]@ == atom_item_view(entries@[i]@, feed_url@));
                        assert(es[i] == entries@.map_values(|e: RawAtomEntry| e@)[i]);
                    }
                    assert(items@.map_values(|it: FeedItem| it@) =~= decoded_feed_of(
                        body@,
                        feed_url@,
                    )->0);
                }
                Ok(items)
            },
            Err(e) => Err(e),
        },
    }
}

} // verus!
