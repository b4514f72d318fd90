//! Normalized feed entries and the derivation of their stable identities.
//!
//! An identity is synthesized from an item's title, its source URL and its
//! publish time, so that repeated fetches of an unchanged entry agree on the
//! identity without any server-assigned entry id. The URL and the publish
//! time are encoded injectively (fixed-width decimal codes), so identities of
//! the same title differ whenever the URL or the publish time differs.

use vstd::arithmetic::div_mod::{lemma_div_denominator, lemma_fundamental_div_mod};
use vstd::prelude::*;

use crate::strutil;
use crate::strutil::{alnum_of, lower_of};

verus! {

/// One normalized feed entry.
#[derive(Debug)]
pub struct FeedItem {
    /// Display title (the source URL is appended by the converters).
    pub title: String,
    /// Plain-text description.
    pub description: String,
    /// Link to the full article, possibly empty.
    pub link: String,
    /// Publish time in nanoseconds since the Unix epoch, when known.
    pub published: Option<u64>,
    /// Stable identity derived from title, source URL and publish time.
    pub id: String,
}

/// The mathematical shape of a feed item.
#[verifier::ext_equal]
pub ghost struct ItemView {
    pub title: Seq<char>,
    pub description: Seq<char>,
    pub link: Seq<char>,
    pub published: Option<u64>,
    pub id: Seq<char>,
}

impl View for FeedItem {
    type V = ItemView;

    open spec fn view(&self) -> ItemView {
        ItemView {
            title: self.title@,
            description: self.description@,
            link: self.link@,
            published: self.published,
            id: self.id@,
        }
    }
}

impl Clone for FeedItem {
    fn clone(&self) -> (r: Self)
        ensures
            r == *self,
    {
        FeedItem {
            title: self.title.clone(),
            description: self.description.clone(),
            link: self.link.clone(),
            published: self.published,
            id: self.id.clone(),
        }
    }
}

/// Clones a list of items, keeping its contents.
pub fn clone_items(v: &Vec<FeedItem>) -> (r: Vec<FeedItem>)
    ensures
        r@ == v@,
{
    let mut r: Vec<FeedItem> = Vec::new();
    let mut i: usize = 0;
    while i < v.len()
        invariant
            i <= v.len(),
            r@ == v@.subrange(0, i as int),
        decreases v.len() - i,
    {
        r.push(v[i].clone());
        assert(r@ == v@.subrange(0, i + 1 as int));
        i += 1;
    }
    assert(v@.subrange(0, v.len() as int) == v@);
    r
}

// ----- fixed-width decimal encodings -----

/// Ten to the `k`th power.
pub open spec fn p10(k: nat) -> int
    decreases k,
{
    if k == 0 {
        1
    } else {
        10 * p10((k - 1) as nat)
    }
}

/// The decimal digit character for `d` in `0..10`.
pub open spec fn digit_char(d: int) -> char
    recommends
        0 <= d < 10,
{
    ((48 + d) as u8) as char
}

/// The `k`th decimal digit of `v` (counting from the least significant).
pub open spec fn fixed_digit(v: int, k: nat) -> int {
    (v / p10(k)) % 10
}

/// `v` spelled as exactly `width` decimal digits, most significant first.
pub open spec fn dec_fixed(v: int, width: nat) -> Seq<char> {
    Seq::new(width, |i: int| digit_char(fixed_digit(v, (width - 1 - i) as nat)))
}

pub open spec fn is_digit_char(c: char) -> bool {
    48 <= c as u32 <= 57
}

/// Every character value lies in the Unicode scalar range.
proof fn lemma_char_bounds(c: char)
    ensures
        0 <= (c as int) < 0x110000,
{
}

proof fn lemma_p10_pos(k: nat)
    ensures
        p10(k) >= 1,
    decreases k,
{
    if k > 0 {
        lemma_p10_pos((k - 1) as nat);
    }
}

proof fn lemma_p10_mono(j: nat, k: nat)
    requires
        j <= k,
    ensures
        p10(j) <= p10(k),
    decreases k,
{
    if j < k {
        lemma_p10_mono(j, (k - 1) as nat);
        lemma_p10_pos((k - 1) as nat);
    }
}

proof fn lemma_digit_char_bounds(d: int)
    requires
        0 <= d < 10,
    ensures
        is_digit_char(digit_char(d)),
        digit_char(d) as u32 == 48 + d,
{
}

proof fn lemma_digit_char_inj(d1: int, d2: int)
    requires
        0 <= d1 < 10,
        0 <= d2 < 10,
        digit_char(d1) == digit_char(d2),
    ensures
        d1 == d2,
{
    lemma_digit_char_bounds(d1);
    lemma_digit_char_bounds(d2);
}

/// A number below `p10(width)` is determined by its `width` lowest digits.
proof fn lemma_digits_determine(a: int, b: int, width: nat)
    requires
        0 <= a < p10(width),
        0 <= b < p10(width),
        forall|k: nat| k < width ==> #[trigger] fixed_digit(a, k) == fixed_digit(b, k),
    ensures
        a == b,
    decreases width,
{
    if width == 0 {
        // a, b < 1
    } else {
        let w1 = (width - 1) as nat;
        lemma_p10_pos(w1);
        assert(fixed_digit(a, 0) == fixed_digit(b, 0));
        assert(a / 1 == a) by {
            lemma_fundamental_div_mod(a, 1);
        }
        assert(b / 1 == b) by {
            lemma_fundamental_div_mod(b, 1);
        }
        assert(a % 10 == b % 10);
        // the higher digits of a are the digits of a / 10
        assert forall|k: nat| k < w1 implies #[trigger] fixed_digit(a / 10, k) == fixed_digit(
            b / 10,
            k,
        ) by {
            lemma_p10_pos(k);
            lemma_div_denominator(a, 10, p10(k));
            lemma_div_denominator(b, 10, p10(k));
            assert(p10((k + 1) as nat) == 10 * p10(k));
            assert(fixed_digit(a, (k + 1) as nat) == fixed_digit(b, (k + 1) as nat));
        }
        lemma_fundamental_div_mod(a, 10);
        lemma_fundamental_div_mod(b, 10);
        assert(a / 10 < p10(w1));
        assert(b / 10 < p10(w1));
        lemma_digits_determine(a / 10, b / 10, w1);
    }
}

proof fn lemma_dec_fixed_inj(a: int, b: int, width: nat)
    requires
        0 <= a < p10(width),
        0 <= b < p10(width),
        dec_fixed(a, width) == dec_fixed(b, width),
    ensures
        a == b,
{
    assert forall|k: nat| k < width implies #[trigger] fixed_digit(a, k) == fixed_digit(b, k) by {
        let i = width - 1 - k;
        assert((width - 1 - i) as nat == k);
        assert(dec_fixed(a, width)[i] == digit_char(fixed_digit(a, k)));
        assert(dec_fixed(b, width)[i] == digit_char(fixed_digit(b, k)));
        lemma_p10_pos(k);
        lemma_digit_char_inj(fixed_digit(a, k), fixed_digit(b, k));
    }
    lemma_digits_determine(a, b, width);
}

proof fn lemma_dec_fixed_digits(v: int, width: nat)
    ensures
        forall|i: int| 0 <= i < width ==> is_digit_char(#[trigger] dec_fixed(v, width)[i]),
{
    assert forall|i: int| 0 <= i < width implies is_digit_char(
        #[trigger] dec_fixed(v, width)[i],
    ) by {
        let k = (width - 1 - i) as nat;
        lemma_p10_pos(k);
        lemma_digit_char_bounds(fixed_digit(v, k));
    }
}

/// A number spelled in ordinary decimal, no leading zeroes.
pub open spec fn dec_u64(n: nat) -> Seq<char>
    decreases n,
{
    if n < 10 {
        seq![digit_char(n as int)]
    } else {
        dec_u64((n / 10) as nat) + seq![digit_char((n % 10) as int)]
    }
}

/// Appends `n` in ordinary decimal.
pub fn push_dec_u64(out: &mut Vec<char>, n: u64)
    ensures
        final(out)@ == old(out)@ + dec_u64(n as nat),
    decreases n,
{
    if n < 10 {
        out.push(digit_char_exec(n));
        assert(out@ =~= old(out)@ + dec_u64(n as nat));
    } else {
        push_dec_u64(out, n / 10);
        out.push(digit_char_exec(n % 10));
        assert(out@ =~= old(out)@ + dec_u64(n as nat));
    }
}

// ----- the identity encoding -----

/// The source URL encoded as ten decimal digits per character.
pub open spec fn url_code_of(url: Seq<char>) -> Seq<char>
    decreases url.len(),
{
    if url.len() == 0 {
        Seq::empty()
    } else {
        dec_fixed(url[0] as int, 10) + url_code_of(url.skip(1))
    }
}

/// The title lowercased, with every non-alphanumeric character replaced by an
/// underscore.
pub open spec fn slug_of(title: Seq<char>) -> Seq<char> {
    lower_of(title).map_values(|c: char| if alnum_of(c) { c } else { '_' })
}

/// The identity string: URL code, an underscore, the title slug, and, when
/// the publish time is known, an underscore and the time in nanoseconds as
/// twenty decimal digits.
pub open spec fn identity_of(title: Seq<char>, url: Seq<char>, published: Option<u64>) -> Seq<
    char,
> {
    let base = url_code_of(url) + seq!['_'] + slug_of(title);
    match published {
        Some(n) => base + seq!['_'] + dec_fixed(n as int, 20),
        None => base,
    }
}

proof fn lemma_url_code_len(url: Seq<char>)
    ensures
        url_code_of(url).len() == 10 * url.len(),
    decreases url.len(),
{
    if url.len() > 0 {
        lemma_url_code_len(url.skip(1));
    }
}

proof fn lemma_url_code_digits(url: Seq<char>)
    ensures
        forall|i: int| 0 <= i < url_code_of(url).len() ==> is_digit_char(
            #[trigger] url_code_of(url)[i],
        ),
    decreases url.len(),
{
    if url.len() > 0 {
        lemma_dec_fixed_digits(url[0] as int, 10);
        lemma_url_code_digits(url.skip(1));
        lemma_url_code_len(url.skip(1));
        assert forall|i: int| 0 <= i < url_code_of(url).len() implies is_digit_char(
            #[trigger] url_code_of(url)[i],
        ) by {
            if i < 10 {
                assert(url_code_of(url)[i] == dec_fixed(url[0] as int, 10)[i]);
            } else {
                assert(url_code_of(url)[i] == url_code_of(url.skip(1))[i - 10]);
            }
        }
    }
}

proof fn lemma_p10_10()
    ensures
        p10(10) == 0x2540BE400,
{
    reveal_with_fuel(p10, 11);
}

proof fn lemma_p10_20()
    ensures
        p10(20) > 0xFFFFFFFFFFFFFFFF,
{
    reveal_with_fuel(p10, 21);
}

/// Splitting a concatenation back into its parts.
proof fn lemma_concat_parts(a: Seq<char>, b: Seq<char>)
    ensures
        (a + b).subrange(0, a.len() as int) == a,
        (a + b).subrange(a.len() as int, (a + b).len() as int) == b,
{
    assert((a + b).subrange(0, a.len() as int) =~= a);
    assert((a + b).subrange(a.len() as int, (a + b).len() as int) =~= b);
}

proof fn lemma_url_code_inj(u1: Seq<char>, u2: Seq<char>)
    requires
        url_code_of(u1) == url_code_of(u2),
    ensures
        u1 == u2,
    decreases u1.len(),
{
    lemma_url_code_len(u1);
    lemma_url_code_len(u2);
    if u1.len() == 0 {
        assert(u1 =~= u2);
    } else {
        let d1 = dec_fixed(u1[0] as int, 10);
        let d2 = dec_fixed(u2[0] as int, 10);
        lemma_concat_parts(d1, url_code_of(u1.skip(1)));
        lemma_concat_parts(d2, url_code_of(u2.skip(1)));
        assert(d1 == d2);
        lemma_p10_10();
        lemma_char_bounds(u1[0]);
        lemma_char_bounds(u2[0]);
        lemma_dec_fixed_inj(u1[0] as int, u2[0] as int, 10);
        assert(u1[0] == u2[0]);
        lemma_url_code_inj(u1.skip(1), u2.skip(1));
        assert forall|i: int| 0 < i < u1.len() implies u1[i] == u2[i] by {
            assert(u1[i] == u1.skip(1)[i - 1]);
            assert(u2[i] == u2.skip(1)[i - 1]);
        }
        assert(u1 =~= u2);
    }
}

/// Identity determinism and injectivity: holding the title fixed, two
/// identities agree exactly when both the source URL and the publish time
/// agree. In particular the identity is a pure function of its inputs, and it
/// differs whenever the URL or the publish time differs.
pub proof fn lemma_identity_injective(
    title: Seq<char>,
    u1: Seq<char>,
    p1: Option<u64>,
    u2: Seq<char>,
    p2: Option<u64>,
)
    ensures
        identity_of(title, u1, p1) == identity_of(title, u2, p2) <==> (u1 == u2 && p1 == p2),
{
    if u1 == u2 && p1 == p2 {
        assert(identity_of(title, u1, p1) == identity_of(title, u2, p2));
    }
    if identity_of(title, u1, p1) == identity_of(title, u2, p2) {
        let id1 = identity_of(title, u1, p1);
        let id2 = identity_of(title, u2, p2);
        let e1 = url_code_of(u1);
        let e2 = url_code_of(u2);
        let s = slug_of(title);
        let tail1: Seq<char> = match p1 {
            Some(n) => seq!['_'] + dec_fixed(n as int, 20),
            None => Seq::empty(),
        };
        let tail2: Seq<char> = match p2 {
            Some(n) => seq!['_'] + dec_fixed(n as int, 20),
            None => Seq::empty(),
        };
        assert(id1 =~= e1 + (seq!['_'] + s + tail1));
        assert(id2 =~= e2 + (seq!['_'] + s + tail2));
        lemma_url_code_digits(u1);
        lemma_url_code_digits(u2);
        // The underscore after the URL code is the first non-digit, so the
        // URL codes have the same length.
        assert(!is_digit_char('_'));
        if e1.len() < e2.len() {
            assert(id1[e1.len() as int] == '_');
            assert(id2[e1.len() as int] == e2[e1.len() as int]);
            assert(is_digit_char(e2[e1.len() as int]));
            assert(false);
        }
        if e2.len() < e1.len() {
            assert(id2[e2.len() as int] == '_');
            assert(id1[e2.len() as int] == e1[e2.len() as int]);
            assert(is_digit_char(e1[e2.len() as int]));
            assert(false);
        }
        lemma_concat_parts(e1, seq!['_'] + s + tail1);
        lemma_concat_parts(e2, seq!['_'] + s + tail2);
        assert(e1 == e2);
        lemma_url_code_inj(u1, u2);
        let rest1 = seq!['_'] + s + tail1;
        let rest2 = seq!['_'] + s + tail2;
        assert(rest1 == rest2);
        assert(rest1 =~= (seq!['_'] + s) + tail1);
        assert(rest2 =~= (seq!['_'] + s) + tail2);
        lemma_concat_parts(seq!['_'] + s, tail1);
        lemma_concat_parts(seq!['_'] + s, tail2);
        assert(tail1 == tail2);
        match p1 {
            None => {
                assert(tail1.len() == 0);
                if p1 != p2 {
                    assert(tail2.len() == 21);
                    assert(false);
                }
            },
            Some(n1) => {
                assert(tail1.len() == 21);
                match p2 {
                    None => {
                        assert(tail2.len() == 0);
                        assert(false);
                    },
                    Some(n2) => {
                        lemma_concat_parts(seq!['_'], dec_fixed(n1 as int, 20));
                        lemma_concat_parts(seq!['_'], dec_fixed(n2 as int, 20));
                        assert(dec_fixed(n1 as int, 20) == dec_fixed(n2 as int, 20));
                        lemma_p10_20();
                        lemma_dec_fixed_inj(n1 as int, n2 as int, 20);
                    },
                }
            },
        }
    }
}

// ----- executable identity derivation -----

fn pow10_u64(k: usize) -> (r: u64)
    requires
        k <= 19,
    ensures
        r as int == p10(k as nat),
{
    let mut i: usize = 0;
    let mut acc: u64 = 1;
    while i < k
        invariant
            i <= k <= 19,
            acc as int == p10(i as nat),
        decreases k - i,
    {
        proof {
            lemma_p10_mono((i + 1) as nat, 19);
            reveal_with_fuel(p10, 20);
            assert(p10(19) == 0x8AC7230489E80000);
        }
        acc = acc * 10;
        i += 1;
    }
    acc
}

fn digit_char_exec(d: u64) -> (c: char)
    requires
        d < 10,
    ensures
        c == digit_char(d as int),
{
    (48 + d as u8) as char
}

/// Appends `v` as exactly `width` decimal digits, most significant first.
fn push_dec_fixed(out: &mut Vec<char>, v: u64, width: usize)
    requires
        width <= 20,
    ensures
        final(out)@ == old(out)@ + dec_fixed(v as int, width as nat),
{
    let mut i: usize = 0;
    while i < width
        invariant
            i <= width <= 20,
            out@ == old(out)@ + dec_fixed(v as int, width as nat).subrange(0, i as int),
        decreases width - i,
    {
        let k = width - 1 - i;
        let p = pow10_u64(k);
        proof {
            lemma_p10_pos(k as nat);
        }
        let d = (v / p) % 10;
        out.push(digit_char_exec(d));
        assert(out@ == old(out)@ + dec_fixed(v as int, width as nat).subrange(0, i + 1)) by {
            assert(dec_fixed(v as int, width as nat)[i as int] == digit_char(
                fixed_digit(v as int, k as nat),
            ));
            assert(dec_fixed(v as int, width as nat).subrange(0, i + 1) =~= dec_fixed(
                v as int,
                width as nat,
            ).subrange(0, i as int).push(digit_char(d as int)));
        }
        i += 1;
    }
    assert(dec_fixed(v as int, width as nat).subrange(0, width as int) =~= dec_fixed(
        v as int,
        width as nat,
    ));
}

proof fn lemma_url_code_snoc(s: Seq<char>, c: char)
    ensures
        url_code_of(s.push(c)) == url_code_of(s) + dec_fixed(c as int, 10),
    decreases s.len(),
{
    if s.len() == 0 {
        assert(s.push(c)[0] == c);
        assert(s.push(c).skip(1) =~= Seq::<char>::empty());
        assert(url_code_of(s.push(c)) == dec_fixed(c as int, 10) + url_code_of(
            s.push(c).skip(1),
        ));
        assert(url_code_of(s.push(c)) =~= url_code_of(s) + dec_fixed(c as int, 10));
    } else {
        assert(s.push(c)[0] == s[0]);
        assert(s.push(c).skip(1) =~= s.skip(1).push(c));
        lemma_url_code_snoc(s.skip(1), c);
        assert(url_code_of(s.push(c)) == dec_fixed(s[0] as int, 10) + url_code_of(
            s.skip(1).push(c),
        ));
        assert(url_code_of(s.push(c)) =~= url_code_of(s) + dec_fixed(c as int, 10));
    }
}

/// Derives the stable identity of an entry from its title, the URL of the
/// source it came from, and its publish time in nanoseconds since the epoch,
/// when known. Deterministic: equal inputs give equal identities, and with
/// the title fixed, different URLs or publish times give different
/// identities.
pub fn create_item_id(title: &str, source_url: &str, published: Option<u64>) -> (r: String)
    ensures
        r@ == identity_of(title@, source_url@, published),
{
    let mut acc: Vec<char> = Vec::new();
    let url_chars = strutil::chars_of(source_url);
    let mut i: usize = 0;
    while i < url_chars.len()
        invariant
            i <= url_chars.len(),
            url_chars@ == source_url@,
            acc@ == url_code_of(source_url@.subrange(0, i as int)),
        decreases url_chars.len() - i,
    {
        let c = url_chars[i];
        proof {
            lemma_char_bounds(c);
        }
        let code: u64 = c as u64;
        push_dec_fixed(&mut acc, code, 10);
        proof {
            assert(code as int == c as int);
            lemma_url_code_snoc(source_url@.subrange(0, i as int), c);
            assert(source_url@.subrange(0, i + 1) =~= source_url@.subrange(0, i as int).push(c));
        }
        i += 1;
    }
    assert(source_url@.subrange(0, url_chars@.len() as int) =~= source_url@);
    acc.push('_');
    let ghost prefix = url_code_of(source_url@) + seq!['_'];
    assert(acc@ =~= prefix);
    let low = strutil::lowercase(title);
    let low_chars = strutil::chars_of(low.as_str());
    let mut j: usize = 0;
    while j < low_chars.len()
        invariant
            j <= low_chars.len(),
            low_chars@ == lower_of(title@),
            acc@ == prefix + slug_of(title@).subrange(0, j as int),
        decreases low_chars.len() - j,
    {
        let c = low_chars[j];
        if strutil::is_alphanumeric_char(c) {
            acc.push(c);
        } else {
            acc.push('_');
        }
        assert(acc@ =~= prefix + slug_of(title@).subrange(0, j + 1));
        j += 1;
    }
    assert(slug_of(title@).subrange(0, low_chars@.len() as int) =~= slug_of(title@));
    match published {
        Some(n) => {
            acc.push('_');
            push_dec_fixed(&mut acc, n, 20);
            assert(acc@ =~= identity_of(title@, source_url@, published));
        },
        None => {
            assert(acc@ =~= identity_of(title@, source_url@, published));
        },
    }
    strutil::string_of_chars(&acc)
}

} // verus!
