//! Text shortening for fixed-width display.

use vstd::prelude::*;

use vstd::string::StrSliceExecFns;
use vstd::string::StringExecFns;

verus! {

/// What truncation yields: the text itself when it fits, otherwise its first
/// characters with a three-dot ellipsis, the whole staying within the width
/// (a width under the ellipsis yields the ellipsis alone).
pub open spec fn truncated(s: Seq<char>, max_width: u16) -> Seq<char> {
    if s.len() <= max_width as int {
        s
    } else if max_width >= 3 {
        s.subrange(0, max_width - 3) + "..."@
    } else {
        "..."@
    }
}

/// Shortens text to at most `max_width` characters, ending in an ellipsis
/// when anything was cut.
pub fn truncate_text(text: &str, max_width: u16) -> (r: String)
    ensures
        r@ == truncated(text@, max_width),
{
    let len = text.unicode_len();
    if len <= max_width as usize {
        String::from_str(text)
    } else if max_width >= 3 {
        let head = text.substring_char(0, max_width as usize - 3);
        let r = String::from_str(head).concat("...");
        proof {
            assert(r@ == text@.subrange(0, max_width - 3) + "..."@);
        }
        r
    } else {
        String::from_str("...")
    }
}

} // verus!
