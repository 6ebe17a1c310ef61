//! Content truncation, shared by the parser and the display layer.

use vstd::prelude::*;
use crate::strings::{collapse_ws, collapse_whitespace};

verus! {

/// `c` cut to at most `max` characters; on overflow the first
/// `max - 1` characters followed by a single ellipsis character.
pub open spec fn truncate_spec(c: Seq<char>, max: int) -> Seq<char> {
    if c.len() <= max {
        c
    } else {
        c.subrange(0, max - 1).push('\u{2026}')
    }
}

/// Truncate at a character (not byte) boundary with an ellipsis,
/// optionally collapsing runs of whitespace first.
pub fn truncate_content(s: &str, max_chars: usize, collapse_whitespace_first: bool) -> (r: String)
    requires
        max_chars >= 1,
    ensures
        collapse_whitespace_first ==> r@ == truncate_spec(collapse_ws(s@), max_chars as int),
        !collapse_whitespace_first ==> r@ == truncate_spec(s@, max_chars as int),
{
    let base: String = if collapse_whitespace_first {
        collapse_whitespace(s)
    } else {
        s.to_owned()
    };
    let n: usize = base.as_str().unicode_len();
    if n <= max_chars {
        base
    } else {
        let mut r: String = base.as_str().substring_char(0, max_chars - 1).to_owned();
        r.append("\u{2026}");
        proof {
            reveal_strlit("\u{2026}");
            assert(r@ =~= base@.subrange(0, max_chars - 1).push('\u{2026}'));
        }
        r
    }
}

} // verus!
