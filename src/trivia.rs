//! Whitespace and line-content tests used to classify comments.
use vstd::prelude::*;
use vstd::string::StringSliceAdditionalSpecFns;

use crate::line_ranges::{line_end_of, line_start_of, lemma_line_end_bounds, lemma_line_start_bounds, LineRanges};
use crate::text_model::{all_ws, is_ws_byte};
use crate::text_size::TextSize;

verus! {

/// Python whitespace inside a line: space, tab and form feed.
pub fn is_python_whitespace(c: char) -> (r: bool)
    ensures
        r == (c == ' ' || c == '\t' || c == '\x0C'),
{
    c == ' ' || c == '\t' || c == '\x0C'
}

/// Whether some byte of `[from, to)` is not whitespace.
pub open spec fn has_content(b: Seq<u8>, from: int, to: int) -> bool {
    !all_ws(b, from, to)
}

/// Scanning `[k, e)`: whether the first byte that is not whitespace exists and does not start
/// a comment.
pub open spec fn content_before_comment(b: Seq<u8>, k: int, e: int) -> bool
    decreases e - k,
{
    if k >= e {
        false
    } else if is_ws_byte(b[k]) {
        content_before_comment(b, k + 1, e)
    } else {
        b[k] != 35
    }
}

/// Whether anything but whitespace stands between `o` and the start of its line.
pub open spec fn leading_content(b: Seq<u8>, o: int) -> bool {
    has_content(b, line_start_of(b, o), o)
}

/// Whether code (not whitespace, not a comment) follows `o` on its line.
pub open spec fn trailing_content(b: Seq<u8>, o: int) -> bool {
    content_before_comment(b, o, line_end_of(b, o))
}

/// Whether bytes `[from, to)` are all whitespace; true when the span is empty.
pub fn all_whitespace(bytes: &[u8], from: usize, to: usize) -> (r: bool)
    requires
        to <= bytes@.len(),
    ensures
        r == all_ws(bytes@, from as int, to as int),
{
    let mut k = from;
    while k < to
        invariant
            to <= bytes@.len(),
            from <= k,
            all_ws(bytes@, from as int, k as int),
        decreases to - k,
    {
        let x = bytes[k];
        if !(x == 32 || x == 9 || x == 12) {
            assert(!is_ws_byte(bytes@[k as int]));
            return false;
        }
        k += 1;
    }
    true
}

/// Whether `offset` is preceded by anything but whitespace on its line.
pub fn has_leading_content(offset: TextSize, source: &str) -> (r: bool)
    requires
        offset.raw <= source.spec_bytes().len(),
    ensures
        r == leading_content(source.spec_bytes(), offset.raw as int),
{
    let start = source.line_start(offset);
    proof {
        lemma_line_start_bounds(source.spec_bytes(), offset.raw as int);
    }
    let bytes = source.as_bytes();
    !all_whitespace(bytes, start.raw as usize, offset.raw as usize)
}

/// Whether code follows `offset` on its line; a trailing comment does not count.
pub fn has_trailing_content(offset: TextSize, source: &str) -> (r: bool)
    requires
        offset.raw <= source.spec_bytes().len(),
        source.spec_bytes().len() <= u32::MAX,
    ensures
        r == trailing_content(source.spec_bytes(), offset.raw as int),
{
    let end = source.line_end(offset).raw as usize;
    proof {
        lemma_line_end_bounds(source.spec_bytes(), offset.raw as int);
    }
    let bytes = source.as_bytes();
    let mut k = offset.raw as usize;
    while k < end
        invariant
            bytes@ == source.spec_bytes(),
            offset.raw <= k <= end <= bytes@.len(),
            content_before_comment(bytes@, k as int, end as int) == trailing_content(
                bytes@,
                offset.raw as int,
            ),
        decreases end - k,
    {
        let x = bytes[k];
        if !(x == 32 || x == 9 || x == 12) {
            return x != 35;
        }
        k += 1;
    }
    false
}

} // verus!
