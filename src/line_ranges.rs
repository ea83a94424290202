//! Line-boundary queries that scan the text directly, without building an index: for
//! one-off lookups around a single offset.
use vstd::prelude::*;
use vstd::string::StringSliceAdditionalSpecFns;

use crate::text_model::{bom_len, has_bom, is_newline_byte};
use crate::text_size::{TextRange, TextSize};

verus! {

/// The start of the line holding offset `o`: just after the last `\n` or `\r` before `o`,
/// or the start of the content (after a byte-order mark) when there is none.
pub open spec fn line_start_of(b: Seq<u8>, o: int) -> int
    decreases o,
{
    if o <= 0 {
        bom_len(b)
    } else if is_newline_byte(b[o - 1]) {
        o
    } else {
        line_start_of(b, o - 1)
    }
}

/// The offset of the first `\n` or `\r` at or after `o`, or the end of the text.
pub open spec fn line_end_of(b: Seq<u8>, o: int) -> int
    decreases b.len() - o,
{
    if o >= b.len() {
        b.len() as int
    } else if is_newline_byte(b[o]) {
        o
    } else {
        line_end_of(b, o + 1)
    }
}

/// The offset just after the line terminator at or after `o` (two bytes for `\r\n`), or the
/// end of the text.
pub open spec fn full_line_end_of(b: Seq<u8>, o: int) -> int {
    let e = line_end_of(b, o);
    if e >= b.len() {
        b.len() as int
    } else if b[e] == 13 && e + 1 < b.len() && b[e + 1] == 10 {
        e + 2
    } else {
        e + 1
    }
}

pub open spec fn contains_break(b: Seq<u8>, from: int, to: int) -> bool {
    exists|k: int| from <= k < to && is_newline_byte(#[trigger] b[k])
}

/// Whether a line break begins at `k` when counting from `from`: a `\r`, or a `\n` that does
/// not complete a `\r\n` pair begun inside the counted span.
pub open spec fn break_begins_at(b: Seq<u8>, from: int, k: int) -> bool {
    b[k] == 13 || (b[k] == 10 && !(k > from && b[k - 1] == 13))
}

/// The number of line breaks that begin in `[from, to)`.
pub open spec fn breaks_in(b: Seq<u8>, from: int, to: int) -> nat
    decreases to - from,
{
    if to <= from {
        0
    } else {
        breaks_in(b, from, to - 1) + if break_begins_at(b, from, to - 1) {
            1nat
        } else {
            0nat
        }
    }
}

pub proof fn lemma_line_start_bounds(b: Seq<u8>, o: int)
    requires
        0 <= o <= b.len(),
    ensures
        line_start_of(b, o) <= if o >= bom_len(b) {
            o
        } else {
            bom_len(b)
        },
        0 <= line_start_of(b, o),
    decreases o,
{
    if o > 0 && !is_newline_byte(b[o - 1]) {
        lemma_line_start_bounds(b, o - 1);
    }
}

pub proof fn lemma_line_end_bounds(b: Seq<u8>, o: int)
    requires
        0 <= o <= b.len(),
    ensures
        o <= line_end_of(b, o) <= b.len(),
        has_bom(b) && o <= 3 ==> line_end_of(b, o) >= 3,
        line_end_of(b, o) <= full_line_end_of(b, o) <= b.len(),
    decreases b.len() - o,
{
    if o < b.len() && !is_newline_byte(b[o]) {
        lemma_line_end_bounds(b, o + 1);
    }
}

/// Queries on the lines of a text that scan its bytes.
pub trait LineRanges {
    /// The bytes of the text.
    spec fn text_bytes(&self) -> Seq<u8>;

    /// The start of the line holding `offset`.
    fn line_start(&self, offset: TextSize) -> (r: TextSize)
        requires
            offset.raw <= self.text_bytes().len(),
        ensures
            r.raw == line_start_of(self.text_bytes(), offset.raw as int),
    ;

    /// Where the content starts: after a leading byte-order mark, if any.
    fn bom_start_offset(&self) -> (r: TextSize)
        ensures
            r.raw == bom_len(self.text_bytes()),
    ;

    fn is_at_start_of_line(&self, offset: TextSize) -> (r: bool)
        requires
            offset.raw <= self.text_bytes().len(),
        ensures
            r == (line_start_of(self.text_bytes(), offset.raw as int) == offset.raw),
    ;

    /// The end of the line holding `offset`, after its terminator.
    fn full_line_end(&self, offset: TextSize) -> (r: TextSize)
        requires
            offset.raw <= self.text_bytes().len(),
            self.text_bytes().len() <= u32::MAX,
        ensures
            r.raw == full_line_end_of(self.text_bytes(), offset.raw as int),
    ;

    /// The end of the line holding `offset`, before its terminator.
    fn line_end(&self, offset: TextSize) -> (r: TextSize)
        requires
            offset.raw <= self.text_bytes().len(),
            self.text_bytes().len() <= u32::MAX,
        ensures
            r.raw == line_end_of(self.text_bytes(), offset.raw as int),
    ;

    /// The line holding `offset`, with its terminator.
    fn full_line_range(&self, offset: TextSize) -> (r: TextRange)
        requires
            offset.raw <= self.text_bytes().len(),
            self.text_bytes().len() <= u32::MAX,
        ensures
            r.spec_start() == line_start_of(self.text_bytes(), offset.raw as int),
            r.spec_end() == full_line_end_of(self.text_bytes(), offset.raw as int),
    ;

    /// The line holding `offset`, without its terminator.
    fn line_range(&self, offset: TextSize) -> (r: TextRange)
        requires
            offset.raw <= self.text_bytes().len(),
            self.text_bytes().len() <= u32::MAX,
        ensures
            r.spec_start() == line_start_of(self.text_bytes(), offset.raw as int),
            r.spec_end() == line_end_of(self.text_bytes(), offset.raw as int),
    ;

    /// The lines that `range` touches, with the terminator of the last.
    fn full_lines_range(&self, range: TextRange) -> (r: TextRange)
        requires
            range.spec_end() <= self.text_bytes().len(),
            self.text_bytes().len() <= u32::MAX,
        ensures
            r.spec_start() == line_start_of(self.text_bytes(), range.spec_start() as int),
            r.spec_end() == full_line_end_of(self.text_bytes(), range.spec_end() as int),
    ;

    /// The lines that `range` touches, without the terminator of the last.
    fn lines_range(&self, range: TextRange) -> (r: TextRange)
        requires
            range.spec_end() <= self.text_bytes().len(),
            self.text_bytes().len() <= u32::MAX,
        ensures
            r.spec_start() == line_start_of(self.text_bytes(), range.spec_start() as int),
            r.spec_end() == line_end_of(self.text_bytes(), range.spec_end() as int),
    ;

    /// Whether a `\n` or `\r` lies in `range`.
    fn contains_line_break(&self, range: TextRange) -> (r: bool)
        requires
            range.spec_end() <= self.text_bytes().len(),
        ensures
            r == contains_break(self.text_bytes(), range.spec_start() as int, range.spec_end() as int),
    ;

    /// The number of line breaks that begin inside `range`, a `\r\n` pair counting once.
    fn count_lines(&self, range: TextRange) -> (r: u32)
        requires
            range.spec_end() <= self.text_bytes().len(),
        ensures
            r == breaks_in(self.text_bytes(), range.spec_start() as int, range.spec_end() as int),
    ;
}

impl LineRanges for str {
    open spec fn text_bytes(&self) -> Seq<u8> {
        self.spec_bytes()
    }

    fn line_start(&self, offset: TextSize) -> (r: TextSize) {
        let bytes = self.as_bytes();
        let mut i = offset.raw as usize;
        while i > 0 && !(bytes[i - 1] == 10 || bytes[i - 1] == 13)
            invariant
                bytes@ == self.spec_bytes(),
                i <= offset.raw <= bytes@.len(),
                line_start_of(bytes@, i as int) == line_start_of(bytes@, offset.raw as int),
            decreases i,
        {
            i -= 1;
        }
        if i > 0 {
            TextSize { raw: i as u32 }
        } else {
            self.bom_start_offset()
        }
    }

    fn bom_start_offset(&self) -> (r: TextSize) {
        let bytes = self.as_bytes();
        if bytes.len() >= 3 && bytes[0] == 0xef && bytes[1] == 0xbb && bytes[2] == 0xbf {
            TextSize { raw: 3 }
        } else {
            TextSize { raw: 0 }
        }
    }

    fn is_at_start_of_line(&self, offset: TextSize) -> (r: bool) {
        self.line_start(offset).raw == offset.raw
    }

    fn full_line_end(&self, offset: TextSize) -> (r: TextSize) {
        let bytes = self.as_bytes();
        let e = self.line_end(offset).raw as usize;
        if e >= bytes.len() {
            TextSize { raw: bytes.len() as u32 }
        } else if bytes[e] == 13 && e + 1 < bytes.len() && bytes[e + 1] == 10 {
            TextSize { raw: (e + 2) as u32 }
        } else {
            TextSize { raw: (e + 1) as u32 }
        }
    }

    fn line_end(&self, offset: TextSize) -> (r: TextSize) {
        let bytes = self.as_bytes();
        let mut i = offset.raw as usize;
        while i < bytes.len() && !(bytes[i] == 10 || bytes[i] == 13)
            invariant
                bytes@ == self.spec_bytes(),
                offset.raw <= i <= bytes@.len(),
                bytes@.len() <= u32::MAX,
                line_end_of(bytes@, i as int) == line_end_of(bytes@, offset.raw as int),
            decreases bytes@.len() - i,
        {
            i += 1;
        }
        TextSize { raw: i as u32 }
    }

    fn full_line_range(&self, offset: TextSize) -> (r: TextRange) {
        proof {
            lemma_line_start_bounds(self.spec_bytes(), offset.raw as int);
            lemma_line_end_bounds(self.spec_bytes(), offset.raw as int);
        }
        TextRange::new(self.line_start(offset), self.full_line_end(offset))
    }

    fn line_range(&self, offset: TextSize) -> (r: TextRange) {
        proof {
            lemma_line_start_bounds(self.spec_bytes(), offset.raw as int);
            lemma_line_end_bounds(self.spec_bytes(), offset.raw as int);
        }
        TextRange::new(self.line_start(offset), self.line_end(offset))
    }

    fn full_lines_range(&self, range: TextRange) -> (r: TextRange) {
        let start = range.start();
        let end = range.end();
        proof {
            lemma_line_start_bounds(self.spec_bytes(), start.raw as int);
            lemma_line_end_bounds(self.spec_bytes(), end.raw as int);
            if has_bom(self.spec_bytes()) && start.raw < 3 && end.raw > 3 {
                lemma_line_end_bounds(self.spec_bytes(), 3);
            }
        }
        TextRange::new(self.line_start(start), self.full_line_end(end))
    }

    fn lines_range(&self, range: TextRange) -> (r: TextRange) {
        let start = range.start();
        let end = range.end();
        proof {
            lemma_line_start_bounds(self.spec_bytes(), start.raw as int);
            lemma_line_end_bounds(self.spec_bytes(), end.raw as int);
        }
        TextRange::new(self.line_start(start), self.line_end(end))
    }

    fn contains_line_break(&self, range: TextRange) -> (r: bool) {
        let bytes = self.as_bytes();
        let start = range.start().raw as usize;
        let end = range.end().raw as usize;
        let mut k = start;
        while k < end
            invariant
                bytes@ == self.spec_bytes(),
                start <= k <= end <= bytes@.len(),
                start == range.spec_start(),
                end == range.spec_end(),
                !contains_break(bytes@, start as int, k as int),
            decreases end - k,
        {
            if bytes[k] == 10 || bytes[k] == 13 {
                assert(is_newline_byte(bytes@[k as int]));
                return true;
            }
            k += 1;
        }
        false
    }

    fn count_lines(&self, range: TextRange) -> (r: u32) {
        let bytes = self.as_bytes();
        let start = range.start().raw as usize;
        let end = range.end().raw as usize;
        let mut k = start;
        let mut count: u32 = 0;
        while k < end
            invariant
                bytes@ == self.spec_bytes(),
                start <= k <= end <= bytes@.len(),
                end <= u32::MAX,
                count == breaks_in(bytes@, start as int, k as int),
                count <= k - start,
            decreases end - k,
        {
            if bytes[k] == 13 || (bytes[k] == 10 && !(k > start && bytes[k - 1] == 13)) {
                count += 1;
            }
            k += 1;
        }
        count
    }
}

} // verus!
