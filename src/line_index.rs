//! A precomputed, binary-searchable table of line starts for one text, with conversion
//! between byte offsets and line/column positions in UTF-8, UTF-16 and UTF-32 units.
use vstd::prelude::*;
use vstd::string::StringSliceAdditionalSpecFns;

use crate::text_model::{
    all_ascii, has_bom, is_char_start, is_line_of, lemma_line_of_unique, lemma_line_starts_well_formed,
    line_end_in, line_of, line_start_in, line_starts_of, line_starts_upto, starts_well_formed,
};
use crate::text_size::{TextRange, TextSize};

verus! {

/// A one-based index, for user-facing line and column numbers. Never zero.
#[derive(Clone, Copy, Debug, PartialEq, Eq, PartialOrd, Ord, Hash, Structural)]
pub struct OneIndexed(usize);

impl View for OneIndexed {
    type V = nat;

    closed spec fn view(&self) -> nat {
        self.0 as nat
    }
}

impl OneIndexed {
    #[verifier::type_invariant]
    pub open spec fn positive(self) -> bool {
        self@ >= 1
    }

    /// `None` for zero, the index `value` otherwise.
    pub fn new(value: usize) -> (r: Option<OneIndexed>)
        ensures
            value == 0 ==> r.is_none(),
            value != 0 ==> (r matches Some(x) && x@ == value),
    {
        if value == 0 {
            None
        } else {
            Some(OneIndexed(value))
        }
    }

    /// The one-based index for the zero-based `value`, saturating at `usize::MAX`.
    pub fn from_zero_indexed(value: usize) -> (r: OneIndexed)
        ensures
            value < usize::MAX ==> r@ == value + 1,
            value == usize::MAX ==> r@ == usize::MAX,
    {
        if value < usize::MAX {
            OneIndexed(value + 1)
        } else {
            OneIndexed(usize::MAX)
        }
    }

    pub fn get(self) -> (r: usize)
        ensures
            r == self@,
            r >= 1,
    {
        proof {
            use_type_invariant(&self);
        }
        self.0
    }

    pub fn to_zero_indexed(self) -> (r: usize)
        ensures
            r == self@ - 1,
    {
        proof {
            use_type_invariant(&self);
        }
        self.0 - 1
    }

    /// Adds `rhs`, saturating at `usize::MAX`.
    pub fn saturating_add(self, rhs: usize) -> (r: OneIndexed)
        ensures
            self@ + rhs <= usize::MAX ==> r@ == self@ + rhs,
            self@ + rhs > usize::MAX ==> r@ == usize::MAX,
    {
        proof {
            use_type_invariant(&self);
        }
        if rhs <= usize::MAX - self.0 {
            OneIndexed(self.0 + rhs)
        } else {
            OneIndexed(usize::MAX)
        }
    }

    /// Subtracts `rhs`, saturating at one.
    pub fn saturating_sub(self, rhs: usize) -> (r: OneIndexed)
        ensures
            rhs < self@ ==> r@ == self@ - rhs,
            rhs >= self@ ==> r@ == 1,
    {
        if rhs < self.0 {
            OneIndexed(self.0 - rhs)
        } else {
            OneIndexed(1)
        }
    }

    /// Adds `rhs`; `None` on overflow.
    pub fn checked_add(self, rhs: OneIndexed) -> (r: Option<OneIndexed>)
        ensures
            self@ + rhs@ <= usize::MAX ==> (r matches Some(x) && x@ == self@ + rhs@),
            self@ + rhs@ > usize::MAX ==> r.is_none(),
    {
        proof {
            use_type_invariant(&self);
            use_type_invariant(&rhs);
        }
        if rhs.0 <= usize::MAX - self.0 {
            Some(OneIndexed(self.0 + rhs.0))
        } else {
            None
        }
    }

    /// Subtracts `rhs`; `None` when the difference is not positive.
    pub fn checked_sub(self, rhs: OneIndexed) -> (r: Option<OneIndexed>)
        ensures
            rhs@ < self@ ==> (r matches Some(x) && x@ == self@ - rhs@),
            rhs@ >= self@ ==> r.is_none(),
    {
        if rhs.0 < self.0 {
            Some(OneIndexed(self.0 - rhs.0))
        } else {
            None
        }
    }
}

/// The unit in which a character offset within a line is counted.
#[derive(Clone, Copy, Debug, PartialEq, Eq, Structural)]
pub enum PositionEncoding {
    /// UTF-8 bytes.
    Utf8,
    /// UTF-16 code units: characters outside the Basic Multilingual Plane count twice.
    Utf16,
    /// Unicode scalar values.
    Utf32,
}

/// Code units that the byte `x` contributes in `enc`: one per character (two for a
/// four-byte character in UTF-16), and one per byte in UTF-8.
pub open spec fn byte_units(x: u8, enc: PositionEncoding) -> nat {
    match enc {
        PositionEncoding::Utf8 => 1,
        PositionEncoding::Utf16 => if !is_char_start(x) {
            0
        } else if x >= 0xf0 {
            2
        } else {
            1
        },
        PositionEncoding::Utf32 => if is_char_start(x) {
            1
        } else {
            0
        },
    }
}

/// The number of code units of `enc` in the bytes `s`.
pub open spec fn units_in(s: Seq<u8>, enc: PositionEncoding) -> nat
    decreases s.len(),
{
    if s.len() == 0 {
        0
    } else {
        units_in(s.drop_last(), enc) + byte_units(s.last(), enc)
    }
}

/// A one-based line and a one-based column counted in characters.
#[derive(Clone, Copy, Debug, PartialEq, Eq, PartialOrd, Ord, Hash, Structural)]
pub struct LineColumn {
    pub line: OneIndexed,
    pub column: OneIndexed,
}

/// A one-based line and a one-based character offset in some [`PositionEncoding`].
#[derive(Clone, Copy, Debug, PartialEq, Eq, PartialOrd, Ord, Hash, Structural)]
pub struct SourceLocation {
    pub line: OneIndexed,
    pub character_offset: OneIndexed,
}

impl Default for LineColumn {
    fn default() -> (r: LineColumn)
        ensures
            r.line@ == 1,
            r.column@ == 1,
    {
        LineColumn { line: OneIndexed(1), column: OneIndexed(1) }
    }
}

impl Default for SourceLocation {
    fn default() -> (r: SourceLocation)
        ensures
            r.line@ == 1,
            r.character_offset@ == 1,
    {
        SourceLocation { line: OneIndexed(1), character_offset: OneIndexed(1) }
    }
}

#[derive(Clone, Copy, Debug, PartialEq, Eq, Structural)]
enum IndexKind {
    Ascii,
    Utf8,
}

pub open spec fn raws(v: Seq<TextSize>) -> Seq<int> {
    v.map_values(|t: TextSize| t.raw as int)
}

/// Whether the byte at `k` is where a walk from `start` towards `target` code units stops:
/// a character begins there and the code units before it reach the target.
pub open spec fn walk_stops_at(
    b: Seq<u8>,
    start: int,
    k: int,
    target: nat,
    enc: PositionEncoding,
) -> bool {
    is_char_start(b[k]) && units_in(b.subrange(start, k), enc) >= target
}

/// The table of line starts of one text, and whether that text is pure ASCII.
#[derive(Debug)]
pub struct LineIndex {
    line_starts: Vec<TextSize>,
    kind: IndexKind,
}

impl LineIndex {
    #[verifier::type_invariant]
    pub open spec fn well_formed(self) -> bool {
        starts_well_formed(self.spec_starts())
    }

    pub closed spec fn spec_starts(self) -> Seq<int> {
        raws(self.line_starts@)
    }

    pub closed spec fn spec_is_ascii(self) -> bool {
        self.kind == IndexKind::Ascii
    }

    /// Whether this is the index of the text with bytes `b`.
    pub open spec fn indexes(self, b: Seq<u8>) -> bool {
        &&& b.len() <= u32::MAX
        &&& self.spec_starts() == line_starts_of(b)
        &&& self.spec_is_ascii() == all_ascii(b)
    }

    /// Builds the index of `text` in one pass over its bytes.
    pub fn from_source_text(text: &str) -> (r: LineIndex)
        requires
            text.spec_bytes().len() <= u32::MAX,
        ensures
            r.indexes(text.spec_bytes()),
    {
        let bytes = text.as_bytes();
        let ghost b = bytes@;
        let mut line_starts: Vec<TextSize> = Vec::new();
        line_starts.push(TextSize { raw: 0 });
        let mut utf8 = false;
        let mut i: usize = 0;
        assert(raws(line_starts@) =~= line_starts_upto(b, 0));
        while i < bytes.len()
            invariant
                b == bytes@,
                b.len() <= u32::MAX,
                i <= b.len(),
                raws(line_starts@) == line_starts_upto(b, i as int),
                utf8 == !(forall|k: int| 0 <= k < i ==> b[k] < 0x80),
            decreases b.len() - i,
        {
            let byte = bytes[i];
            if byte >= 0x80 {
                utf8 = true;
            }
            if byte == 10 || (byte == 13 && !(i + 1 < bytes.len() && bytes[i + 1] == 10)) {
                line_starts.push(TextSize { raw: (i + 1) as u32 });
            }
            proof {
                assert(raws(line_starts@) =~= line_starts_upto(b, i + 1));
            }
            i += 1;
        }
        proof {
            lemma_line_starts_well_formed(b);
        }
        let kind = if utf8 {
            IndexKind::Utf8
        } else {
            IndexKind::Ascii
        };
        LineIndex { line_starts, kind }
    }

    /// The number of lines, counting the one after a final terminator.
    pub fn line_count(&self) -> (r: usize)
        ensures
            r == self.spec_starts().len(),
    {
        self.line_starts.len()
    }

    /// Whether the indexed text is pure ASCII.
    pub fn is_ascii(&self) -> (r: bool)
        ensures
            r == self.spec_is_ascii(),
    {
        self.kind == IndexKind::Ascii
    }

    /// The table of line starts.
    pub fn line_starts(&self) -> (r: &[TextSize])
        ensures
            raws(r@) == self.spec_starts(),
    {
        self.line_starts.as_slice()
    }

    /// The one-based line that contains `offset`, found by binary search.
    pub fn line_index(&self, offset: TextSize) -> (r: OneIndexed)
        ensures
            r@ == line_of(self.spec_starts(), offset.raw as int) + 1,
            is_line_of(self.spec_starts(), offset.raw as int, r@ - 1),
    {
        proof {
            use_type_invariant(self);
        }
        let ghost s = self.spec_starts();
        let starts = &self.line_starts;
        let mut lo: usize = 0;
        let mut hi: usize = starts.len();
        assert(s[0] == 0);
        while hi - lo > 1
            invariant
                s == raws(starts@),
                starts_well_formed(s),
                0 <= lo < hi <= s.len(),
                s[lo as int] <= offset.raw,
                hi < s.len() ==> offset.raw < s[hi as int],
            decreases hi - lo,
        {
            let mid = lo + (hi - lo) / 2;
            if starts[mid].raw <= offset.raw {
                lo = mid;
            } else {
                hi = mid;
            }
        }
        proof {
            assert(is_line_of(s, offset.raw as int, lo as int));
            lemma_line_of_unique(s, offset.raw as int, lo as int);
        }
        OneIndexed(lo + 1)
    }

    /// The offset at which `line` starts; the line just past the last starts at the end of the
    /// text.
    pub fn line_start(&self, line: OneIndexed, contents: &str) -> (r: TextSize)
        requires
            self.indexes(contents.spec_bytes()),
            line@ - 1 <= self.spec_starts().len(),
        ensures
            r.raw == line_start_in(
                self.spec_starts(),
                contents.spec_bytes().len() as int,
                line@ - 1,
            ),
    {
        let row_index = line.to_zero_indexed();
        if row_index == self.line_starts.len() {
            TextSize { raw: contents.len() as u32 }
        } else {
            self.line_starts[row_index]
        }
    }

    /// The offset at which `line` ends, after its terminator.
    pub fn line_end(&self, line: OneIndexed, contents: &str) -> (r: TextSize)
        requires
            self.indexes(contents.spec_bytes()),
        ensures
            r.raw == line_end_in(self.spec_starts(), contents.spec_bytes().len() as int, line@ - 1),
    {
        proof {
            use_type_invariant(self);
        }
        let row_index = line.to_zero_indexed();
        if row_index >= self.line_starts.len() - 1 {
            TextSize { raw: contents.len() as u32 }
        } else {
            self.line_starts[row_index + 1]
        }
    }

    /// The offset at which `line` ends, before its terminator. The whole terminator is
    /// dropped: two bytes for `\r\n`, one for a lone `\n` or `\r`. The last line has no
    /// terminator and ends at the end of the text.
    pub fn line_end_exclusive(&self, line: OneIndexed, contents: &str) -> (r: TextSize)
        requires
            self.indexes(contents.spec_bytes()),
        ensures
            r.raw == line_end_exclusive_in(self.spec_starts(), contents.spec_bytes(), line@ - 1),
    {
        proof {
            use_type_invariant(self);
            lemma_line_starts_well_formed(contents.spec_bytes());
        }
        let row_index = line.to_zero_indexed();
        if row_index >= self.line_starts.len() - 1 {
            TextSize { raw: contents.len() as u32 }
        } else {
            let end = self.line_starts[row_index + 1].raw;
            assert(self.spec_starts()[0] < self.spec_starts()[row_index + 1]);
            let bytes = contents.as_bytes();
            if end >= 2 && bytes[(end - 2) as usize] == 13 && bytes[(end - 1) as usize] == 10 {
                TextSize { raw: end - 2 }
            } else {
                TextSize { raw: end - 1 }
            }
        }
    }

    /// The range of `line` including its terminator; the line just past the last is the empty
    /// range at the end of the text.
    pub fn line_range(&self, line: OneIndexed, contents: &str) -> (r: TextRange)
        requires
            self.indexes(contents.spec_bytes()),
            line@ - 1 <= self.spec_starts().len(),
        ensures
            ({
                let s = self.spec_starts();
                let n = contents.spec_bytes().len() as int;
                &&& r.spec_start() == line_start_in(s, n, line@ - 1)
                &&& r.spec_end() == if line@ - 1 == s.len() {
                    n
                } else {
                    line_end_in(s, n, line@ - 1)
                }
            }),
    {
        proof {
            use_type_invariant(self);
            use_type_invariant(&line);
            lemma_line_starts_well_formed(contents.spec_bytes());
        }
        if self.line_starts.len() == line.to_zero_indexed() {
            TextRange::empty(TextSize { raw: contents.len() as u32 })
        } else {
            let start = self.line_start(line, contents);
            let end = self.line_end(line, contents);
            proof {
                let s = self.spec_starts();
                if line@ < s.len() {
                    assert(s[line@ - 1] < s[line@ as int]);
                }
            }
            TextRange::new(start, end)
        }
    }
}

/// Counts the code units of `enc` in `bytes[from..to]`.
fn count_units(bytes: &[u8], from: usize, to: usize, enc: PositionEncoding) -> (r: u64)
    requires
        from <= to <= bytes@.len(),
        to <= u32::MAX,
    ensures
        r == units_in(bytes@.subrange(from as int, to as int), enc),
{
    let mut j = from;
    let mut count: u64 = 0;
    assert(bytes@.subrange(from as int, from as int).len() == 0);
    while j < to
        invariant
            from <= j <= to <= bytes@.len(),
            to <= u32::MAX,
            count == units_in(bytes@.subrange(from as int, j as int), enc),
            count <= 2 * (j - from),
        decreases to - j,
    {
        let x = bytes[j];
        let w: u64 = match enc {
            PositionEncoding::Utf8 => 1,
            PositionEncoding::Utf16 => if 0x80 <= x && x <= 0xbf {
                0
            } else if x >= 0xf0 {
                2
            } else {
                1
            },
            PositionEncoding::Utf32 => if 0x80 <= x && x <= 0xbf {
                0
            } else {
                1
            },
        };
        proof {
            let t = bytes@.subrange(from as int, j + 1);
            assert(t.drop_last() =~= bytes@.subrange(from as int, j as int));
            assert(t.last() == x);
        }
        count = count + w;
        j += 1;
    }
    count
}

/// Walks `bytes[start..end]` from `start` and stops at the first character whose preceding
/// code units reach `target`, or at `end`.
fn walk_units(bytes: &[u8], start: usize, end: usize, target: usize, enc: PositionEncoding) -> (r:
    usize)
    requires
        start <= end <= bytes@.len(),
        end <= u32::MAX,
    ensures
        start <= r <= end,
        forall|k: int| start <= k < r ==> !#[trigger] walk_stops_at(bytes@, start as int, k, target as nat, enc),
        r < end ==> walk_stops_at(bytes@, start as int, r as int, target as nat, enc),
{
    let mut j = start;
    let mut count: u64 = 0;
    let mut found = false;
    assert(bytes@.subrange(start as int, start as int).len() == 0);
    while j < end && !found
        invariant
            start <= j <= end <= bytes@.len(),
            end <= u32::MAX,
            count == units_in(bytes@.subrange(start as int, j as int), enc),
            count <= 2 * (j - start),
            forall|k: int|
                start <= k < j ==> !#[trigger] walk_stops_at(bytes@, start as int, k, target as nat, enc),
            found ==> j < end && walk_stops_at(bytes@, start as int, j as int, target as nat, enc),
        decreases end - j + if found { 0int } else { 1int },
    {
        let x = bytes[j];
        let char_start = !(0x80 <= x && x <= 0xbf);
        if char_start && count >= target as u64 {
            found = true;
        } else {
            let w: u64 = match enc {
                PositionEncoding::Utf8 => 1,
                PositionEncoding::Utf16 => if !char_start {
                    0
                } else if x >= 0xf0 {
                    2
                } else {
                    1
                },
                PositionEncoding::Utf32 => if char_start {
                    1
                } else {
                    0
                },
            };
            proof {
                let t = bytes@.subrange(start as int, j + 1);
                assert(t.drop_last() =~= bytes@.subrange(start as int, j as int));
                assert(t.last() == x);
            }
            count = count + w;
            j += 1;
        }
    }
    j
}

/// The one-based form of the zero-based `n`, saturating at `usize::MAX`.
pub open spec fn one_based(n: nat) -> nat {
    if n < usize::MAX {
        n + 1
    } else {
        usize::MAX as nat
    }
}

/// Whether the text begins with a byte-order mark.
pub fn starts_with_bom(text: &str) -> (r: bool)
    ensures
        r == has_bom(text.spec_bytes()),
{
    let bytes = text.as_bytes();
    bytes.len() >= 3 && bytes[0] == 0xef && bytes[1] == 0xbb && bytes[2] == 0xbf
}

/// The character offset within its line of byte `offset`: the code units of `enc` from the
/// line start to `offset`, or the bytes between them when the text is pure ASCII.
pub open spec fn character_offset_in(
    b: Seq<u8>,
    line_start: int,
    offset: int,
    enc: PositionEncoding,
) -> nat {
    if all_ascii(b) {
        (offset - line_start) as nat
    } else {
        units_in(b.subrange(line_start, offset), enc)
    }
}

/// The one-based character offset of `o` within its line, counted in `enc`.
pub open spec fn location_character(s: Seq<int>, b: Seq<u8>, o: int, enc: PositionEncoding) -> nat {
    one_based(character_offset_in(b, s[line_of(s, o)], o, enc))
}

/// The one-based column of `o` in characters; on the first line a leading byte-order mark is
/// not counted.
pub open spec fn column_of(s: Seq<int>, b: Seq<u8>, o: int) -> nat {
    let c = location_character(s, b, o, PositionEncoding::Utf32);
    if line_of(s, o) == 0 && has_bom(b) && c > 1 {
        (c - 1) as nat
    } else if line_of(s, o) == 0 && has_bom(b) {
        1
    } else {
        c
    }
}

/// The end of zero-based line `row` without its terminator (`\r\n`, `\n` or `\r`).
pub open spec fn line_end_exclusive_in(s: Seq<int>, b: Seq<u8>, row: int) -> int {
    let e = line_end_in(s, b.len() as int, row);
    if row + 1 >= s.len() {
        b.len() as int
    } else if e >= 2 && b[e - 2] == 13 && b[e - 1] == 10 {
        e - 2
    } else {
        e - 1
    }
}

impl LineIndex {
    /// The one-based line of `offset` and its one-based character offset in `encoding`.
    pub fn source_location(&self, offset: TextSize, text: &str, encoding: PositionEncoding) -> (r:
        SourceLocation)
        requires
            self.indexes(text.spec_bytes()),
            offset.raw <= text.spec_bytes().len(),
        ensures
            r.line@ == line_of(self.spec_starts(), offset.raw as int) + 1,
            r.character_offset@ == location_character(
                self.spec_starts(),
                text.spec_bytes(),
                offset.raw as int,
                encoding,
            ),
    {
        let line = self.line_index(offset);
        let line_start = self.line_start(line, text);
        if self.is_ascii() {
            return SourceLocation {
                line,
                character_offset: OneIndexed::from_zero_indexed(
                    (offset.raw - line_start.raw) as usize,
                ),
            };
        }
        let bytes = text.as_bytes();
        let character: usize = match encoding {
            PositionEncoding::Utf8 => (offset.raw - line_start.raw) as usize,
            _ => {
                let units = count_units(
                    bytes,
                    line_start.raw as usize,
                    offset.raw as usize,
                    encoding,
                );
                if units < usize::MAX as u64 {
                    units as usize
                } else {
                    usize::MAX
                }
            },
        };
        proof {
            if encoding == PositionEncoding::Utf8 {
                lemma_utf8_units(bytes@.subrange(line_start.raw as int, offset.raw as int));
            }
        }
        SourceLocation { line, character_offset: OneIndexed::from_zero_indexed(character) }
    }

    /// The one-based line and column of `offset`, with columns counted in characters. On the
    /// first line a leading byte-order mark is not counted.
    pub fn line_column(&self, offset: TextSize, content: &str) -> (r: LineColumn)
        requires
            self.indexes(content.spec_bytes()),
            offset.raw <= content.spec_bytes().len(),
        ensures
            r.line@ == line_of(self.spec_starts(), offset.raw as int) + 1,
            r.column@ == column_of(self.spec_starts(), content.spec_bytes(), offset.raw as int),
    {
        let location = self.source_location(offset, content, PositionEncoding::Utf32);
        let column = if location.line.to_zero_indexed() == 0 && starts_with_bom(content) {
            location.character_offset.saturating_sub(1)
        } else {
            location.character_offset
        };
        LineColumn { line: location.line, column }
    }

    /// The byte offset of `position`, the inverse of [`LineIndex::source_location`]. A line
    /// past the end gives the end of the text; a character offset past the end of its line
    /// gives the end of that line.
    pub fn offset(&self, position: SourceLocation, text: &str, position_encoding: PositionEncoding) -> (r:
        TextSize)
        requires
            self.indexes(text.spec_bytes()),
        ensures
            ({
                let b = text.spec_bytes();
                let s = self.spec_starts();
                let row = position.line@ - 1;
                let target = position.character_offset@ - 1;
                if row > s.len() {
                    r.raw == b.len()
                } else {
                    let start = line_start_in(s, b.len() as int, row);
                    let end = if row == s.len() {
                        b.len() as int
                    } else {
                        line_end_in(s, b.len() as int, row)
                    };
                    &&& start <= r.raw <= end
                    &&& if all_ascii(b) || position_encoding == PositionEncoding::Utf8 {
                        r.raw == vstd::math::min(start + target, end)
                    } else {
                        &&& forall|k: int|
                            start <= k < r.raw ==> !#[trigger] walk_stops_at(b, start, k, target as nat, position_encoding)
                        &&& r.raw < end ==> walk_stops_at(b, start, r.raw as int, target as nat, position_encoding)
                    }
                }
            }),
    {
        if position.line.to_zero_indexed() > self.line_starts.len() {
            return TextSize { raw: text.len() as u32 };
        }
        let line_range = self.line_range(position.line, text);
        proof {
            lemma_line_starts_well_formed(text.spec_bytes());
        }
        let start = line_range.start();
        let end = line_range.end();
        let character_offset = position.character_offset.to_zero_indexed();
        if self.is_ascii() || matches!(position_encoding, PositionEncoding::Utf8) {
            let line_len = (end.raw - start.raw) as usize;
            let delta = if character_offset < line_len {
                character_offset
            } else {
                line_len
            };
            TextSize { raw: start.raw + delta as u32 }
        } else {
            let bytes = text.as_bytes();
            let stop = walk_units(
                bytes,
                start.raw as usize,
                end.raw as usize,
                character_offset,
                position_encoding,
            );
            TextSize { raw: stop as u32 }
        }
    }
}

proof fn lemma_utf8_units(s: Seq<u8>)
    ensures
        units_in(s, PositionEncoding::Utf8) == s.len(),
    decreases s.len(),
{
    if s.len() > 0 {
        lemma_utf8_units(s.drop_last());
    }
}

impl Clone for LineIndex {
    fn clone(&self) -> (r: LineIndex)
        ensures
            r.spec_starts() == self.spec_starts(),
            r.spec_is_ascii() == self.spec_is_ascii(),
    {
        proof {
            use_type_invariant(self);
        }
        let line_starts = self.line_starts.clone();
        assert(line_starts@ =~= self.line_starts@);
        LineIndex { line_starts, kind: self.kind }
    }
}

} // verus!
