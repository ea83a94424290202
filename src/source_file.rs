//! Text paired with its line index: a borrowed view for position queries, and an owned,
//! named source file built once and shared by its readers.
use vstd::prelude::*;
use vstd::string::StringSliceAdditionalSpecFns;
use vstd::utf8::{encode_utf8, valid_utf8};

use crate::line_index::{
    column_of, line_end_exclusive_in, location_character, LineColumn, LineIndex, OneIndexed,
    PositionEncoding, SourceLocation,
};
use crate::text_model::{
    lemma_line_starts_on_boundaries, lemma_line_starts_well_formed, lemma_on_char_boundary,
    line_end_in, line_of, line_start_in, line_starts_of, on_char_boundary,
};
use crate::text_size::{Ranged, TextRange, TextSize};

verus! {

broadcast use TextRange::lemma_ordered;

/// The part of `text` between byte offsets `start` and `end`, both between characters.
pub fn slice_str(text: &str, start: usize, end: usize) -> (r: &str)
    requires
        start <= end <= text.spec_bytes().len(),
        on_char_boundary(text.spec_bytes(), start as int),
        on_char_boundary(text.spec_bytes(), end as int),
    ensures
        r.spec_bytes() == text.spec_bytes().subrange(start as int, end as int),
{
    broadcast use vstd::utf8::group_utf8_lib;
    broadcast use vstd::utf8::valid_utf8_split;

    let ghost b = text.spec_bytes();
    proof {
        lemma_on_char_boundary(b, start as int);
    }
    let (_, rest) = text.split_at(start);
    proof {
        let tail = b.subrange(start as int, b.len() as int);
        assert(valid_utf8(tail));
        if end < b.len() {
            assert(tail[end - start] == b[end as int]);
        }
        assert(on_char_boundary(tail, end - start));
        lemma_on_char_boundary(tail, end - start);
    }
    let (mid, _) = rest.split_at(end - start);
    assert(mid.spec_bytes() =~= b.subrange(start as int, end as int));
    mid
}

/// Whether bytes `[start, end)` of valid UTF-8 `b` can be cut out as text.
pub open spec fn sliceable(b: Seq<u8>, start: int, end: int) -> bool {
    0 <= start <= end <= b.len() && on_char_boundary(b, start) && on_char_boundary(b, end)
}

/// Lines begin and end between characters.
proof fn lemma_line_sliceable(b: Seq<u8>, row: int)
    requires
        valid_utf8(b),
        0 <= row <= line_starts_of(b).len(),
    ensures
        sliceable(
            b,
            line_start_in(line_starts_of(b), b.len() as int, row),
            if row == line_starts_of(b).len() {
                b.len() as int
            } else {
                line_end_in(line_starts_of(b), b.len() as int, row)
            },
        ),
{
    let s = line_starts_of(b);
    lemma_line_starts_well_formed(b);
    lemma_line_starts_on_boundaries(b);
    if row + 1 < s.len() {
        assert(s[row] < s[row + 1]);
        assert(on_char_boundary(b, s[row + 1]));
    }
    if row < s.len() {
        assert(on_char_boundary(b, s[row]));
        assert(s[row] <= b.len());
    }
}

/// A text together with its line index.
#[derive(Debug)]
pub struct SourceCode<'src, 'index> {
    text: &'src str,
    index: &'index LineIndex,
}

impl<'src, 'index> SourceCode<'src, 'index> {
    #[verifier::type_invariant]
    spec fn matches(self) -> bool {
        self.index.indexes(self.text.spec_bytes())
    }

    /// The bytes of the text.
    pub closed spec fn spec_bytes(self) -> Seq<u8> {
        self.text.spec_bytes()
    }

    /// Pairs `content` with its index.
    pub fn new(content: &'src str, index: &'index LineIndex) -> (r: SourceCode<'src, 'index>)
        requires
            index.indexes(content.spec_bytes()),
        ensures
            r.spec_bytes() == content.spec_bytes(),
    {
        SourceCode { text: content, index }
    }

    /// The one-based line and column of `offset`.
    pub fn line_column(&self, offset: TextSize) -> (r: LineColumn)
        requires
            offset.raw <= self.spec_bytes().len(),
        ensures
            r.line@ == line_of(line_starts_of(self.spec_bytes()), offset.raw as int) + 1,
            r.column@ == column_of(line_starts_of(self.spec_bytes()), self.spec_bytes(), offset.raw as int),
    {
        proof {
            use_type_invariant(self);
        }
        self.index.line_column(offset, self.text)
    }

    /// The one-based line of `offset` and its character offset in `position_encoding`.
    pub fn source_location(&self, offset: TextSize, position_encoding: PositionEncoding) -> (r:
        SourceLocation)
        requires
            offset.raw <= self.spec_bytes().len(),
        ensures
            r.line@ == line_of(line_starts_of(self.spec_bytes()), offset.raw as int) + 1,
            r.character_offset@ == location_character(
                line_starts_of(self.spec_bytes()),
                self.spec_bytes(),
                offset.raw as int,
                position_encoding,
            ),
    {
        proof {
            use_type_invariant(self);
        }
        self.index.source_location(offset, self.text, position_encoding)
    }

    /// The one-based line of `offset`.
    pub fn line_index(&self, offset: TextSize) -> (r: OneIndexed)
        ensures
            r@ == line_of(line_starts_of(self.spec_bytes()), offset.raw as int) + 1,
    {
        proof {
            use_type_invariant(self);
        }
        self.index.line_index(offset)
    }

    /// The text before `offset`.
    pub fn up_to(&self, offset: TextSize) -> (r: &'src str)
        requires
            sliceable(self.spec_bytes(), 0, offset.raw as int),
        ensures
            r.spec_bytes() == self.spec_bytes().subrange(0, offset.raw as int),
    {
        slice_str(self.text, 0, offset.raw as usize)
    }

    /// The text from `offset` on.
    pub fn after(&self, offset: TextSize) -> (r: &'src str)
        requires
            sliceable(self.spec_bytes(), offset.raw as int, self.spec_bytes().len() as int),
        ensures
            r.spec_bytes() == self.spec_bytes().subrange(
                offset.raw as int,
                self.spec_bytes().len() as int,
            ),
    {
        proof {
            use_type_invariant(self);
        }
        slice_str(self.text, offset.raw as usize, self.text.len())
    }

    /// The text of the range of `ranged`.
    pub fn slice<T: Ranged>(&self, ranged: T) -> (r: &'src str)
        requires
            sliceable(
                self.spec_bytes(),
                ranged.spec_range().spec_start() as int,
                ranged.spec_range().spec_end() as int,
            ),
        ensures
            r.spec_bytes() == self.spec_bytes().subrange(
                ranged.spec_range().spec_start() as int,
                ranged.spec_range().spec_end() as int,
            ),
    {
        let range = ranged.range();
        slice_str(self.text, range.start().raw as usize, range.end().raw as usize)
    }

    /// The start of `line`.
    pub fn line_start(&self, line: OneIndexed) -> (r: TextSize)
        requires
            line@ - 1 <= line_starts_of(self.spec_bytes()).len(),
        ensures
            r.raw == line_start_in(
                line_starts_of(self.spec_bytes()),
                self.spec_bytes().len() as int,
                line@ - 1,
            ),
    {
        proof {
            use_type_invariant(self);
        }
        self.index.line_start(line, self.text)
    }

    /// The end of `line`, after its terminator.
    pub fn line_end(&self, line: OneIndexed) -> (r: TextSize)
        ensures
            r.raw == line_end_in(
                line_starts_of(self.spec_bytes()),
                self.spec_bytes().len() as int,
                line@ - 1,
            ),
    {
        proof {
            use_type_invariant(self);
        }
        self.index.line_end(line, self.text)
    }

    /// The end of `line`, before its terminator.
    pub fn line_end_exclusive(&self, line: OneIndexed) -> (r: TextSize)
        ensures
            r.raw == line_end_exclusive_in(
                line_starts_of(self.spec_bytes()),
                self.spec_bytes(),
                line@ - 1,
            ),
    {
        proof {
            use_type_invariant(self);
        }
        self.index.line_end_exclusive(line, self.text)
    }

    /// The range of `line` with its terminator.
    pub fn line_range(&self, line: OneIndexed) -> (r: TextRange)
        requires
            line@ - 1 <= line_starts_of(self.spec_bytes()).len(),
        ensures
            ({
                let s = line_starts_of(self.spec_bytes());
                let n = self.spec_bytes().len() as int;
                &&& r.spec_start() == line_start_in(s, n, line@ - 1)
                &&& r.spec_end() == if line@ - 1 == s.len() {
                    n
                } else {
                    line_end_in(s, n, line@ - 1)
                }
            }),
    {
        proof {
            use_type_invariant(self);
        }
        self.index.line_range(line, self.text)
    }

    /// The text of `index`, with its terminator.
    pub fn line_text(&self, index: OneIndexed) -> (r: &'src str)
        requires
            index@ - 1 <= line_starts_of(self.spec_bytes()).len(),
        ensures
            ({
                let s = line_starts_of(self.spec_bytes());
                let n = self.spec_bytes().len() as int;
                r.spec_bytes() == self.spec_bytes().subrange(
                    line_start_in(s, n, index@ - 1),
                    if index@ - 1 == s.len() {
                        n
                    } else {
                        line_end_in(s, n, index@ - 1)
                    },
                )
            }),
    {
        broadcast use vstd::utf8::group_utf8_lib;

        proof {
            use_type_invariant(self);
            use_type_invariant(&index);
            lemma_line_sliceable(self.spec_bytes(), index@ - 1);
        }
        let range = self.index.line_range(index, self.text);
        slice_str(self.text, range.start().raw as usize, range.end().raw as usize)
    }

    /// The whole text.
    pub fn text(&self) -> (r: &'src str)
        ensures
            r.spec_bytes() == self.spec_bytes(),
    {
        self.text
    }

    /// The number of lines.
    pub fn line_count(&self) -> (r: usize)
        ensures
            r == line_starts_of(self.spec_bytes()).len(),
    {
        proof {
            use_type_invariant(self);
        }
        self.index.line_count()
    }
}

impl<'src, 'index> PartialEq for SourceCode<'src, 'index> {
    /// Two views are equal when their texts are.
    fn eq(&self, other: &SourceCode<'src, 'index>) -> (r: bool) {
        broadcast use vstd::utf8::group_utf8_lib;

        let r = crate::text_eq::str_eq(self.text, other.text);
        proof {
            if self.spec_bytes() == other.spec_bytes() {
                assert(vstd::utf8::decode_utf8(self.text.spec_bytes()) == self.text@);
                assert(vstd::utf8::decode_utf8(other.text.spec_bytes()) == other.text@);
            }
        }
        r
    }
}

impl<'src, 'index> vstd::std_specs::cmp::PartialEqSpecImpl for SourceCode<'src, 'index> {
    open spec fn obeys_eq_spec() -> bool {
        true
    }

    open spec fn eq_spec(&self, other: &SourceCode<'src, 'index>) -> bool {
        self.spec_bytes() == other.spec_bytes()
    }
}

/// The bytes of an owned text.
pub open spec fn string_bytes(s: &String) -> Seq<u8> {
    encode_utf8(s@)
}

/// Collects the parts of a [`SourceFile`]: its name, its text and, optionally, an index of
/// that text computed beforehand.
pub struct SourceFileBuilder {
    name: String,
    code: String,
    index: Option<LineIndex>,
}

impl SourceFileBuilder {
    #[verifier::type_invariant]
    spec fn consistent(self) -> bool {
        &&& string_bytes(&self.code).len() <= u32::MAX
        &&& self.index matches Some(index) ==> index.indexes(string_bytes(&self.code))
    }

    pub closed spec fn spec_name(self) -> Seq<char> {
        self.name@
    }

    pub closed spec fn spec_code(self) -> Seq<char> {
        self.code@
    }

    pub closed spec fn spec_has_index(self) -> bool {
        self.index.is_some()
    }

    /// A builder for the file `name` with text `code`; its index is computed when the file
    /// is finished, unless one is given.
    pub fn new(name: &str, code: &str) -> (r: SourceFileBuilder)
        requires
            code.spec_bytes().len() <= u32::MAX,
        ensures
            r.spec_name() == name@,
            r.spec_code() == code@,
            !r.spec_has_index(),
    {
        SourceFileBuilder { name: name.to_owned(), code: code.to_owned(), index: None }
    }

    /// Uses `index`, which must be the index of the code, instead of computing one.
    pub fn line_index(self, index: LineIndex) -> (r: SourceFileBuilder)
        requires
            index.indexes(encode_utf8(self.spec_code())),
        ensures
            r.spec_name() == self.spec_name(),
            r.spec_code() == self.spec_code(),
            r.spec_has_index(),
    {
        proof {
            use_type_invariant(&self);
        }
        SourceFileBuilder { name: self.name, code: self.code, index: Some(index) }
    }

    /// Uses `index`, which must be the index of the code, instead of computing one.
    pub fn set_line_index(&mut self, index: LineIndex)
        requires
            index.indexes(encode_utf8(old(self).spec_code())),
        ensures
            final(self).spec_name() == old(self).spec_name(),
            final(self).spec_code() == old(self).spec_code(),
            final(self).spec_has_index(),
    {
        proof {
            use_type_invariant(&*self);
        }
        self.index = Some(index);
    }

    /// The source file, with its index computed now if none was given.
    pub fn finish(self) -> (r: SourceFile)
        ensures
            r.spec_name() == self.spec_name(),
            r.spec_code() == self.spec_code(),
    {
        proof {
            use_type_invariant(&self);
        }
        let index = match self.index {
            Some(index) => index,
            None => LineIndex::from_source_text(self.code.as_str()),
        };
        SourceFile { name: self.name, code: self.code, line_index: index }
    }
}

/// A named source text with its line index, computed once when the file is built.
/// Two files are equal when their names and texts are.
#[derive(Debug)]
pub struct SourceFile {
    name: String,
    code: String,
    line_index: LineIndex,
}

impl SourceFile {
    #[verifier::type_invariant]
    spec fn consistent(self) -> bool {
        self.line_index.indexes(string_bytes(&self.code))
    }

    pub closed spec fn spec_name(self) -> Seq<char> {
        self.name@
    }

    pub closed spec fn spec_code(self) -> Seq<char> {
        self.code@
    }

    /// The bytes of the text.
    pub open spec fn spec_bytes(self) -> Seq<u8> {
        encode_utf8(self.spec_code())
    }

    pub fn name(&self) -> (r: &str)
        ensures
            r@ == self.spec_name(),
    {
        self.name.as_str()
    }

    /// The text of `range`.
    pub fn slice(&self, range: TextRange) -> (r: &str)
        requires
            sliceable(self.spec_bytes(), range.spec_start() as int, range.spec_end() as int),
        ensures
            r.spec_bytes() == self.spec_bytes().subrange(
                range.spec_start() as int,
                range.spec_end() as int,
            ),
    {
        slice_str(self.code.as_str(), range.start().raw as usize, range.end().raw as usize)
    }

    /// A view of the text and its index for position queries.
    pub fn to_source_code(&self) -> (r: SourceCode<'_, '_>)
        ensures
            r.spec_bytes() == self.spec_bytes(),
    {
        proof {
            use_type_invariant(self);
        }
        SourceCode::new(self.code.as_str(), &self.line_index)
    }

    /// The index of the text.
    pub fn index(&self) -> (r: &LineIndex)
        ensures
            r.indexes(self.spec_bytes()),
    {
        proof {
            use_type_invariant(self);
        }
        &self.line_index
    }

    pub fn source_text(&self) -> (r: &str)
        ensures
            r@ == self.spec_code(),
    {
        self.code.as_str()
    }
}

/// The lexicographic order of byte strings, which is the order of `str`.
pub open spec fn lex_cmp(a: Seq<u8>, b: Seq<u8>) -> core::cmp::Ordering
    decreases a.len(),
{
    if a.len() == 0 {
        if b.len() == 0 {
            core::cmp::Ordering::Equal
        } else {
            core::cmp::Ordering::Less
        }
    } else if b.len() == 0 {
        core::cmp::Ordering::Greater
    } else if a[0] < b[0] {
        core::cmp::Ordering::Less
    } else if a[0] > b[0] {
        core::cmp::Ordering::Greater
    } else {
        lex_cmp(a.drop_first(), b.drop_first())
    }
}

/// Compares two texts in the order of `str`: byte by byte, a prefix first.
pub fn compare_text(a: &str, b: &str) -> (r: core::cmp::Ordering)
    ensures
        r == lex_cmp(a.spec_bytes(), b.spec_bytes()),
{
    let x = a.as_bytes();
    let y = b.as_bytes();
    let mut i: usize = 0;
    assert(x@.skip(0) =~= x@);
    assert(y@.skip(0) =~= y@);
    while i < x.len() && i < y.len() && x[i] == y[i]
        invariant
            x@ == a.spec_bytes(),
            y@ == b.spec_bytes(),
            i <= x@.len(),
            i <= y@.len(),
            lex_cmp(x@, y@) == lex_cmp(x@.skip(i as int), y@.skip(i as int)),
        decreases x@.len() - i,
    {
        proof {
            let xs = x@.skip(i as int);
            let ys = y@.skip(i as int);
            assert(xs.drop_first() =~= x@.skip(i + 1));
            assert(ys.drop_first() =~= y@.skip(i + 1));
        }
        i += 1;
    }
    let ghost xs = x@.skip(i as int);
    let ghost ys = y@.skip(i as int);
    if i == x.len() {
        assert(xs.len() == 0);
        if i == y.len() {
            assert(ys.len() == 0);
            core::cmp::Ordering::Equal
        } else {
            core::cmp::Ordering::Less
        }
    } else if i == y.len() {
        assert(ys.len() == 0);
        core::cmp::Ordering::Greater
    } else if x[i] < y[i] {
        assert(xs[0] == x@[i as int] && ys[0] == y@[i as int]);
        core::cmp::Ordering::Less
    } else {
        assert(xs[0] == x@[i as int] && ys[0] == y@[i as int]);
        core::cmp::Ordering::Greater
    }
}

impl SourceFile {
    /// Orders files by name.
    pub fn cmp(&self, other: &SourceFile) -> (r: core::cmp::Ordering)
        ensures
            r == lex_cmp(encode_utf8(self.spec_name()), encode_utf8(other.spec_name())),
    {
        compare_text(self.name.as_str(), other.name.as_str())
    }
}

impl Clone for SourceFile {
    fn clone(&self) -> (r: SourceFile)
        ensures
            r.spec_name() == self.spec_name(),
            r.spec_code() == self.spec_code(),
    {
        proof {
            use_type_invariant(self);
        }
        SourceFile {
            name: self.name.clone(),
            code: self.code.clone(),
            line_index: self.line_index.clone(),
        }
    }
}

impl PartialEq for SourceFile {
    fn eq(&self, other: &SourceFile) -> (r: bool) {
        self.name == other.name && self.code == other.code
    }
}

impl vstd::std_specs::cmp::PartialEqSpecImpl for SourceFile {
    open spec fn obeys_eq_spec() -> bool {
        true
    }

    open spec fn eq_spec(&self, other: &SourceFile) -> bool {
        self.spec_name() == other.spec_name() && self.spec_code() == other.spec_code()
    }
}

/// A row of a source: a line of a file, or a line of a notebook cell.
#[derive(Clone, Copy, Debug, PartialEq, Eq, PartialOrd, Ord, Hash, Structural)]
pub enum SourceRow {
    Notebook { cell: OneIndexed, line: OneIndexed },
    SourceFile { line: OneIndexed },
}

} // verus!
