//! Byte-level descriptions of UTF-8 text shared by the line index, the line scanner and
//! the comment index.
use vstd::prelude::*;
use vstd::utf8::{
    is_char_boundary, is_continuation_byte, length_of_first_scalar, pop_first_scalar,
    valid_first_scalar, valid_utf8,
};

verus! {

pub open spec fn is_newline_byte(x: u8) -> bool {
    x == 10 || x == 13
}

/// Whether the byte at `i` ends a line: a `\n`, or a `\r` not followed by `\n`
/// (so that a `\r\n` pair ends one line, after its `\n`).
pub open spec fn is_break_at(b: Seq<u8>, i: int) -> bool {
    b[i] == 10 || (b[i] == 13 && !(i + 1 < b.len() && b[i + 1] == 10))
}

/// Line starts found in the first `n` bytes: `0`, then `i + 1` for each line break at `i < n`.
pub open spec fn line_starts_upto(b: Seq<u8>, n: int) -> Seq<int>
    decreases n,
{
    if n <= 0 {
        seq![0int]
    } else if is_break_at(b, n - 1) {
        line_starts_upto(b, n - 1).push(n)
    } else {
        line_starts_upto(b, n - 1)
    }
}

/// The offsets at which the lines of `b` start.
pub open spec fn line_starts_of(b: Seq<u8>) -> Seq<int> {
    line_starts_upto(b, b.len() as int)
}

/// A table of line starts: it begins with `0` and strictly increases.
pub open spec fn starts_well_formed(s: Seq<int>) -> bool {
    &&& s.len() >= 1
    &&& s[0] == 0
    &&& forall|i: int, j: int| 0 <= i < j < s.len() ==> s[i] < s[j]
}

pub open spec fn is_line_of(s: Seq<int>, o: int, i: int) -> bool {
    &&& 0 <= i < s.len()
    &&& s[i] <= o
    &&& (i + 1 < s.len() ==> o < s[i + 1])
}

/// The zero-based line that contains offset `o`: the last line starting at or before `o`.
pub open spec fn line_of(s: Seq<int>, o: int) -> int {
    choose|i: int| is_line_of(s, o, i)
}

/// The start of zero-based line `row`; the line just past the last is the end of the text.
pub open spec fn line_start_in(s: Seq<int>, text_len: int, row: int) -> int {
    if row == s.len() {
        text_len
    } else {
        s[row]
    }
}

/// The end of zero-based line `row` including its terminator.
pub open spec fn line_end_in(s: Seq<int>, text_len: int, row: int) -> int {
    if row + 1 >= s.len() {
        text_len
    } else {
        s[row + 1]
    }
}

pub open spec fn all_ascii(b: Seq<u8>) -> bool {
    forall|i: int| 0 <= i < b.len() ==> b[i] < 0x80
}

/// A byte that begins a character: any byte but a UTF-8 continuation byte.
pub open spec fn is_char_start(x: u8) -> bool {
    !(0x80 <= x <= 0xbf)
}

/// Whether the text begins with the UTF-8 byte-order mark `EF BB BF`.
pub open spec fn has_bom(b: Seq<u8>) -> bool {
    b.len() >= 3 && b[0] == 0xef && b[1] == 0xbb && b[2] == 0xbf
}

pub open spec fn bom_len(b: Seq<u8>) -> int {
    if has_bom(b) {
        3
    } else {
        0
    }
}

/// Python whitespace inside a line: space, tab and form feed.
pub open spec fn is_ws_byte(x: u8) -> bool {
    x == 32 || x == 9 || x == 12
}

pub open spec fn all_ws(b: Seq<u8>, from: int, to: int) -> bool {
    forall|k: int| from <= k < to ==> is_ws_byte(#[trigger] b[k])
}

pub proof fn lemma_line_starts_upto(b: Seq<u8>, n: int)
    requires
        0 <= n,
    ensures
        starts_well_formed(line_starts_upto(b, n)),
        forall|k: int|
            0 <= k < line_starts_upto(b, n).len() ==> #[trigger] line_starts_upto(b, n)[k] <= n,
    decreases n,
{
    if n > 0 {
        lemma_line_starts_upto(b, n - 1);
    }
}

/// The line-start table of any text begins with `0` and strictly increases, and each entry
/// is at most the length of the text.
pub proof fn lemma_line_starts_well_formed(b: Seq<u8>)
    ensures
        line_starts_of(b)[0] == 0,
        starts_well_formed(line_starts_of(b)),
        forall|k: int|
            0 <= k < line_starts_of(b).len() ==> #[trigger] line_starts_of(b)[k] <= b.len(),
{
    lemma_line_starts_upto(b, b.len() as int);
}

pub proof fn lemma_line_of_unique(s: Seq<int>, o: int, i: int)
    requires
        starts_well_formed(s),
        is_line_of(s, o, i),
    ensures
        line_of(s, o) == i,
{
    let j = line_of(s, o);
    assert(is_line_of(s, o, j));
    if j < i {
        assert(s[j + 1] <= s[i]);
    } else if i < j {
        assert(s[i + 1] <= s[j]);
    }
}

pub proof fn lemma_line_of_exists(s: Seq<int>, o: int)
    requires
        starts_well_formed(s),
        0 <= o,
    ensures
        is_line_of(s, o, line_of(s, o)),
    decreases s.len(),
{
    if s.len() == 1 {
        assert(is_line_of(s, o, 0));
    } else {
        let t = s.drop_last();
        assert(starts_well_formed(t));
        if s.last() <= o {
            assert(is_line_of(s, o, s.len() - 1));
        } else {
            lemma_line_of_exists(t, o);
            let i = line_of(t, o);
            assert(is_line_of(s, o, i));
        }
    }
}

/// Looking up the line of an offset, taking that line's start, and looking up its line again
/// gives the same line.
pub proof fn lemma_line_of_line_start(b: Seq<u8>, o: int)
    requires
        0 <= o <= b.len(),
    ensures
        line_of(
            line_starts_of(b),
            line_start_in(line_starts_of(b), b.len() as int, line_of(line_starts_of(b), o)),
        ) == line_of(line_starts_of(b), o),
{
    let s = line_starts_of(b);
    lemma_line_starts_well_formed(b);
    lemma_line_of_exists(s, o);
    let i = line_of(s, o);
    assert(is_line_of(s, s[i], i));
    lemma_line_of_unique(s, s[i], i);
}

/// Whether offset `i` falls between characters: at the end, or on a byte that begins one.
pub open spec fn on_char_boundary(b: Seq<u8>, i: int) -> bool {
    i == b.len() || (0 <= i < b.len() && is_char_start(b[i]))
}

/// In valid UTF-8 the byte after an ASCII byte begins a character.
pub proof fn lemma_after_ascii(b: Seq<u8>, i: int)
    requires
        valid_utf8(b),
        0 <= i,
        i + 1 < b.len(),
        b[i] < 0x80,
    ensures
        !is_continuation_byte(b[i + 1]),
    decreases b.len(),
{
    let l = length_of_first_scalar(b);
    let rest = pop_first_scalar(b);
    assert(valid_first_scalar(b));
    assert(valid_utf8(rest));
    assert(1 <= l <= b.len());
    if i >= l {
        assert(rest[i - l] == b[i]);
        assert(rest[i - l + 1] == b[i + 1]);
        lemma_after_ascii(rest, i - l);
    } else if i + 1 == l {
        assert(rest.len() > 0);
        assert(valid_first_scalar(rest));
        assert(rest[0] == b[i + 1]);
    } else {
        assert(l >= 2);
        assert(b[0] >= 0xc0);
        assert(i >= 1);
        assert(is_continuation_byte(b[i]));
    }
}

/// In valid UTF-8 every line starts on a character boundary.
pub proof fn lemma_line_starts_on_boundaries(b: Seq<u8>)
    requires
        valid_utf8(b),
    ensures
        forall|k: int|
            0 <= k < line_starts_of(b).len() ==> on_char_boundary(b, #[trigger] line_starts_of(b)[k]),
{
    lemma_line_starts_upto_boundaries(b, b.len() as int);
}

proof fn lemma_line_starts_upto_boundaries(b: Seq<u8>, n: int)
    requires
        valid_utf8(b),
        0 <= n <= b.len(),
    ensures
        forall|k: int|
            0 <= k < line_starts_upto(b, n).len() ==> on_char_boundary(
                b,
                #[trigger] line_starts_upto(b, n)[k],
            ),
    decreases n,
{
    if n > 0 {
        lemma_line_starts_upto_boundaries(b, n - 1);
        if is_break_at(b, n - 1) {
            if n < b.len() {
                lemma_after_ascii(b, n - 1);
            }
            assert(on_char_boundary(b, n));
            assert(line_starts_upto(b, n) == line_starts_upto(b, n - 1).push(n));
        }
    } else {
        if b.len() > 0 {
            assert(valid_first_scalar(b));
            assert(!is_continuation_byte(b[0]));
        }
        assert(line_starts_upto(b, n) == seq![0int]);
        assert(on_char_boundary(b, 0));
    }
}

/// For valid UTF-8, being on a character boundary agrees with the library's definition.
pub proof fn lemma_on_char_boundary(b: Seq<u8>, i: int)
    requires
        valid_utf8(b),
        on_char_boundary(b, i),
    ensures
        is_char_boundary(b, i),
{
    broadcast use vstd::utf8::is_char_boundary_iff_not_is_continuation_byte;
    broadcast use vstd::utf8::is_char_boundary_start_end_of_seq;

    if i < b.len() {
        assert(!is_continuation_byte(b[i]));
    }
}

} // verus!
