//! Conversions between byte offsets and line/column positions that scan the text, and
//! other line-oriented helpers.
use vstd::prelude::*;
use vstd::string::StringSliceAdditionalSpecFns;
use vstd::utf8::{encode_scalar, encode_utf8};

use crate::source_file::{slice_str, sliceable};
use crate::span::{Position, Span};
use crate::line_index::{byte_units, units_in, PositionEncoding};
use crate::text_diff::{line_end_at, line_ranges, line_start_at, lines_from};
use crate::text_model::{is_char_start, lemma_after_ascii};
use crate::text_size::utf8_width;

verus! {

/// Relies on `str::chars`: the characters of the text, in order.
#[verifier::external_body]
fn chars_of(text: &str) -> (r: Vec<char>)
    ensures
        r@ == text@,
{
    text.chars().collect()
}

/// The bytes that `cs` takes in UTF-8.
pub open spec fn utf8_len(cs: Seq<char>) -> nat
    decreases cs.len(),
{
    if cs.len() == 0 {
        0
    } else {
        utf8_len(cs.drop_last()) + utf8_width(cs.last() as u32)
    }
}

/// The number of leading characters of `cs` that start before byte `offset`.
pub open spec fn chars_before_offset(cs: Seq<char>, offset: int) -> nat
    decreases cs.len(),
{
    if cs.len() == 0 || offset <= 0 {
        0
    } else {
        1 + chars_before_offset(cs.drop_first(), offset - utf8_width(cs[0] as u32))
    }
}

/// The zero-based line and column reached after the characters `cs`: a `\n` starts a new
/// line, any other character moves one column on.
pub open spec fn position_after(cs: Seq<char>) -> (nat, nat)
    decreases cs.len(),
{
    if cs.len() == 0 {
        (0, 0)
    } else {
        let (line, column) = position_after(cs.drop_last());
        if cs.last() == '\n' {
            (line + 1, 0)
        } else {
            (line, column + 1)
        }
    }
}

/// Characters with the Unicode `White_Space` property.
pub open spec fn is_whitespace_char(c: char) -> bool {
    let v = c as u32;
    (9 <= v <= 13) || v == 32 || v == 0x85 || v == 0xa0 || v == 0x1680 || (0x2000 <= v <= 0x200a)
        || v == 0x2028 || v == 0x2029 || v == 0x202f || v == 0x205f || v == 0x3000
}

/// Scanning `cs`: the number of lines so far with a character that is not whitespace, and
/// whether the current line has one.
pub open spec fn content_lines_scan(cs: Seq<char>) -> (nat, bool)
    decreases cs.len(),
{
    if cs.len() == 0 {
        (0, false)
    } else {
        let (count, seen) = content_lines_scan(cs.drop_last());
        let c = cs.last();
        if c == '\n' {
            (count, false)
        } else if is_whitespace_char(c) || seen {
            (count, seen)
        } else {
            (count + 1, true)
        }
    }
}

/// The number of `\n` bytes in `[from, to)`.
pub open spec fn newlines_in(b: Seq<u8>, from: int, to: int) -> nat
    decreases to - from,
{
    if to <= from {
        0
    } else {
        newlines_in(b, from, to - 1) + if b[to - 1] == 10 {
            1nat
        } else {
            0nat
        }
    }
}

/// The number of lines as `str::lines` yields them: one per `\n`, and one more for text
/// after the last `\n`.
pub open spec fn lines_count(b: Seq<u8>) -> nat {
    newlines_in(b, 0, b.len() as int) + if b.len() > 0 && b[b.len() - 1] != 10 {
        1nat
    } else {
        0nat
    }
}

/// Whether `[s, e)` is the text of zero-based line `i` as `str::lines` yields it: the line
/// starts at `s`, after the `i`-th `\n`, and runs to `q`, the next `\n` or the end of the text;
/// a `\r` right before that `\n` is dropped.
pub open spec fn is_line_text(b: Seq<u8>, i: int, s: int, q: int, e: int) -> bool {
    &&& 0 <= s <= q <= b.len()
    &&& s < b.len()
    &&& newlines_in(b, 0, s) == i
    &&& (s == 0 || b[s - 1] == 10)
    &&& (forall|k: int| s <= k < q ==> b[k] != 10)
    &&& (q == b.len() || b[q] == 10)
    &&& e == if q < b.len() && q > s && b[q - 1] == 13 {
        q - 1
    } else {
        q
    }
}

/// Where a walk over the line `[s, e)` stops for a byte column `col`: at byte `s + col` when a
/// character starts there inside the line, else at the end of the line.
pub open spec fn column_stop(b: Seq<u8>, s: int, e: int, col: int) -> int {
    if 0 <= col < e - s && is_char_start(b[s + col]) {
        s + col
    } else {
        e
    }
}

/// The UTF-16 code units of `b[s..stop]`.
pub open spec fn utf16_units(b: Seq<u8>, s: int, stop: int) -> nat {
    units_in(b.subrange(s, stop), PositionEncoding::Utf16)
}

/// The UTF-16 code units of the texts of the first `k` lines, terminators left out.
pub open spec fn utf16_of_lines(b: Seq<u8>, k: int) -> nat
    decreases k,
{
    if k <= 0 {
        0
    } else {
        utf16_of_lines(b, k - 1) + utf16_units(b, line_start_at(b, k - 1), line_end_at(b, k - 1))
    }
}

/// Whether the byte at `p` of the line `[s, e)` begins a character that has fewer than
/// `target` UTF-16 code units before it on the line.
pub open spec fn starts_before_units(b: Seq<u8>, s: int, e: int, p: int, target: nat) -> bool {
    s <= p < e && is_char_start(b[p]) && utf16_units(b, s, p) < target
}

/// `n`, or `usize::MAX` when `n` does not fit.
pub open spec fn clip(n: nat) -> usize {
    if n <= usize::MAX {
        n as usize
    } else {
        usize::MAX
    }
}

/// The zero-based position of byte `offset`, counted in characters; see
/// [`TextUtils::offset_to_position`].
pub open spec fn position_of_offset(cs: Seq<char>, offset: int) -> Position {
    let (line, column) = position_after(cs.take(chars_before_offset(cs, offset) as int));
    Position { line: line as usize, column: column as usize }
}

/// The UTF-16 form of `position`, whose column counts bytes: on an existing line, the code
/// units before that byte column; past the last line, the start of the line after it.
pub open spec fn utf16_position(b: Seq<u8>, position: Position) -> Position {
    let n = lines_from(b, 0) as int;
    if position.line < n {
        let s = line_start_at(b, position.line as int);
        let e = line_end_at(b, position.line as int);
        Position {
            line: position.line,
            column: clip(utf16_units(b, s, column_stop(b, s, e, position.column as int))),
        }
    } else {
        Position { line: n as usize, column: 0 }
    }
}

/// The UTF-16 offset of `position`, whose column counts bytes: the code units of the lines
/// before it, terminators left out, and of its line before the byte column.
pub open spec fn utf16_offset(b: Seq<u8>, position: Position) -> usize {
    let n = lines_from(b, 0) as int;
    if position.line < n {
        let s = line_start_at(b, position.line as int);
        let e = line_end_at(b, position.line as int);
        clip(
            utf16_of_lines(b, position.line as int) + utf16_units(
                b,
                s,
                column_stop(b, s, e, position.column as int),
            ),
        )
    } else {
        clip(utf16_of_lines(b, n))
    }
}

proof fn lemma_units_monotone(b: Seq<u8>, s: int, p: int, q: int)
    requires
        0 <= s <= p <= q <= b.len(),
    ensures
        utf16_units(b, s, p) <= utf16_units(b, s, q),
    decreases q - p,
{
    if p < q {
        lemma_units_monotone(b, s, p, q - 1);
        assert(b.subrange(s, q).drop_last() =~= b.subrange(s, q - 1));
    }
}

/// Whether a character of the line `[s, e)` has at least `t` UTF-16 code units before it on
/// the line.
pub open spec fn line_reaches(b: Seq<u8>, s: int, e: int, t: nat) -> bool {
    exists|p: int| s <= p < e && is_char_start(b[p]) && #[trigger] utf16_units(b, s, p) >= t
}

/// The byte column of the last character of the line `[s, e)` with fewer than `t` UTF-16 code
/// units before it, or zero when there is none.
pub open spec fn last_column_before(b: Seq<u8>, s: int, e: int, t: nat) -> int {
    if exists|p: int|
        #[trigger] starts_before_units(b, s, e, p, t) && forall|q: int|
            p < q ==> !#[trigger] starts_before_units(b, s, e, q, t) {
        (choose|p: int|
            #[trigger] starts_before_units(b, s, e, p, t) && forall|q: int|
                p < q ==> !#[trigger] starts_before_units(b, s, e, q, t)) - s
    } else {
        0
    }
}

proof fn lemma_last_unique(b: Seq<u8>, s: int, e: int, t: nat, p: int)
    requires
        starts_before_units(b, s, e, p, t),
        forall|q: int| p < q ==> !#[trigger] starts_before_units(b, s, e, q, t),
    ensures
        last_column_before(b, s, e, t) == p - s,
{
    let c = choose|c: int|
        #[trigger] starts_before_units(b, s, e, c, t) && forall|q: int|
            c < q ==> !#[trigger] starts_before_units(b, s, e, q, t);
    if c < p {
        assert(!starts_before_units(b, s, e, p, t));
    } else if p < c {
        assert(!starts_before_units(b, s, e, c, t));
    }
}

/// Walks the line `[s, e)`: the byte column of the last character with fewer than `target`
/// code units before it (or zero), and whether some character has at least `target` before it.
fn walk_line(bytes: &[u8], s: usize, e: usize, target: usize) -> (r: (usize, bool))
    requires
        s <= e <= bytes@.len(),
    ensures
        r.0 == last_column_before(bytes@, s as int, e as int, target as nat),
        r.1 == line_reaches(bytes@, s as int, e as int, target as nat),
{
    let ghost b = bytes@;
    let mut p = s;
    let mut units: usize = 0;
    let mut column: usize = 0;
    let mut found_any = false;
    let mut stopped = false;
    assert(b.subrange(s as int, s as int).len() == 0);
    while p < e && !stopped
        invariant
            b == bytes@,
            s <= p <= e <= b.len(),
            units == clip(utf16_units(b, s as int, p as int)),
            forall|q: int| s <= q < p && is_char_start(b[q]) ==> #[trigger] utf16_units(b, s as int, q) < target,
            found_any ==> starts_before_units(b, s as int, e as int, s + column, target as nat),
            found_any ==> forall|q: int| s + column < q < p ==> !#[trigger] starts_before_units(b, s as int, e as int, q, target as nat),
            !found_any ==> forall|q: int| s <= q < p ==> !#[trigger] starts_before_units(b, s as int, e as int, q, target as nat),
            !found_any ==> column == 0,
            stopped ==> p < e && is_char_start(b[p as int]) && utf16_units(b, s as int, p as int) >= target,
        decreases e - p + if stopped { 0int } else { 1int },
    {
        let x = bytes[p];
        let char_start = !(0x80 <= x && x <= 0xbf);
        if char_start && units >= target {
            stopped = true;
        } else {
            if char_start {
                column = p - s;
                found_any = true;
            }
            let w: usize = if !char_start {
                0
            } else if x >= 0xf0 {
                2
            } else {
                1
            };
            proof {
                let t = b.subrange(s as int, p + 1);
                assert(t.drop_last() =~= b.subrange(s as int, p as int));
                assert(t.last() == x);
            }
            units = units.saturating_add(w);
            p += 1;
        }
    }
    proof {
        let t = target as nat;
        if stopped {
            assert(line_reaches(b, s as int, e as int, t));
        } else {
            assert forall|q: int| s <= q < e && is_char_start(b[q]) implies #[trigger] utf16_units(b, s as int, q) < t by {}
        }
        if found_any {
            let w = s + column;
            assert forall|q: int| w < q implies !#[trigger] starts_before_units(b, s as int, e as int, q, t) by {
                if q >= p && stopped && s <= q < e {
                    lemma_units_monotone(b, s as int, p as int, q);
                }
            }
            lemma_last_unique(b, s as int, e as int, t, w);
        } else {
            assert forall|q: int| !#[trigger] starts_before_units(b, s as int, e as int, q, t) by {
                if q >= p && stopped && s <= q < e {
                    lemma_units_monotone(b, s as int, p as int, q);
                }
            }
        }
    }
    (column, stopped)
}

/// The byte-column form of `position`, whose column counts UTF-16 code units; see
/// [`TextUtils::position_utf16_to_utf8`].
pub open spec fn utf8_position(b: Seq<u8>, position: Position) -> Position {
    let n = lines_from(b, 0) as int;
    if position.line < n {
        let s = line_start_at(b, position.line as int);
        let e = line_end_at(b, position.line as int);
        Position {
            line: position.line,
            column: last_column_before(b, s, e, position.column as nat) as usize,
        }
    } else {
        Position { line: n as usize, column: 0 }
    }
}

/// The code units still to go to reach `offset` once the lines before `k` are counted.
pub open spec fn remaining_units(b: Seq<u8>, k: int, offset: nat) -> nat {
    if offset > utf16_of_lines(b, k) {
        (offset - utf16_of_lines(b, k)) as nat
    } else {
        0
    }
}

/// Whether line `k` has a character with at least `offset` code units before it, counting
/// the lines before.
pub open spec fn line_stops(b: Seq<u8>, k: int, offset: nat) -> bool {
    line_reaches(b, line_start_at(b, k), line_end_at(b, k), remaining_units(b, k, offset))
}

/// The position of UTF-16 offset `offset`; see [`TextUtils::offset_to_position_utf16`].
pub open spec fn position_of_utf16_offset(b: Seq<u8>, offset: nat) -> Position {
    let n = lines_from(b, 0) as int;
    if exists|k: int| 0 <= k < n && #[trigger] line_stops(b, k, offset) {
        let k = choose|k: int|
            0 <= k < n && #[trigger] line_stops(b, k, offset) && forall|j: int|
                0 <= j < k ==> !#[trigger] line_stops(b, j, offset);
        Position {
            line: k as usize,
            column: last_column_before(
                b,
                line_start_at(b, k),
                line_end_at(b, k),
                remaining_units(b, k, offset),
            ) as usize,
        }
    } else {
        Position { line: n as usize, column: 0 }
    }
}

proof fn lemma_first_stop(b: Seq<u8>, k: int, offset: nat)
    requires
        0 <= k < lines_from(b, 0),
        line_stops(b, k, offset),
        forall|j: int| 0 <= j < k ==> !#[trigger] line_stops(b, j, offset),
    ensures
        position_of_utf16_offset(b, offset) == (Position {
            line: k as usize,
            column: last_column_before(
                b,
                line_start_at(b, k),
                line_end_at(b, k),
                remaining_units(b, k, offset),
            ) as usize,
        }),
{
    let n = lines_from(b, 0) as int;
    let c = choose|c: int|
        0 <= c < n && #[trigger] line_stops(b, c, offset) && forall|j: int|
            0 <= j < c ==> !#[trigger] line_stops(b, j, offset);
    if c < k {
        assert(!line_stops(b, c, offset));
    } else if k < c {
        assert(!line_stops(b, k, offset));
    }
}

proof fn lemma_no_stop(b: Seq<u8>, offset: nat)
    requires
        forall|j: int| 0 <= j < lines_from(b, 0) ==> !#[trigger] line_stops(b, j, offset),
    ensures
        position_of_utf16_offset(b, offset) == (Position { line: lines_from(b, 0) as usize, column: 0 }),
{
}

/// The byte offset of the first character at `position`, or the length of the text; see
/// [`TextUtils::position_to_offset`].
pub open spec fn offset_of_position(cs: Seq<char>, b: Seq<u8>, position: Position) -> int {
    let target = (position.line as nat, position.column as nat);
    if exists|k: int| 0 <= k < cs.len() && #[trigger] position_after(cs.take(k)) == target {
        utf8_len(
            cs.take(
                choose|k: int|
                    0 <= k < cs.len() && #[trigger] position_after(cs.take(k)) == target && forall|j: int|
                        0 <= j < k ==> position_after(#[trigger] cs.take(j)) != target,
            ),
        ) as int
    } else {
        b.len() as int
    }
}

proof fn lemma_offset_of_position(cs: Seq<char>, b: Seq<u8>, position: Position, r: usize)
    requires
        ({
            let target = (position.line as nat, position.column as nat);
            ||| (exists|k: int|
                0 <= k < cs.len() && position_after(cs.take(k)) == target && r == utf8_len(
                    cs.take(k),
                ) && forall|j: int| 0 <= j < k ==> position_after(#[trigger] cs.take(j)) != target)
            ||| ((forall|j: int| 0 <= j < cs.len() ==> position_after(#[trigger] cs.take(j)) != target)
                && r == b.len())
        }),
    ensures
        r == offset_of_position(cs, b, position),
{
    let target = (position.line as nat, position.column as nat);
    if exists|k: int|
        0 <= k < cs.len() && position_after(cs.take(k)) == target && r == utf8_len(cs.take(k))
            && forall|j: int| 0 <= j < k ==> position_after(#[trigger] cs.take(j)) != target {
        let k0 = choose|k: int|
            0 <= k < cs.len() && position_after(cs.take(k)) == target && r == utf8_len(cs.take(k))
                && forall|j: int| 0 <= j < k ==> position_after(#[trigger] cs.take(j)) != target;
        assert(position_after(cs.take(k0)) == target);
        let c = choose|k: int|
            0 <= k < cs.len() && #[trigger] position_after(cs.take(k)) == target && forall|j: int|
                0 <= j < k ==> position_after(#[trigger] cs.take(j)) != target;
        if c < k0 {
            assert(position_after(cs.take(c)) != target);
        } else if k0 < c {
            assert(position_after(cs.take(k0)) != target);
        }
    } else {
        assert forall|k: int| 0 <= k < cs.len() implies #[trigger] position_after(cs.take(k)) != target by {}
    }
}

/// Counts the UTF-16 code units of `bytes[s..stop]`, saturating at `usize::MAX`.
fn utf16_count(bytes: &[u8], s: usize, stop: usize) -> (r: usize)
    requires
        s <= stop <= bytes@.len(),
    ensures
        r == clip(utf16_units(bytes@, s as int, stop as int)),
{
    let mut j = s;
    let mut count: usize = 0;
    assert(bytes@.subrange(s as int, s as int).len() == 0);
    while j < stop
        invariant
            s <= j <= stop <= bytes@.len(),
            count == clip(units_in(bytes@.subrange(s as int, j as int), PositionEncoding::Utf16)),
        decreases stop - j,
    {
        let x = bytes[j];
        let w: usize = if 0x80 <= x && x <= 0xbf {
            0
        } else if x >= 0xf0 {
            2
        } else {
            1
        };
        proof {
            let t = bytes@.subrange(s as int, j + 1);
            assert(t.drop_last() =~= bytes@.subrange(s as int, j as int));
            assert(t.last() == x);
        }
        count = count.saturating_add(w);
        j += 1;
    }
    count
}

proof fn lemma_utf8_len(cs: Seq<char>)
    ensures
        utf8_len(cs) == encode_utf8(cs).len(),
    decreases cs.len(),
{
    if cs.len() > 0 {
        lemma_utf8_len(cs.drop_first());
        lemma_utf8_len_front(cs);
        vstd::utf8::char_is_scalar(cs[0]);
        assert(encode_scalar(cs[0] as u32).len() == utf8_width(cs[0] as u32));
    }
}

proof fn lemma_utf8_len_front(cs: Seq<char>)
    requires
        cs.len() > 0,
    ensures
        utf8_len(cs) == utf8_width(cs[0] as u32) + utf8_len(cs.drop_first()),
    decreases cs.len(),
{
    if cs.len() > 1 {
        lemma_utf8_len_front(cs.drop_last());
        assert(cs.drop_last().drop_first() =~= cs.drop_first().drop_last());
        assert(cs.drop_last()[0] == cs[0]);
        assert(cs.drop_first().last() == cs.last());
        assert(utf8_len(cs.drop_first()) == utf8_len(cs.drop_first().drop_last()) + utf8_width(
            cs.last() as u32,
        ));
    } else {
        assert(cs.drop_first().len() == 0);
        assert(cs.drop_last().len() == 0);
        assert(cs.last() == cs[0]);
        assert(utf8_len(cs.drop_first()) == 0);
        assert(utf8_len(cs.drop_last()) == 0);
    }
    assert(utf8_len(cs) == utf8_len(cs.drop_last()) + utf8_width(cs.last() as u32));
}

fn char_width(c: char) -> (r: usize)
    ensures
        r == utf8_width(c as u32),
{
    let v = c as u32;
    if v < 0x80 {
        1
    } else if v < 0x800 {
        2
    } else if v < 0x10000 {
        3
    } else {
        4
    }
}

/// Whether `c` is whitespace in the sense of Unicode.
pub fn is_whitespace(c: char) -> (r: bool)
    ensures
        r == is_whitespace_char(c),
{
    let v = c as u32;
    (9 <= v && v <= 13) || v == 32 || v == 0x85 || v == 0xa0 || v == 0x1680 || (0x2000 <= v && v
        <= 0x200a) || v == 0x2028 || v == 0x2029 || v == 0x202f || v == 0x205f || v == 0x3000
}

/// Helpers on text positions that scan the text.
pub struct TextUtils;

impl TextUtils {
    /// The zero-based line and column (counted in characters) of byte `offset`; past the end,
    /// the position at the end of the text.
    pub fn offset_to_position(text: &str, offset: usize) -> (r: Position)
        ensures
            ({
                let (line, column) = position_after(
                    text@.take(chars_before_offset(text@, offset as int) as int),
                );
                r.line == line && r.column == column
            }),
    {
        let cs = chars_of(text);
        let mut line: usize = 0;
        let mut column: usize = 0;
        let mut k: usize = 0;
        let mut remaining = offset;
        assert(text@.take(0) =~= Seq::<char>::empty());
        assert(text@.skip(0) =~= text@);
        while k < cs.len() && remaining > 0
            invariant
                cs@ == text@,
                k <= cs@.len(),
                chars_before_offset(text@, offset as int) == k + chars_before_offset(
                    text@.skip(k as int),
                    remaining as int,
                ),
                (line as nat, column as nat) == position_after(text@.take(k as int)),
                line <= k,
                column <= k,
            decreases cs@.len() - k,
        {
            let c = cs[k];
            if c == '\n' {
                line += 1;
                column = 0;
            } else {
                column += 1;
            }
            let w = char_width(c);
            proof {
                let rest = text@.skip(k as int);
                assert(rest[0] == c);
                assert(rest.drop_first() =~= text@.skip(k + 1));
                assert(text@.take(k + 1).drop_last() =~= text@.take(k as int));
                assert(chars_before_offset(rest, remaining as int) == 1 + chars_before_offset(
                    rest.drop_first(),
                    remaining - w,
                ));
            }
            remaining = if remaining > w {
                remaining - w
            } else {
                0
            };
            k += 1;
        }
        proof {
            if k == cs.len() {
                assert(text@.skip(k as int).len() == 0);
            }
        }
        Position { line, column }
    }

    /// The byte offset of the first character at zero-based `position`, or the length of the
    /// text when no character is there.
    pub fn position_to_offset(text: &str, position: &Position) -> (r: usize)
        ensures
            ({
                let target = (position.line as nat, position.column as nat);
                ||| (exists|k: int|
                    0 <= k < text@.len() && position_after(text@.take(k)) == target && r == utf8_len(
                        text@.take(k),
                    ) && forall|j: int|
                        0 <= j < k ==> position_after(#[trigger] text@.take(j)) != target)
                ||| ((forall|j: int|
                    0 <= j < text@.len() ==> position_after(#[trigger] text@.take(j)) != target)
                    && r == text.spec_bytes().len())
            }),
    {
        let cs = chars_of(text);
        let _ = text.as_bytes().len();
        let mut line: usize = 0;
        let mut column: usize = 0;
        let mut k: usize = 0;
        let mut i: usize = 0;
        proof {
            lemma_utf8_len(text@);
            assert(text@.take(0) =~= Seq::<char>::empty());
        }
        while k < cs.len()
            invariant
                cs@ == text@,
                k <= cs@.len(),
                (line as nat, column as nat) == position_after(text@.take(k as int)),
                line <= k,
                column <= k,
                i == utf8_len(text@.take(k as int)),
                utf8_len(text@) == text.spec_bytes().len(),
                text.spec_bytes().len() <= usize::MAX,
                forall|j: int|
                    0 <= j < k ==> position_after(#[trigger] text@.take(j)) != (
                        position.line as nat,
                        position.column as nat,
                    ),
            decreases cs@.len() - k,
        {
            if line == position.line && column == position.column {
                return i;
            }
            let c = cs[k];
            if c == '\n' {
                line += 1;
                column = 0;
            } else {
                column += 1;
            }
            proof {
                assert(text@.take(k + 1).drop_last() =~= text@.take(k as int));
                assert(text@.take(k + 1).last() == c);
                lemma_utf8_len_prefix(text@, k + 1);
            }
            i = i + char_width(c);
            k += 1;
        }
        proof {
            assert(text@.take(k as int) =~= text@);
        }
        text.len()
    }

    /// The text of `span`, cut to the end of the text; empty when the span starts at or
    /// after the end of the text, or does not start before it ends.
    pub fn get_text_slice<'a>(text: &'a str, span: &Span) -> (r: &'a str)
        requires
            span.start < text.spec_bytes().len() && span.start < span.end ==> sliceable(
                text.spec_bytes(),
                span.start as int,
                vstd::math::min(span.end as int, text.spec_bytes().len() as int),
            ),
        ensures
            span.start >= text.spec_bytes().len() || span.start >= span.end ==> r@.len() == 0,
            span.start < text.spec_bytes().len() && span.start < span.end ==> r.spec_bytes()
                == text.spec_bytes().subrange(
                span.start as int,
                vstd::math::min(span.end as int, text.spec_bytes().len() as int),
            ),
    {
        let len = text.as_bytes().len();
        if span.start >= len || span.start >= span.end {
            proof {
                reveal_strlit("");
            }
            return "";
        }
        let end = if span.end > len {
            len
        } else {
            span.end
        };
        slice_str(text, span.start, end)
    }

    /// Zero-based line `line_index` as `str::lines` yields it, without its terminator.
    pub fn get_line(text: &str, line_index: usize) -> (r: Option<&str>)
        ensures
            r is Some <==> line_index < lines_count(text.spec_bytes()),
            r matches Some(t) ==> exists|s: int, q: int, e: int|
                #[trigger] is_line_text(text.spec_bytes(), line_index as int, s, q, e)
                    && t.spec_bytes() == text.spec_bytes().subrange(s, e),
    {
        let bytes = text.as_bytes();
        let ghost b = bytes@;
        let mut start: usize = 0;
        let mut seen: usize = 0;
        let mut k: usize = 0;
        // Find the start of the line: just after the `line_index`-th newline.
        while k < bytes.len() && seen < line_index
            invariant
                b == bytes@,
                b == text.spec_bytes(),
                k <= b.len(),
                seen == newlines_in(b, 0, k as int),
                seen <= line_index,
                seen < line_index ==> start == 0,
                seen == line_index ==> (start == k && (k == 0 || b[k - 1] == 10)),
            decreases b.len() - k,
        {
            if bytes[k] == 10 {
                seen += 1;
                if seen == line_index {
                    start = k + 1;
                }
            }
            k += 1;
        }
        if seen < line_index || start >= bytes.len() {
            proof {
                lemma_lines_count(b, line_index as int, seen as int, k as int);
            }
            return None;
        }
        // Find the end of the line.
        let mut q = start;
        while q < bytes.len() && bytes[q] != 10
            invariant
                b == bytes@,
                start <= q <= b.len(),
                forall|j: int| start <= j < q ==> b[j] != 10,
            decreases b.len() - q,
        {
            q += 1;
        }
        let end = if q < bytes.len() && q > start && bytes[q - 1] == 13 {
            q - 1
        } else {
            q
        };
        proof {
            broadcast use vstd::utf8::group_utf8_lib;
            if start > 0 {
                lemma_after_ascii(b, start - 1);
            }
            if start == 0 && b.len() > 0 {
                assert(vstd::utf8::valid_first_scalar(b));
            }
            assert(is_line_text(b, line_index as int, start as int, q as int, end as int));
            lemma_line_within_count(b, line_index as int, start as int, q as int);
        }
        Some(slice_str(text, start, end))
    }

    /// The UTF-16 form of `position`, whose column counts bytes within its line.
    pub fn position_utf8_to_utf16(text: &str, position: &Position) -> (r: Position)
        ensures
            r == utf16_position(text.spec_bytes(), *position),
    {
        let bytes = text.as_bytes();
        let lines = line_ranges(text);
        if position.line < lines.len() {
            let (s, e) = lines[position.line];
            let stop = if position.column < e - s && !(0x80 <= bytes[s + position.column]
                && bytes[s + position.column] <= 0xbf) {
                s + position.column
            } else {
                e
            };
            Position { line: position.line, column: utf16_count(bytes, s, stop) }
        } else {
            Position { line: lines.len(), column: 0 }
        }
    }

    /// The UTF-16 offset of `position`, whose column counts bytes within its line; the
    /// line terminators do not count.
    pub fn position_to_offset_utf16(text: &str, position: &Position) -> (r: usize)
        ensures
            r == utf16_offset(text.spec_bytes(), *position),
    {
        let bytes = text.as_bytes();
        let ghost b = bytes@;
        let lines = line_ranges(text);
        let n = lines.len();
        let upto = if position.line < n {
            position.line
        } else {
            n
        };
        let mut total: usize = 0;
        let mut k: usize = 0;
        while k < upto
            invariant
                b == bytes@,
                b == text.spec_bytes(),
                n == lines@.len(),
                upto <= n,
                k <= upto,
                forall|t: int|
                    0 <= t < lines@.len() ==> (#[trigger] lines@[t]).0 == line_start_at(b, t)
                        && lines@[t].1 == line_end_at(b, t) && lines@[t].0 <= lines@[t].1 <= b.len(),
                total == clip(utf16_of_lines(b, k as int)),
            decreases upto - k,
        {
            let (s, e) = lines[k];
            total = total.saturating_add(utf16_count(bytes, s, e));
            k += 1;
        }
        if position.line < n {
            let (s, e) = lines[position.line];
            let stop = if position.column < e - s && !(0x80 <= bytes[s + position.column]
                && bytes[s + position.column] <= 0xbf) {
                s + position.column
            } else {
                e
            };
            total.saturating_add(utf16_count(bytes, s, stop))
        } else {
            total
        }
    }

    /// The byte-column form of a `position` whose column counts UTF-16 code units: the byte
    /// column of the last character of the line with fewer code units before it than the
    /// column, or zero; past the last line, the start of the line after it.
    pub fn position_utf16_to_utf8(text: &str, position: &Position) -> (r: Position)
        ensures
            r == utf8_position(text.spec_bytes(), *position),
    {
        let bytes = text.as_bytes();
        let lines = line_ranges(text);
        if position.line >= lines.len() {
            return Position { line: lines.len(), column: 0 };
        }
        let (s, e) = lines[position.line];
        let (column, _) = walk_line(bytes, s, e, position.column);
        Position { line: position.line, column }
    }

    /// The position, with a byte column, of UTF-16 offset `offset`, counting the code units of
    /// the lines' texts without their terminators: on the first line with a character that
    /// has at least `offset` code units before it, the byte column of the last character
    /// before that one (or zero); past the end, the start of the line after the last.
    pub fn offset_to_position_utf16(text: &str, offset: usize) -> (r: Position)
        ensures
            r == position_of_utf16_offset(text.spec_bytes(), offset as nat),
    {
        let bytes = text.as_bytes();
        let ghost b = bytes@;
        let lines = line_ranges(text);
        let n = lines.len();
        let mut total: usize = 0;
        let mut k: usize = 0;
        while k < n
            invariant
                b == bytes@,
                b == text.spec_bytes(),
                n == lines@.len(),
                n == lines_from(b, 0),
                k <= n,
                forall|t: int|
                    0 <= t < lines@.len() ==> (#[trigger] lines@[t]).0 == line_start_at(b, t)
                        && lines@[t].1 == line_end_at(b, t) && lines@[t].0 <= lines@[t].1 <= b.len(),
                total == clip(utf16_of_lines(b, k as int)),
                forall|j: int| 0 <= j < k ==> !#[trigger] line_stops(b, j, offset as nat),
            decreases n - k,
        {
            let (s, e) = lines[k];
            let target = if offset > total {
                offset - total
            } else {
                0
            };
            let (column, stops) = walk_line(bytes, s, e, target);
            proof {
                assert(target as nat == remaining_units(b, k as int, offset as nat));
            }
            if stops {
                proof {
                    assert(line_stops(b, k as int, offset as nat));
                    lemma_first_stop(b, k as int, offset as nat);
                }
                return Position { line: k, column };
            }
            total = total.saturating_add(utf16_count(bytes, s, e));
            k += 1;
        }
        proof {
            lemma_no_stop(b, offset as nat);
        }
        Position { line: n, column: 0 }
    }

    /// A span by UTF-16 offsets turned into byte offsets: each end becomes a position, then
    /// the byte-column form of that position, then its byte offset.
    pub fn span_utf16_to_utf8(text: &str, span: &Span) -> (r: Span)
        ensures
            r.start == offset_of_position(
                text@,
                text.spec_bytes(),
                utf8_position(text.spec_bytes(), position_of_utf16_offset(text.spec_bytes(), span.start as nat)),
            ),
            r.end == offset_of_position(
                text@,
                text.spec_bytes(),
                utf8_position(text.spec_bytes(), position_of_utf16_offset(text.spec_bytes(), span.end as nat)),
            ),
    {
        let start_pos = Self::offset_to_position_utf16(text, span.start);
        let end_pos = Self::offset_to_position_utf16(text, span.end);
        let start_utf8 = Self::position_utf16_to_utf8(text, &start_pos);
        let end_utf8 = Self::position_utf16_to_utf8(text, &end_pos);
        let start_offset = Self::position_to_offset(text, &start_utf8);
        let end_offset = Self::position_to_offset(text, &end_utf8);
        proof {
            lemma_offset_of_position(text@, text.spec_bytes(), start_utf8, start_offset);
            lemma_offset_of_position(text@, text.spec_bytes(), end_utf8, end_offset);
        }
        Span::new(start_offset, end_offset)
    }

    /// A span by byte offsets turned into UTF-16 offsets: each end becomes a position, then
    /// the UTF-16 form of that position, then its UTF-16 offset.
    pub fn span_utf8_to_utf16(text: &str, span: &Span) -> (r: Span)
        ensures
            r.start == utf16_offset(
                text.spec_bytes(),
                utf16_position(text.spec_bytes(), position_of_offset(text@, span.start as int)),
            ),
            r.end == utf16_offset(
                text.spec_bytes(),
                utf16_position(text.spec_bytes(), position_of_offset(text@, span.end as int)),
            ),
    {
        let start_pos = Self::offset_to_position(text, span.start);
        let end_pos = Self::offset_to_position(text, span.end);
        let start_utf16 = Self::position_utf8_to_utf16(text, &start_pos);
        let end_utf16 = Self::position_utf8_to_utf16(text, &end_pos);
        let start_offset = Self::position_to_offset_utf16(text, &start_utf16);
        let end_offset = Self::position_to_offset_utf16(text, &end_utf16);
        Span::new(start_offset, end_offset)
    }

    /// The number of lines that hold a character that is not whitespace.
    pub fn count_lines(text: &str) -> (r: usize)
        ensures
            r == content_lines_scan(text@).0,
    {
        let cs = chars_of(text);
        let mut count: usize = 0;
        let mut seen = false;
        let mut k: usize = 0;
        assert(text@.take(0) =~= Seq::<char>::empty());
        while k < cs.len()
            invariant
                cs@ == text@,
                k <= cs@.len(),
                (count as nat, seen) == content_lines_scan(text@.take(k as int)),
                count <= k,
            decreases cs@.len() - k,
        {
            let c = cs[k];
            if c == '\n' {
                seen = false;
            } else if is_whitespace(c) || seen {
            } else {
                count += 1;
                seen = true;
            }
            assert(text@.take(k + 1).drop_last() =~= text@.take(k as int));
            k += 1;
        }
        assert(text@.take(k as int) =~= text@);
        count
    }
}

proof fn lemma_newlines_split(b: Seq<u8>, from: int, mid: int, to: int)
    requires
        0 <= from <= mid <= to <= b.len(),
    ensures
        newlines_in(b, from, to) == newlines_in(b, from, mid) + newlines_in(b, mid, to),
    decreases to - mid,
{
    if to > mid {
        lemma_newlines_split(b, from, mid, to - 1);
    }
}

proof fn lemma_newlines_none(b: Seq<u8>, from: int, to: int)
    requires
        0 <= from <= to <= b.len(),
        forall|j: int| from <= j < to ==> b[j] != 10,
    ensures
        newlines_in(b, from, to) == 0,
    decreases to - from,
{
    if to > from {
        lemma_newlines_none(b, from, to - 1);
    }
}

/// When the scan for line `i` stops without finding it, there is no such line.
proof fn lemma_lines_count(b: Seq<u8>, i: int, seen: int, k: int)
    requires
        0 <= k <= b.len(),
        seen == newlines_in(b, 0, k),
        seen <= i,
        seen < i ==> k == b.len(),
        seen == i ==> (k == 0 || b[k - 1] == 10) && k >= b.len(),
    ensures
        i >= lines_count(b),
{
    if seen == i && k > 0 {
        assert(b[b.len() - 1] == 10);
    }
}

/// A line that was found is counted.
proof fn lemma_line_within_count(b: Seq<u8>, i: int, s: int, q: int)
    requires
        0 <= s <= q <= b.len(),
        s < b.len(),
        newlines_in(b, 0, s) == i,
        forall|j: int| s <= j < q ==> b[j] != 10,
        q == b.len() || b[q] == 10,
    ensures
        i < lines_count(b),
{
    lemma_newlines_none(b, s, q);
    lemma_newlines_split(b, 0, s, q);
    if q < b.len() {
        lemma_newlines_split(b, 0, q, b.len() as int);
        assert(newlines_in(b, q, q) == 0);
        assert(newlines_in(b, q, q + 1) == 1);
        lemma_newlines_split(b, q, q + 1, b.len() as int);
    } else {
        assert(b[b.len() - 1] != 10);
    }
}

proof fn lemma_utf8_len_prefix(cs: Seq<char>, k: int)
    requires
        0 <= k <= cs.len(),
    ensures
        utf8_len(cs.take(k)) <= utf8_len(cs),
    decreases cs.len() - k,
{
    if k < cs.len() {
        lemma_utf8_len_prefix(cs, k + 1);
        assert(cs.take(k + 1).drop_last() =~= cs.take(k));
    } else {
        assert(cs.take(k) =~= cs);
    }
}

} // verus!
