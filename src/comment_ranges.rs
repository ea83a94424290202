//! The sorted, non-overlapping ranges of the comments of one text: overlap and containment
//! queries, and the grouping of own-line comments into blocks.
use vstd::prelude::*;
use vstd::string::StringSliceAdditionalSpecFns;

use crate::line_ranges::{
    contains_break, full_line_end_of, lemma_line_end_bounds, lemma_line_start_bounds,
    line_end_of, line_start_of, LineRanges,
};
use crate::line_index::raws;
use crate::text_model::{all_ws, bom_len};
use crate::text_size::{spans_overlap, Ranged, TextRange, TextSize};
use crate::trivia::{
    all_whitespace, has_leading_content, has_trailing_content, leading_content,
    trailing_content,
};

verus! {

broadcast use TextRange::lemma_ordered;

/// Ranges in ascending order, none overlapping the next.
pub open spec fn sorted_disjoint(r: Seq<TextRange>) -> bool {
    forall|i: int, j: int|
        0 <= i < j < r.len() ==> #[trigger] r[i].spec_end() <= #[trigger] r[j].spec_start()
}

/// Whether some range of `r` shares a position with `[start, end)`.
pub open spec fn any_overlap(r: Seq<TextRange>, start: nat, end: nat) -> bool {
    exists|i: int|
        0 <= i < r.len() && spans_overlap(#[trigger] r[i].spec_start(), r[i].spec_end(), start, end)
}

/// Ranges are half-open: a range and a target that begins where the range ends share no
/// position, nor does an empty range with any range, while two non-empty ranges each of which
/// begins before the other ends do.
pub proof fn lemma_overlap_is_half_open(r: TextRange, target: TextRange)
    ensures
        target.spec_start() == r.spec_end() ==> !r.overlaps(target),
        target.spec_end() == r.spec_start() ==> !r.overlaps(target),
        target.spec_start() == target.spec_end() ==> !r.overlaps(target),
        r.spec_start() == r.spec_end() ==> !r.overlaps(target),
        target.spec_start() < r.spec_end() && r.spec_start() < target.spec_end() && r.spec_start()
            < r.spec_end() && target.spec_start() < target.spec_end() ==> r.overlaps(target),
{
}

/// Whether `[start, end)` lies inside `range`.
pub open spec fn within(c: TextRange, range: TextRange) -> bool {
    range.spec_start() <= c.spec_start() && c.spec_end() <= range.spec_end()
}

/// Whether only whitespace stands between the start of `o`'s line and `o`.
pub open spec fn own_line(b: Seq<u8>, o: int) -> bool {
    all_ws(b, line_start_of(b, o), o)
}

/// The width in bytes of the character whose leading byte is `x`.
pub open spec fn lead_width(x: u8) -> int {
    if x < 0x80 {
        1
    } else if x < 0xe0 {
        2
    } else if x < 0xf0 {
        3
    } else {
        4
    }
}

/// Whether the comment `[start, end)` holds nothing but whitespace after its first character.
pub open spec fn comment_is_empty(b: Seq<u8>, start: int, end: int) -> bool {
    start >= end || all_ws(b, start + lead_width(b[start]), end)
}

/// The state of the grouping of own-line comments into blocks.
pub struct BlockScan {
    /// Offsets emitted so far.
    pub out: Seq<int>,
    /// The column of the open block, if a block is open.
    pub column: Option<int>,
    /// The offsets of the members of the open block.
    pub members: Seq<int>,
    /// Whether a member of the open block is not empty.
    pub nonempty: bool,
    /// The end, after its terminator, of the line of the previous comment.
    pub prev_line_end: Option<int>,
}

/// The members of a closed block that qualify for output: more than one, and not all empty.
pub open spec fn flushed(st: BlockScan) -> Seq<int> {
    if st.members.len() > 1 && st.nonempty {
        st.members
    } else {
        seq![]
    }
}

/// One step of the grouping, for comment `c` of the text `b`, recorded in blocks as `m`.
pub open spec fn block_step(st: BlockScan, c: TextRange, b: Seq<u8>, m: int) -> BlockScan {
    let o = c.spec_start() as int;
    let ls = line_start_of(b, o);
    let le = full_line_end_of(b, o);
    let column = o - ls;
    let empty = comment_is_empty(b, o, c.spec_end() as int);
    if !own_line(b, o) {
        BlockScan {
            out: st.out + flushed(st),
            column: None,
            members: seq![],
            nonempty: false,
            prev_line_end: Some(le),
        }
    } else if st.prev_line_end matches Some(p) && contains_break(b, p, ls) {
        BlockScan {
            out: st.out + flushed(st),
            column: Some(column),
            members: seq![m],
            nonempty: !empty,
            prev_line_end: Some(le),
        }
    } else if st.column == Some(column) {
        BlockScan {
            out: st.out,
            column: st.column,
            members: st.members.push(m),
            nonempty: st.nonempty || !empty,
            prev_line_end: Some(le),
        }
    } else {
        BlockScan {
            out: st.out + flushed(st),
            column: Some(column),
            members: seq![m],
            nonempty: !empty,
            prev_line_end: Some(le),
        }
    }
}

/// The grouping state after the first `n` comments.
pub open spec fn block_scan(r: Seq<TextRange>, b: Seq<u8>, n: int) -> BlockScan
    decreases n,
{
    if n <= 0 {
        BlockScan { out: seq![], column: None, members: seq![], nonempty: false, prev_line_end: None }
    } else {
        block_step(block_scan(r, b, n - 1), r[n - 1], b, r[n - 1].spec_start() as int)
    }
}

/// The offsets of the comments that belong to blocks: runs of more than one own-line comment
/// at the same column with no blank line between them, not all of them empty.
pub open spec fn block_comments_of(r: Seq<TextRange>, b: Seq<u8>) -> Seq<int> {
    let st = block_scan(r, b, r.len() as int);
    st.out + flushed(st)
}

/// Whether `x` is the start of one of the ranges of `r` with only whitespace before it on its
/// line.
pub open spec fn own_line_comment_start(r: Seq<TextRange>, b: Seq<u8>, x: int) -> bool {
    exists|i: int| 0 <= i < r.len() && #[trigger] r[i].spec_start() == x && own_line(b, x)
}

proof fn lemma_block_scan_members(r: Seq<TextRange>, b: Seq<u8>, n: int)
    requires
        0 <= n <= r.len(),
    ensures
        forall|k: int|
            0 <= k < block_scan(r, b, n).out.len() ==> own_line_comment_start(
                r,
                b,
                #[trigger] block_scan(r, b, n).out[k],
            ),
        forall|k: int|
            0 <= k < block_scan(r, b, n).members.len() ==> own_line_comment_start(
                r,
                b,
                #[trigger] block_scan(r, b, n).members[k],
            ),
        block_scan(r, b, n).out.len() == 0 || block_scan(r, b, n).out.len() >= 2,
    decreases n,
{
    if n > 0 {
        lemma_block_scan_members(r, b, n - 1);
        let st = block_scan(r, b, n - 1);
        let next = block_scan(r, b, n);
        let o = r[n - 1].spec_start() as int;
        if own_line(b, o) {
            assert(own_line_comment_start(r, b, o));
        }
        assert forall|k: int| 0 <= k < next.out.len() implies own_line_comment_start(
            r,
            b,
            #[trigger] next.out[k],
        ) by {
            if k >= st.out.len() {
                assert(next.out[k] == st.members[k - st.out.len()]);
            } else {
                assert(next.out[k] == st.out[k]);
            }
        }
        assert forall|k: int| 0 <= k < next.members.len() implies own_line_comment_start(
            r,
            b,
            #[trigger] next.members[k],
        ) by {
            if k < st.members.len() && next.members.len() > 1 {
                assert(next.members[k] == st.members[k]);
            }
        }
    }
}

/// Every offset reported as part of a block is the start of an own-line comment: a comment
/// that follows code on its line neither joins nor starts a block. And since a block has more
/// than one member, a lone comment is never reported: the result is empty or holds at least
/// two offsets.
pub proof fn lemma_blocks_hold_own_line_comments(r: Seq<TextRange>, b: Seq<u8>)
    ensures
        forall|k: int|
            0 <= k < block_comments_of(r, b).len() ==> own_line_comment_start(
                r,
                b,
                #[trigger] block_comments_of(r, b)[k],
            ),
        block_comments_of(r, b).len() != 1,
{
    let n = r.len() as int;
    lemma_block_scan_members(r, b, n);
    let st = block_scan(r, b, n);
    let out = block_comments_of(r, b);
    assert forall|k: int| 0 <= k < out.len() implies own_line_comment_start(
        r,
        b,
        #[trigger] out[k],
    ) by {
        if k >= st.out.len() {
            assert(out[k] == st.members[k - st.out.len()]);
        } else {
            assert(out[k] == st.out[k]);
        }
    }
}

/// The grouping state after the first `n` comments, with blocks recording comment indices.
pub open spec fn block_scan_indices(r: Seq<TextRange>, b: Seq<u8>, n: int) -> BlockScan
    decreases n,
{
    if n <= 0 {
        BlockScan { out: seq![], column: None, members: seq![], nonempty: false, prev_line_end: None }
    } else {
        block_step(block_scan_indices(r, b, n - 1), r[n - 1], b, n - 1)
    }
}

/// The indices of the comments that belong to blocks.
pub open spec fn block_indices_of(r: Seq<TextRange>, b: Seq<u8>) -> Seq<int> {
    let st = block_scan_indices(r, b, r.len() as int);
    st.out + flushed(st)
}

/// The starts of the comments with the indices `idx`.
pub open spec fn starts_of(r: Seq<TextRange>, idx: Seq<int>) -> Seq<int> {
    idx.map_values(|i: int| r[i].spec_start() as int)
}

/// The column of comment `i`: its offset from the start of its line.
pub open spec fn comment_column(r: Seq<TextRange>, b: Seq<u8>, i: int) -> int {
    r[i].spec_start() - line_start_of(b, r[i].spec_start() as int)
}

/// Whether comments `k` and `k + 1` continue one block: both stand on their own lines, at the
/// same column, with no blank line between the line of `k` and the line of `k + 1`.
pub open spec fn joined(r: Seq<TextRange>, b: Seq<u8>, k: int) -> bool {
    &&& 0 <= k
    &&& k + 1 < r.len()
    &&& own_line(b, r[k].spec_start() as int)
    &&& own_line(b, r[k + 1].spec_start() as int)
    &&& comment_column(r, b, k) == comment_column(r, b, k + 1)
    &&& !contains_break(
        b,
        full_line_end_of(b, r[k].spec_start() as int),
        line_start_of(b, r[k + 1].spec_start() as int),
    )
}

proof fn lemma_scan_indices(r: Seq<TextRange>, b: Seq<u8>, n: int)
    requires
        0 <= n <= r.len(),
    ensures
        ({
            let st = block_scan(r, b, n);
            let si = block_scan_indices(r, b, n);
            &&& st.out == starts_of(r, si.out)
            &&& st.members == starts_of(r, si.members)
            &&& st.column == si.column
            &&& st.nonempty == si.nonempty
            &&& st.prev_line_end == si.prev_line_end
            // the open block is the run of comments just before `n`
            &&& si.members.len() > 0 ==> si.members.last() == n - 1
            &&& forall|j: int| 0 <= j < si.members.len() ==> #[trigger] si.members[j] == n - si.members.len() + j
            &&& forall|j: int| 0 <= j < si.members.len() - 1 ==> joined(r, b, #[trigger] si.members[j])
            &&& (si.column is None) == (si.members.len() == 0)
            &&& si.column matches Some(c) ==> c == comment_column(r, b, n - 1) && own_line(b, r[n - 1].spec_start() as int)
            &&& n > 0 ==> si.prev_line_end == Some(full_line_end_of(b, r[n - 1].spec_start() as int))
            // every index in a closed block has a partner in it
            &&& forall|j: int|
                0 <= j < si.out.len() ==> joined(r, b, #[trigger] si.out[j] - 1) || joined(r, b, si.out[j])
        }),
    decreases n,
{
    if n > 0 {
        lemma_scan_indices(r, b, n - 1);
        let st0 = block_scan(r, b, n - 1);
        let si0 = block_scan_indices(r, b, n - 1);
        let st = block_scan(r, b, n);
        let si = block_scan_indices(r, b, n);
        let f = |i: int| r[i].spec_start() as int;
        assert(starts_of(r, flushed(si0)) == flushed(st0));
        assert(starts_of(r, si0.out + flushed(si0)) =~= st0.out + flushed(st0));
        assert(starts_of(r, si0.members.push(n - 1)) =~= st0.members.push(f(n - 1)));
        assert(starts_of(r, seq![n - 1]) =~= seq![f(n - 1)]);
        assert(starts_of(r, Seq::<int>::empty()) =~= Seq::<int>::empty());
        // closed blocks keep a partner for each member
        assert forall|j: int| 0 <= j < (si0.out + flushed(si0)).len() implies joined(
            r,
            b,
            #[trigger] (si0.out + flushed(si0))[j] - 1,
        ) || joined(r, b, (si0.out + flushed(si0))[j]) by {
            if j >= si0.out.len() {
                let m = si0.members;
                let q = j - si0.out.len();
                assert((si0.out + flushed(si0))[j] == m[q]);
                if q < m.len() - 1 {
                    assert(joined(r, b, m[q]));
                } else {
                    assert(m[q - 1] == m[q] - 1);
                    assert(joined(r, b, m[q - 1]));
                }
            } else {
                assert((si0.out + flushed(si0))[j] == si0.out[j]);
            }
        }
        if own_line(b, r[n - 1].spec_start() as int) && !(si0.prev_line_end matches Some(p)
            && contains_break(b, p, line_start_of(b, r[n - 1].spec_start() as int)))
            && si0.column == Some(comment_column(r, b, n - 1)) {
            let m = si0.members;
            assert(m.last() == n - 2);
            assert(joined(r, b, n - 2));
            assert forall|j: int| 0 <= j < si.members.len() - 1 implies joined(r, b, #[trigger] si.members[j]) by {
                if j < m.len() - 1 {
                    assert(si.members[j] == m[j]);
                } else {
                    assert(si.members[j] == m[j]);
                    assert(m[j] == n - 2);
                }
            }
            assert forall|j: int| 0 <= j < si.members.len() implies #[trigger] si.members[j] == n - si.members.len() + j by {
                if j < m.len() {
                    assert(si.members[j] == m[j]);
                }
            }
        }
    }
}

/// The indices behind the offsets that `block_comments` reports.
pub proof fn lemma_block_indices(r: Seq<TextRange>, b: Seq<u8>)
    ensures
        block_comments_of(r, b) == starts_of(r, block_indices_of(r, b)),
{
    let n = r.len() as int;
    lemma_scan_indices(r, b, n);
    let si = block_scan_indices(r, b, n);
    assert(starts_of(r, si.out + flushed(si)) =~= block_comments_of(r, b));
}

/// A comment that cannot continue a block with either neighbour is never reported: when the
/// comment before it and the comment after it (where they exist) each stand after code on
/// their line, or at another column, or across a blank line, its index is not among the
/// indices of the block comments.
pub proof fn lemma_isolated_comment_not_in_block(r: Seq<TextRange>, b: Seq<u8>, i: int)
    requires
        0 <= i < r.len(),
        !joined(r, b, i - 1),
        !joined(r, b, i),
    ensures
        !block_indices_of(r, b).contains(i),
{
    let n = r.len() as int;
    lemma_scan_indices(r, b, n);
    let si = block_scan_indices(r, b, n);
    let all = si.out + flushed(si);
    if all.contains(i) {
        let j = choose|j: int| 0 <= j < all.len() && all[j] == i;
        if j < si.out.len() {
            assert(all[j] == si.out[j]);
        } else {
            let m = si.members;
            let q = j - si.out.len();
            assert(all[j] == m[q]);
            if q < m.len() - 1 {
                assert(joined(r, b, m[q]));
            } else {
                assert(m[q - 1] == m[q] - 1);
                assert(joined(r, b, m[q - 1]));
            }
        }
    }
}

/// A comment that follows code on its line closes any open block: after it no block is open,
/// so no block holds comments from both sides of it.
pub proof fn lemma_trailing_comment_closes_block(r: Seq<TextRange>, b: Seq<u8>, t: int)
    requires
        0 <= t < r.len(),
        !own_line(b, r[t].spec_start() as int),
    ensures
        block_scan(r, b, t + 1).members.len() == 0,
        block_scan(r, b, t + 1).column is None,
        block_scan_indices(r, b, t + 1).members.len() == 0,
{
}

pub open spec fn opt_raw(o: Option<TextSize>) -> Option<int> {
    match o {
        Some(t) => Some(t.raw as int),
        None => None,
    }
}

/// Whether a `\n` or `\r` lies in `[from, to)`; false when the span is empty.
fn has_newline_between(bytes: &[u8], from: usize, to: usize) -> (r: bool)
    requires
        to <= bytes@.len(),
    ensures
        r == contains_break(bytes@, from as int, to as int),
{
    let mut k = from;
    while k < to
        invariant
            to <= bytes@.len(),
            from <= k,
            !contains_break(bytes@, from as int, k as int),
        decreases to - k,
    {
        if bytes[k] == 10 || bytes[k] == 13 {
            assert(crate::text_model::is_newline_byte(bytes@[k as int]));
            return true;
        }
        k += 1;
    }
    false
}

/// Appends the open block to `out` when it qualifies, and empties it.
fn flush_block(out: &mut Vec<TextSize>, block: &mut Vec<TextSize>, nonempty: bool)
    ensures
        raws(final(out)@) == raws(old(out)@) + flushed(
            BlockScan {
                out: seq![],
                column: None,
                members: raws(old(block)@),
                nonempty,
                prev_line_end: None,
            },
        ),
        final(block)@.len() == 0,
{
    if block.len() > 1 && nonempty {
        let ghost before = out@;
        out.append(block);
        assert(raws(out@) =~= raws(before) + raws(old(block)@));
    } else {
        block.clear();
        assert(raws(out@) =~= raws(old(out)@) + Seq::<int>::empty());
    }
}

/// The ranges of the comments of one text, sorted by start, none overlapping the next.
#[derive(Debug)]
pub struct CommentRanges {
    raw: Vec<TextRange>,
}

impl CommentRanges {
    #[verifier::type_invariant]
    spec fn sorted(self) -> bool {
        sorted_disjoint(self.raw@)
    }

    /// The comment ranges, which are always sorted and disjoint.
    pub closed spec fn spec_ranges(self) -> Seq<TextRange> {
        if sorted_disjoint(self.raw@) {
            self.raw@
        } else {
            seq![]
        }
    }

    pub broadcast proof fn lemma_sorted(self)
        ensures
            #[trigger] sorted_disjoint(self.spec_ranges()),
    {
    }

    /// Wraps comment ranges that are sorted and do not overlap.
    pub fn new(ranges: Vec<TextRange>) -> (r: CommentRanges)
        requires
            sorted_disjoint(ranges@),
        ensures
            r.spec_ranges() == ranges@,
    {
        CommentRanges { raw: ranges }
    }

    /// The comment ranges.
    pub fn as_slice(&self) -> (r: &[TextRange])
        ensures
            r@ == self.spec_ranges(),
    {
        proof {
            use_type_invariant(self);
        }
        self.raw.as_slice()
    }

    /// Whether some comment shares a position with `target`, found by binary search.
    pub fn intersects(&self, target: TextRange) -> (r: bool)
        ensures
            r == any_overlap(self.spec_ranges(), target.spec_start(), target.spec_end()),
    {
        proof {
            use_type_invariant(self);
        }
        let ghost s = self.raw@;
        let t_start = target.start().raw;
        let t_end = target.end().raw;
        if t_start >= t_end {
            return false;
        }
        assert(s == self.spec_ranges());
        // The first comment that ends after the target starts.
        let mut lo: usize = 0;
        let mut hi: usize = self.raw.len();
        while lo < hi
            invariant
                s == self.raw@,
                sorted_disjoint(s),
                0 <= lo <= hi <= s.len(),
                forall|i: int| 0 <= i < lo ==> #[trigger] s[i].spec_end() <= t_start,
                forall|i: int| hi <= i < s.len() ==> #[trigger] s[i].spec_end() > t_start,
            decreases hi - lo,
        {
            let mid = lo + (hi - lo) / 2;
            if self.raw[mid].end().raw <= t_start {
                proof {
                    assert forall|i: int| 0 <= i < mid + 1 implies #[trigger] s[i].spec_end()
                        <= t_start by {
                        if i < mid {
                            assert(s[i].spec_end() <= s[mid as int].spec_start());
                        }
                    }
                }
                lo = mid + 1;
            } else {
                proof {
                    assert forall|i: int| mid <= i < s.len() implies #[trigger] s[i].spec_end()
                        > t_start by {
                        if i > mid {
                            assert(s[mid as int].spec_end() <= s[i].spec_start());
                        }
                    }
                }
                hi = mid;
            }
        }
        // From there on, the comments that start before the target ends; the first that is
        // not empty overlaps it.
        let mut k = lo;
        while k < self.raw.len() && self.raw[k].start().raw < t_end
            invariant
                s == self.raw@,
                sorted_disjoint(s),
                lo <= k <= s.len(),
                t_start < t_end,
                t_start == target.spec_start(),
                t_end == target.spec_end(),
                s == self.spec_ranges(),
                forall|i: int| lo <= i < s.len() ==> #[trigger] s[i].spec_end() > t_start,
                forall|i: int| lo <= i < k ==> #[trigger] s[i].spec_start() == s[i].spec_end(),
            decreases s.len() - k,
        {
            let c = self.raw[k];
            if c.start().raw < c.end().raw {
                assert(spans_overlap(s[k as int].spec_start(), s[k as int].spec_end(), t_start as nat, t_end as nat));
                return true;
            }
            k += 1;
        }
        proof {
            assert forall|i: int|
                0 <= i < s.len() implies !spans_overlap(
                #[trigger] s[i].spec_start(),
                s[i].spec_end(),
                target.spec_start(),
                target.spec_end(),
            ) by {
                if i < lo {
                    assert(s[i].spec_end() <= t_start);
                } else if i < k {
                    assert(s[i].spec_start() == s[i].spec_end());
                } else if i > k {
                    assert(s[k as int].spec_end() <= s[i].spec_start());
                }
            }
        }
        false
    }

    /// The comments inside `range`, a contiguous run of the comment ranges: from the first
    /// comment that does not start before the range, up to the first of those that ends after
    /// it.
    pub fn comments_in_range(&self, range: TextRange) -> (r: &[TextRange])
        ensures
            exists|lo: int, hi: int|
                #![trigger self.spec_ranges().subrange(lo, hi)]
                0 <= lo <= hi <= self.spec_ranges().len() && r@ == self.spec_ranges().subrange(lo, hi)
                    && (forall|i: int| 0 <= i < lo ==> #[trigger] self.spec_ranges()[i].spec_start()
                    < range.spec_start()) && (lo < self.spec_ranges().len()
                    ==> self.spec_ranges()[lo].spec_start() >= range.spec_start()) && (forall|i: int|
                    lo <= i < hi ==> #[trigger] self.spec_ranges()[i].spec_end() <= range.spec_end())
                    && (hi < self.spec_ranges().len() ==> self.spec_ranges()[hi].spec_end()
                    > range.spec_end()),
            forall|i: int| 0 <= i < r@.len() ==> within(#[trigger] r@[i], range),
            forall|i: int|
                0 <= i < self.spec_ranges().len() && within(#[trigger] self.spec_ranges()[i], range)
                    ==> r@.contains(self.spec_ranges()[i]),
    {
        proof {
            use_type_invariant(self);
        }
        let ghost s = self.raw@;
        let r_start = range.start().raw;
        let r_end = range.end().raw;
        // The first comment that does not start before the range.
        let mut lo: usize = 0;
        let mut hi: usize = self.raw.len();
        while lo < hi
            invariant
                s == self.raw@,
                sorted_disjoint(s),
                0 <= lo <= hi <= s.len(),
                forall|i: int| 0 <= i < lo ==> #[trigger] s[i].spec_start() < r_start,
                forall|i: int| hi <= i < s.len() ==> #[trigger] s[i].spec_start() >= r_start,
            decreases hi - lo,
        {
            let mid = lo + (hi - lo) / 2;
            if self.raw[mid].start().raw < r_start {
                proof {
                    assert forall|i: int| 0 <= i < mid + 1 implies #[trigger] s[i].spec_start()
                        < r_start by {
                        if i < mid {
                            assert(s[i].spec_end() <= s[mid as int].spec_start());
                        }
                    }
                }
                lo = mid + 1;
            } else {
                proof {
                    assert forall|i: int| mid <= i < s.len() implies #[trigger] s[i].spec_start()
                        >= r_start by {
                        if i > mid {
                            assert(s[mid as int].spec_end() <= s[i].spec_start());
                        }
                    }
                }
                hi = mid;
            }
        }
        let start = lo;
        // The first of those that ends after the range.
        let mut k = start;
        while k < self.raw.len() && self.raw[k].end().raw <= r_end
            invariant
                s == self.raw@,
                sorted_disjoint(s),
                start <= k <= s.len(),
                forall|i: int| start <= i < k ==> #[trigger] s[i].spec_end() <= r_end,
            decreases s.len() - k,
        {
            k += 1;
        }
        proof {
            assert forall|i: int| k <= i < s.len() implies #[trigger] s[i].spec_end() > r_end by {
                if i > k {
                    assert(s[k as int].spec_end() <= s[i].spec_start());
                }
            }
            let sub = s.subrange(start as int, k as int);
            assert forall|i: int|
                0 <= i < s.len() && within(#[trigger] s[i], range) implies sub.contains(s[i]) by {
                assert(sub[i - start] == s[i]);
            }
        }
        let r = vstd::slice::slice_subrange(self.raw.as_slice(), start, k);
        assert(r@ == s.subrange(start as int, k as int));
        assert(self.spec_ranges() == s);
        assert(r@ == self.spec_ranges().subrange(start as int, k as int));
        r
    }

    /// Whether the node includes a comment. An edge of the node that sits on whitespace is
    /// widened to the whole line, so that a comment at the edge of a neighbouring line counts.
    pub fn has_comments<T: Ranged>(&self, node: &T, source: &str) -> (r: bool)
        requires
            bom_len(source.spec_bytes()) <= node.spec_range().spec_start(),
            node.spec_range().spec_end() <= source.spec_bytes().len(),
            source.spec_bytes().len() <= u32::MAX,
        ensures
            ({
                let b = source.spec_bytes();
                let s = node.spec_range().spec_start() as int;
                let e = node.spec_range().spec_end() as int;
                let start = if leading_content(b, s) {
                    s
                } else {
                    line_start_of(b, s)
                };
                let end = if trailing_content(b, e) {
                    e
                } else {
                    line_end_of(b, e)
                };
                r == any_overlap(self.spec_ranges(), start as nat, end as nat)
            }),
    {
        let range = node.range();
        let node_start = range.start();
        let node_end = range.end();
        proof {
            lemma_line_start_bounds(source.spec_bytes(), node_start.raw as int);
            lemma_line_end_bounds(source.spec_bytes(), node_end.raw as int);
        }
        let start = if has_leading_content(node_start, source) {
            node_start
        } else {
            source.line_start(node_start)
        };
        let end = if has_trailing_content(node_end, source) {
            node_end
        } else {
            source.line_end(node_end)
        };
        self.intersects(TextRange::new(start, end))
    }

    /// The offsets of the comments that form blocks: runs of more than one own-line comment at
    /// the same column on consecutive lines, not all of them empty. Found in one pass with a
    /// state that is either no block or a block being built.
    pub fn block_comments(&self, source: &str) -> (r: Vec<TextSize>)
        requires
            source.spec_bytes().len() <= u32::MAX,
            forall|i: int|
                0 <= i < self.spec_ranges().len() ==> bom_len(source.spec_bytes())
                    <= #[trigger] self.spec_ranges()[i].spec_start() && self.spec_ranges()[i].spec_end()
                    <= source.spec_bytes().len(),
        ensures
            raws(r@) == block_comments_of(self.spec_ranges(), source.spec_bytes()),
    {
        proof {
            use_type_invariant(self);
        }
        let ghost s = self.raw@;
        let ghost b = source.spec_bytes();
        let bytes = source.as_bytes();
        let mut block_comments: Vec<TextSize> = Vec::new();
        let mut current_block: Vec<TextSize> = Vec::new();
        let mut current_block_column: Option<TextSize> = None;
        let mut current_block_non_empty = false;
        let mut prev_line_end: Option<TextSize> = None;
        let mut i: usize = 0;
        assert(raws(block_comments@) =~= seq![]);
        assert(raws(current_block@) =~= seq![]);
        assert(s == self.spec_ranges());
        while i < self.raw.len()
            invariant
                s == self.raw@,
                s == self.spec_ranges(),
                b == source.spec_bytes(),
                bytes@ == b,
                b.len() <= u32::MAX,
                forall|j: int|
                    0 <= j < s.len() ==> bom_len(b) <= #[trigger] s[j].spec_start() && s[j].spec_end()
                        <= b.len(),
                i <= s.len(),
                raws(block_comments@) == block_scan(s, b, i as int).out,
                raws(current_block@) == block_scan(s, b, i as int).members,
                opt_raw(current_block_column) == block_scan(s, b, i as int).column,
                current_block_non_empty == block_scan(s, b, i as int).nonempty,
                opt_raw(prev_line_end) == block_scan(s, b, i as int).prev_line_end,
            decreases s.len() - i,
        {
            let comment_range = self.raw[i];
            let offset = comment_range.start();
            let line_start = source.line_start(offset);
            let line_end = source.full_line_end(offset);
            proof {
                lemma_line_start_bounds(b, offset.raw as int);
            }
            let column = TextSize { raw: offset.raw - line_start.raw };
            let ghost st = block_scan(s, b, i as int);
            let ghost next = block_step(st, s[i as int], b, s[i as int].spec_start() as int);
            assert(block_scan(s, b, i + 1) == next);
            let blank_line_before = match prev_line_end {
                Some(p) => has_newline_between(bytes, p.raw as usize, line_start.raw as usize),
                None => false,
            };
            if !Self::is_own_line(offset, source) {
                flush_block(&mut block_comments, &mut current_block, current_block_non_empty);
                current_block_column = None;
                current_block_non_empty = false;
            } else if blank_line_before {
                flush_block(&mut block_comments, &mut current_block, current_block_non_empty);
                current_block.push(offset);
                current_block_column = Some(column);
                current_block_non_empty = !Self::is_empty(comment_range, source);
            } else if current_block_column.is_some() && current_block_column.unwrap().raw
                == column.raw {
                current_block.push(offset);
                current_block_non_empty = current_block_non_empty || !Self::is_empty(
                    comment_range,
                    source,
                );
            } else {
                flush_block(&mut block_comments, &mut current_block, current_block_non_empty);
                current_block.push(offset);
                current_block_column = Some(column);
                current_block_non_empty = !Self::is_empty(comment_range, source);
            }
            prev_line_end = Some(line_end);
            proof {
                assert(raws(current_block@) =~= next.members);
                assert(raws(block_comments@) =~= next.out);
            }
            i += 1;
        }
        flush_block(&mut block_comments, &mut current_block, current_block_non_empty);
        proof {
            assert(raws(block_comments@) =~= block_comments_of(s, b));
        }
        block_comments
    }

    /// Whether the comment `range` holds nothing but whitespace after its first character.
    pub fn is_empty(range: TextRange, source: &str) -> (r: bool)
        requires
            range.spec_end() <= source.spec_bytes().len(),
        ensures
            r == comment_is_empty(source.spec_bytes(), range.spec_start() as int, range.spec_end() as int),
    {
        let bytes = source.as_bytes();
        let start = range.start().raw as usize;
        let end = range.end().raw as usize;
        if start >= end {
            return true;
        }
        let x = bytes[start];
        let width: usize = if x < 0x80 {
            1
        } else if x < 0xe0 {
            2
        } else if x < 0xf0 {
            3
        } else {
            4
        };
        let skip = if end - start <= width {
            end
        } else {
            start + width
        };
        all_whitespace(bytes, skip, end)
    }

    /// Whether the comment at `offset` stands on its own line, with only whitespace before it.
    pub fn is_own_line(offset: TextSize, source: &str) -> (r: bool)
        requires
            offset.raw <= source.spec_bytes().len(),
        ensures
            r == own_line(source.spec_bytes(), offset.raw as int),
    {
        let start = source.line_start(offset);
        all_whitespace(source.as_bytes(), start.raw as usize, offset.raw as usize)
    }
}

impl Clone for CommentRanges {
    fn clone(&self) -> (r: CommentRanges)
        ensures
            r.spec_ranges() == self.spec_ranges(),
    {
        proof {
            use_type_invariant(self);
        }
        let raw = self.raw.clone();
        assert(raw@ =~= self.raw@);
        CommentRanges { raw }
    }
}

impl Default for CommentRanges {
    fn default() -> (r: CommentRanges)
        ensures
            r.spec_ranges() == Seq::<TextRange>::empty(),
    {
        let r = CommentRanges { raw: Vec::new() };
        assert(r.raw@ =~= Seq::<TextRange>::empty());
        r
    }
}

} // verus!
