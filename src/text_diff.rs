//! A line-by-line difference between two texts, as replacements of byte ranges of the old
//! text.
use vstd::prelude::*;
use vstd::string::StringSliceAdditionalSpecFns;

use vstd::string::StringExecFns;
use vstd::utf8::{encode_utf8, valid_utf8};

use crate::ast::{Change, Diff};
use crate::source_file::slice_str;
use crate::text_model::{lemma_after_ascii, on_char_boundary};

verus! {

/// The offset of the first `\n` at or after `s`, or the end of the text.
pub open spec fn next_newline(b: Seq<u8>, s: int) -> int
    decreases b.len() - s,
{
    if s >= b.len() {
        b.len() as int
    } else if b[s] == 10 {
        s
    } else {
        next_newline(b, s + 1)
    }
}

/// The number of lines from offset `s` on, as `str::lines` yields them: a line ends at each
/// `\n`, and text after the last `\n` is one more line.
pub open spec fn lines_from(b: Seq<u8>, s: int) -> nat
    decreases b.len() + 1 - s
    via lines_from_decreases
{
    if s >= b.len() || s < 0 {
        0
    } else {
        1 + lines_from(b, next_newline(b, s) + 1)
    }
}

#[via_fn]
proof fn lines_from_decreases(b: Seq<u8>, s: int) {
    if s >= 0 && s < b.len() {
        lemma_next_newline(b, s);
    }
}

/// Where zero-based line `k` starts.
pub open spec fn line_start_at(b: Seq<u8>, k: int) -> int
    decreases k,
{
    if k <= 0 {
        0
    } else {
        next_newline(b, line_start_at(b, k - 1)) + 1
    }
}

/// Where the text of zero-based line `k` ends: before its `\n`, and before a `\r` right
/// before that `\n`.
pub open spec fn line_end_at(b: Seq<u8>, k: int) -> int {
    let s = line_start_at(b, k);
    let q = next_newline(b, s);
    if q < b.len() && q > s && b[q - 1] == 13 {
        q - 1
    } else {
        q
    }
}

pub open spec fn line_bytes(b: Seq<u8>, k: int) -> Seq<u8> {
    b.subrange(line_start_at(b, k), line_end_at(b, k))
}

/// The sum, over the lines before `k`, of the length of each line's text plus one.
pub open spec fn offset_before(b: Seq<u8>, k: int) -> int
    decreases k,
{
    if k <= 0 {
        0
    } else {
        offset_before(b, k - 1) + (line_end_at(b, k - 1) - line_start_at(b, k - 1)) + 1
    }
}

/// The texts of lines `k` to `n - 1` of `b`, joined by `\n`.
pub open spec fn joined_lines(b: Seq<u8>, k: int, n: int) -> Seq<u8>
    decreases n - k,
{
    if k >= n {
        seq![]
    } else if k == n - 1 {
        line_bytes(b, k)
    } else {
        line_bytes(b, k) + seq![10u8] + joined_lines(b, k + 1, n)
    }
}

/// The replacements for the first `k` pairs of lines: each pair whose texts differ replaces
/// the old line (its text and one byte more) by the new line's text.
pub open spec fn line_replacements(ob: Seq<u8>, nb: Seq<u8>, k: int) -> Seq<(int, int, Seq<u8>)>
    decreases k,
{
    if k <= 0 {
        seq![]
    } else {
        let before = line_replacements(ob, nb, k - 1);
        if line_bytes(ob, k - 1) != line_bytes(nb, k - 1) {
            before.push((offset_before(ob, k - 1), offset_before(ob, k), line_bytes(nb, k - 1)))
        } else {
            before
        }
    }
}

/// The difference of `ob` and `nb` as replacements `(start, end, text)`: the replacements of
/// the lines they share by position, then either the removal of the old lines left over or
/// the insertion at the end of the new lines left over.
pub open spec fn diff_of(ob: Seq<u8>, nb: Seq<u8>) -> Seq<(int, int, Seq<u8>)> {
    let no = lines_from(ob, 0) as int;
    let nn = lines_from(nb, 0) as int;
    let shared = if no < nn {
        no
    } else {
        nn
    };
    let pairs = line_replacements(ob, nb, shared);
    if no > nn {
        pairs.push((offset_before(ob, nn), ob.len() as int, seq![]))
    } else if nn > no {
        pairs.push((ob.len() as int, ob.len() as int, joined_lines(nb, no, nn)))
    } else {
        pairs
    }
}

/// The replacement that a change stands for, if it is one.
pub open spec fn replacement_of(c: Change) -> Option<(int, int, Seq<u8>)> {
    match c {
        Change::Replace { start, end, text } => Some(
            (start as int, end as int, vstd::utf8::encode_utf8(text@)),
        ),
        _ => None,
    }
}

proof fn lemma_next_newline(b: Seq<u8>, s: int)
    requires
        0 <= s,
    ensures
        s <= next_newline(b, s) || s > b.len(),
        next_newline(b, s) <= b.len(),
        s <= b.len() ==> s <= next_newline(b, s),
        next_newline(b, s) < b.len() ==> b[next_newline(b, s)] == 10,
        forall|j: int| s <= j < next_newline(b, s) ==> b[j] != 10,
    decreases b.len() - s,
{
    if s < b.len() && b[s] != 10 {
        lemma_next_newline(b, s + 1);
    }
}

/// The byte ranges of the lines of `text`, as `str::lines` yields them.
pub(crate) fn line_ranges(text: &str) -> (r: Vec<(usize, usize)>)
    ensures
        r@.len() == lines_from(text.spec_bytes(), 0),
        forall|k: int|
            0 <= k < r@.len() ==> (#[trigger] r@[k]).0 == line_start_at(text.spec_bytes(), k)
                && r@[k].1 == line_end_at(text.spec_bytes(), k) && r@[k].0 < text.spec_bytes().len()
                && r@[k].0 <= r@[k].1 <= text.spec_bytes().len() && line_start_at(
                text.spec_bytes(),
                k + 1,
            ) <= text.spec_bytes().len() + 1 && on_char_boundary(text.spec_bytes(), r@[k].0 as int)
                && on_char_boundary(text.spec_bytes(), r@[k].1 as int),
{
    broadcast use vstd::utf8::group_utf8_lib;

    let bytes = text.as_bytes();
    let n = bytes.len();
    let ghost b = bytes@;
    let mut out: Vec<(usize, usize)> = Vec::new();
    let mut s: usize = 0;
    let mut done = n == 0;
    proof {
        vstd::utf8::encode_utf8_valid_utf8(text@);
    }
    while !done
        invariant
            b == bytes@,
            b == text.spec_bytes(),
            n == b.len(),
            s <= n,
            !done ==> s < n,
            done ==> lines_from(b, s as int) == 0,
            !done ==> s == line_start_at(b, out@.len() as int),
            lines_from(b, 0) == out@.len() + lines_from(b, s as int),
            !done ==> (s == 0 || b[s - 1] == 10),
            valid_utf8(b),
            forall|k: int|
                0 <= k < out@.len() ==> (#[trigger] out@[k]).0 == line_start_at(b, k) && out@[k].1
                    == line_end_at(b, k) && out@[k].0 < b.len() && out@[k].0 <= out@[k].1 <= b.len()
                    && line_start_at(b, k + 1) <= b.len() + 1 && on_char_boundary(b, out@[k].0 as int)
                    && on_char_boundary(b, out@[k].1 as int),
        decreases n - s + if done { 0int } else { 1int },
    {
        let mut q = s;
        while q < n && bytes[q] != 10
            invariant
                b == bytes@,
                n == b.len(),
                s <= q <= n,
                next_newline(b, q as int) == next_newline(b, s as int),
            decreases n - q,
        {
            q += 1;
        }
        let e = if q < n && q > s && bytes[q - 1] == 13 {
            q - 1
        } else {
            q
        };
        let ghost k = out@.len() as int;
        proof {
            lemma_next_newline(b, q as int);
            assert(next_newline(b, s as int) == q);
            if s > 0 {
                lemma_after_ascii(b, s - 1);
            } else {
                assert(vstd::utf8::valid_first_scalar(b));
            }
            assert(on_char_boundary(b, s as int));
            assert(on_char_boundary(b, e as int));
            assert(line_start_at(b, k + 1) == q + 1);
            assert(lines_from(b, s as int) == 1 + lines_from(b, q + 1));
        }
        out.push((s, e));
        assert(out@[k] == (s, e));
        if q >= n {
            done = true;
            s = n;
            assert(lines_from(b, (q + 1) as int) == 0);
        } else {
            s = q + 1;
            if s >= n {
                done = true;
            }
        }
    }
    out
}

/// Whether bytes `[s1, e1)` of `x` equal bytes `[s2, e2)` of `y`.
fn bytes_equal(x: &[u8], s1: usize, e1: usize, y: &[u8], s2: usize, e2: usize) -> (r: bool)
    requires
        s1 <= e1 <= x@.len(),
        s2 <= e2 <= y@.len(),
    ensures
        r == (x@.subrange(s1 as int, e1 as int) == y@.subrange(s2 as int, e2 as int)),
{
    if e1 - s1 != e2 - s2 {
        assert(x@.subrange(s1 as int, e1 as int).len() != y@.subrange(s2 as int, e2 as int).len());
        return false;
    }
    let mut i: usize = 0;
    while i < e1 - s1
        invariant
            s1 <= e1 <= x@.len(),
            s2 <= e2 <= y@.len(),
            e1 - s1 == e2 - s2,
            i <= e1 - s1,
            forall|j: int| 0 <= j < i ==> x@.subrange(s1 as int, e1 as int)[j] == #[trigger] y@.subrange(s2 as int, e2 as int)[j],
        decreases e1 - s1 - i,
    {
        if x[s1 + i] != y[s2 + i] {
            assert(x@.subrange(s1 as int, e1 as int)[i as int] != y@.subrange(s2 as int, e2 as int)[i as int]);
            return false;
        }
        i += 1;
    }
    assert(x@.subrange(s1 as int, e1 as int) =~= y@.subrange(s2 as int, e2 as int));
    true
}

proof fn lemma_encode_concat(a: Seq<char>, b: Seq<char>)
    ensures
        encode_utf8(a + b) == encode_utf8(a) + encode_utf8(b),
    decreases a.len(),
{
    if a.len() > 0 {
        lemma_encode_concat(a.drop_first(), b);
        assert((a + b).drop_first() =~= a.drop_first() + b);
        assert((a + b)[0] == a[0]);
        assert(encode_utf8(a + b) == vstd::utf8::encode_scalar(a[0] as u32) + encode_utf8(
            a.drop_first() + b,
        ));
        assert(encode_utf8(a) == vstd::utf8::encode_scalar(a[0] as u32) + encode_utf8(a.drop_first()));
        assert(encode_utf8(a + b) =~= encode_utf8(a) + encode_utf8(b));
    } else {
        assert(a + b =~= b);
        assert(encode_utf8(a) =~= Seq::<u8>::empty());
        assert(encode_utf8(a) + encode_utf8(b) =~= encode_utf8(b));
    }
}

proof fn lemma_joined_extend(b: Seq<u8>, k: int, j: int)
    requires
        k < j,
    ensures
        joined_lines(b, k, j + 1) == joined_lines(b, k, j) + seq![10u8] + line_bytes(b, j),
    decreases j - k,
{
    if k < j - 1 {
        lemma_joined_extend(b, k + 1, j);
        assert(joined_lines(b, k, j + 1) == line_bytes(b, k) + seq![10u8] + joined_lines(
            b,
            k + 1,
            j + 1,
        ));
        assert(joined_lines(b, k, j) == line_bytes(b, k) + seq![10u8] + joined_lines(b, k + 1, j));
        assert(joined_lines(b, k, j + 1) =~= joined_lines(b, k, j) + seq![10u8] + line_bytes(b, j));
    } else {
        assert(joined_lines(b, j, j + 1) == line_bytes(b, j));
        assert(joined_lines(b, k, j) == line_bytes(b, k));
        assert(joined_lines(b, k, j + 1) == line_bytes(b, k) + seq![10u8] + joined_lines(
            b,
            j,
            j + 1,
        ));
        assert(joined_lines(b, k, j + 1) =~= joined_lines(b, k, j) + seq![10u8] + line_bytes(b, j));
    }
}

/// The line-by-line difference from `old_source` to `new_source`: lines at the same position
/// whose texts differ are replaced, then the old lines left over are removed, or the new
/// lines left over are appended. Offsets count each old line's text and one byte more.
pub fn compute_text_diff(old_source: &str, new_source: &str) -> (r: Diff)
    requires
        old_source.spec_bytes().len() < usize::MAX,
    ensures
        r.changes@.len() == diff_of(old_source.spec_bytes(), new_source.spec_bytes()).len(),
        forall|i: int|
            0 <= i < r.changes@.len() ==> replacement_of(#[trigger] r.changes@[i]) == Some(
                diff_of(old_source.spec_bytes(), new_source.spec_bytes())[i],
            ),
{
    broadcast use vstd::utf8::group_utf8_lib;

    let ob = old_source.as_bytes();
    let nb = new_source.as_bytes();
    let ghost obs = ob@;
    let ghost nbs = nb@;
    let old_lines = line_ranges(old_source);
    let new_lines = line_ranges(new_source);
    let no = old_lines.len();
    let nn = new_lines.len();
    let shared = if no < nn {
        no
    } else {
        nn
    };
    let mut changes: Vec<Change> = Vec::new();
    let mut offset: usize = 0;
    let mut k: usize = 0;
    while k < shared
        invariant
            obs == ob@,
            nbs == nb@,
            obs == old_source.spec_bytes(),
            nbs == new_source.spec_bytes(),
            obs.len() < usize::MAX,
            no == old_lines@.len(),
            nn == new_lines@.len(),
            no == lines_from(obs, 0),
            nn == lines_from(nbs, 0),
            shared <= no,
            shared <= nn,
            k <= shared,
            forall|t: int|
                0 <= t < no ==> (#[trigger] old_lines@[t]).0 == line_start_at(obs, t)
                    && old_lines@[t].1 == line_end_at(obs, t) && old_lines@[t].0 < obs.len()
                    && old_lines@[t].0 <= old_lines@[t].1 <= obs.len() && line_start_at(obs, t + 1)
                    <= obs.len() + 1,
            forall|t: int|
                0 <= t < nn ==> (#[trigger] new_lines@[t]).0 == line_start_at(nbs, t)
                    && new_lines@[t].1 == line_end_at(nbs, t) && new_lines@[t].0 <= new_lines@[t].1
                    <= nbs.len() && on_char_boundary(nbs, new_lines@[t].0 as int)
                    && on_char_boundary(nbs, new_lines@[t].1 as int),
            offset == offset_before(obs, k as int),
            offset <= line_start_at(obs, k as int),
            changes@.len() == line_replacements(obs, nbs, k as int).len(),
            forall|i: int|
                0 <= i < changes@.len() ==> replacement_of(#[trigger] changes@[i]) == Some(
                    line_replacements(obs, nbs, k as int)[i],
                ),
        decreases shared - k,
    {
        let (s1, e1) = old_lines[k];
        let (s2, e2) = new_lines[k];
        proof {
            lemma_next_newline(obs, s1 as int);
        }
        let next = offset + (e1 - s1) + 1;
        let ghost before = changes@;
        if !bytes_equal(ob, s1, e1, nb, s2, e2) {
            let text = slice_str(new_source, s2, e2).to_owned();
            changes.push(Change::Replace { start: offset, end: next, text });
            proof {
                assert forall|i: int| 0 <= i < changes@.len() implies replacement_of(
                    #[trigger] changes@[i],
                ) == Some(line_replacements(obs, nbs, k + 1)[i]) by {
                    if i < before.len() {
                        assert(changes@[i] == before[i]);
                    }
                }
            }
        }
        offset = next;
        k += 1;
    }
    if no > nn {
        changes.push(Change::Replace { start: offset, end: ob.len(), text: String::new() });
    } else if nn > no {
        let (s0, e0) = new_lines[no];
        let mut text = slice_str(new_source, s0, e0).to_owned();
        let mut j = no + 1;
        proof {
            assert(encode_utf8(text@) == joined_lines(nbs, no as int, j as int));
        }
        while j < nn
            invariant
                nbs == new_source.spec_bytes(),
                nn == new_lines@.len(),
                no < j <= nn,
                forall|t: int|
                    0 <= t < nn ==> (#[trigger] new_lines@[t]).0 == line_start_at(nbs, t)
                        && new_lines@[t].1 == line_end_at(nbs, t) && new_lines@[t].0
                        <= new_lines@[t].1 <= nbs.len() && on_char_boundary(
                        nbs,
                        new_lines@[t].0 as int,
                    ) && on_char_boundary(nbs, new_lines@[t].1 as int),
                encode_utf8(text@) == joined_lines(nbs, no as int, j as int),
            decreases nn - j,
        {
            let (s, e) = new_lines[j];
            let piece = slice_str(new_source, s, e);
            let ghost before = text@;
            text.append("\n");
            text.append(piece);
            proof {
                reveal_strlit("\n");
                lemma_encode_concat(before, "\n"@);
                lemma_encode_concat(before + "\n"@, piece@);
                let nl = "\n"@;
                assert(nl.len() == 1 && nl[0] == '\n');
                assert(nl.drop_first() =~= Seq::<char>::empty());
                assert(encode_utf8(nl.drop_first()) =~= Seq::<u8>::empty());
                assert(encode_utf8(nl) == vstd::utf8::encode_scalar('\n' as u32) + encode_utf8(
                    nl.drop_first(),
                ));
                assert((10u32 & 0x7Fu32) as u8 == 10u8) by (bit_vector);
                assert(vstd::utf8::encode_scalar('\n' as u32) =~= seq![10u8]);
                assert(encode_utf8(nl) =~= seq![10u8]);
                lemma_joined_extend(nbs, no as int, j as int);
            }
            j += 1;
        }
        changes.push(Change::Replace { start: ob.len(), end: ob.len(), text });
    }
    Diff { changes }
}

} // verus!
