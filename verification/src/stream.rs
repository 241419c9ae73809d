//! The unit counter and the two streamers.
//!
//! A file's content is a sequence of bytes. Lines are newline-delimited
//! spans; a trailing span without a terminator still counts as one line.
//! [`count_lines_bytes`] computes both unit totals in one pass;
//! [`tail_lines`] and [`tail_bytes`] return the bytes that streaming from a
//! resolved start unit emits.

use vstd::prelude::*;
use vstd::slice::{slice_index_get, slice_subrange, slice_to_vec};
use crate::take::{get_start_index, start_index, TakeValue};

verus! {

/// The newline byte.
pub open spec fn nl() -> u8 {
    10
}

/// How many newline bytes `s` holds.
pub open spec fn newline_count(s: Seq<u8>) -> int
    decreases s.len(),
{
    if s.len() == 0 {
        0
    } else {
        newline_count(s.drop_last()) + if s.last() == nl() {
            1int
        } else {
            0int
        }
    }
}

/// How many lines `s` holds: one per newline, plus one for a trailing span
/// without a terminator.
pub open spec fn lines_in(s: Seq<u8>) -> int {
    newline_count(s) + if s.len() > 0 && s.last() != nl() {
        1int
    } else {
        0int
    }
}

/// The position just after the first newline at or after `j`, or the end.
pub open spec fn next_line_start(s: Seq<u8>, j: int) -> int
    decreases s.len() - j,
{
    if j >= s.len() {
        s.len() as int
    } else if s[j] == nl() {
        j + 1
    } else {
        next_line_start(s, j + 1)
    }
}

/// The byte offset where the zero-based line `k` starts (the end of the
/// content once `k` is past the last line).
pub open spec fn line_start(s: Seq<u8>, k: int) -> int
    decreases k,
{
    if k <= 0 {
        0
    } else {
        next_line_start(s, line_start(s, k - 1))
    }
}

/// What streaming in line mode emits: everything from the start of the
/// resolved line on, or nothing.
pub open spec fn spec_tail_lines(data: Seq<u8>, tv: TakeValue, total: int) -> Seq<u8> {
    match start_index(tv, total) {
        None => Seq::empty(),
        Some(k) => data.skip(line_start(data, k)),
    }
}

/// What streaming in byte mode emits: everything from the resolved byte on,
/// or nothing.
pub open spec fn spec_tail_bytes(data: Seq<u8>, tv: TakeValue, total: int) -> Seq<u8> {
    match start_index(tv, total) {
        None => Seq::empty(),
        Some(k) => if k <= data.len() {
            data.skip(k)
        } else {
            Seq::empty()
        },
    }
}

/// Newlines are never counted negatively.
proof fn lemma_newline_count_nonneg(s: Seq<u8>)
    ensures
        newline_count(s) >= 0,
    decreases s.len(),
{
    if s.len() > 0 {
        lemma_newline_count_nonneg(s.drop_last());
    }
}

/// A content cannot hold more newlines than bytes.
proof fn lemma_newline_count_le(s: Seq<u8>)
    ensures
        newline_count(s) <= s.len(),
    decreases s.len(),
{
    if s.len() > 0 {
        lemma_newline_count_le(s.drop_last());
    }
}

/// A nonempty content holds at least one line.
pub proof fn lemma_lines_in_pos(s: Seq<u8>)
    ensures
        lines_in(s) >= 0,
        s.len() > 0 ==> lines_in(s) >= 1,
    decreases s.len(),
{
    lemma_newline_count_nonneg(s);
    if s.len() > 0 && s.last() == nl() {
        lemma_newline_count_nonneg(s.drop_last());
    }
}

/// `next_line_start` never moves backwards nor past the end.
proof fn lemma_next_line_start_bounds(s: Seq<u8>, j: int)
    requires
        0 <= j <= s.len(),
    ensures
        j <= next_line_start(s, j) <= s.len(),
    decreases s.len() - j,
{
    if j < s.len() && s[j] != nl() {
        lemma_next_line_start_bounds(s, j + 1);
    }
}

/// Line starts lie within the content.
pub proof fn lemma_line_start_bounds(s: Seq<u8>, k: int)
    requires
        k >= 0,
    ensures
        0 <= line_start(s, k) <= s.len(),
    decreases k,
{
    if k > 0 {
        lemma_line_start_bounds(s, k - 1);
        lemma_next_line_start_bounds(s, line_start(s, k - 1));
    }
}

/// Scanning from `a` over non-newlines up to a newline at `p` lands the next
/// line start just after `p`.
proof fn lemma_scan_next(s: Seq<u8>, a: int, p: int)
    requires
        0 <= a <= p < s.len(),
        forall|j: int| a <= j < p ==> s[j] != nl(),
        s[p] == nl(),
    ensures
        next_line_start(s, a) == p + 1,
    decreases p - a,
{
    if a < p {
        lemma_scan_next(s, a + 1, p);
    }
}

/// With no newline from `a` to the end, the next line start is the end.
proof fn lemma_scan_end(s: Seq<u8>, a: int)
    requires
        0 <= a <= s.len(),
        forall|j: int| a <= j < s.len() ==> s[j] != nl(),
    ensures
        next_line_start(s, a) == s.len(),
    decreases s.len() - a,
{
    if a < s.len() {
        lemma_scan_end(s, a + 1);
    }
}

/// Once a line starts at the end of the content, so do all later ones.
proof fn lemma_line_start_saturates(s: Seq<u8>, k: int, m: int)
    requires
        0 <= k <= m,
        line_start(s, k) == s.len(),
    ensures
        line_start(s, m) == s.len(),
    decreases m - k,
{
    if k < m {
        assert(next_line_start(s, s.len() as int) == s.len());
        lemma_line_start_saturates(s, k + 1, m);
    }
}

/// Count the lines and the bytes of a content in one pass.
pub fn count_lines_bytes(data: &[u8]) -> (r: (i64, i64))
    requires
        data@.len() <= i64::MAX,
    ensures
        r.0 == lines_in(data@),
        r.1 == data@.len(),
{
    let n = data.len();
    let mut i: usize = 0;
    let mut newlines: i64 = 0;
    while i < n
        invariant
            i <= n,
            n == data@.len() <= i64::MAX,
            newlines == newline_count(data@.subrange(0, i as int)),
            newlines <= i,
        decreases n - i,
    {
        let b = *slice_index_get(data, i);
        proof {
            assert(data@.subrange(0, i + 1 as int).drop_last() =~= data@.subrange(0, i as int));
            assert(data@.subrange(0, i + 1 as int).last() == data@[i as int]);
            lemma_newline_count_nonneg(data@.subrange(0, i as int));
        }
        if b == 10 {
            newlines = newlines + 1;
        }
        i = i + 1;
    }
    proof {
        assert(data@.subrange(0, n as int) =~= data@);
        lemma_newline_count_nonneg(data@);
    }
    let lines: i64 = if n > 0 && *slice_index_get(data, n - 1) != 10 {
        proof {
            assert(data@.drop_last() =~= data@.subrange(0, n - 1));
            lemma_newline_count_le(data@.drop_last());
        }
        newlines + 1
    } else {
        newlines
    };
    (lines, n as i64)
}

/// Stream in line mode: emit every line whose zero-based index is at least
/// the resolved start, verbatim, terminators included.
pub fn tail_lines(data: &[u8], num_lines: &TakeValue, total_lines: i64) -> (r: Vec<u8>)
    requires
        total_lines >= 0,
    ensures
        r@ == spec_tail_lines(data@, *num_lines, total_lines as int),
{
    match get_start_index(num_lines, total_lines) {
        None => Vec::new(),
        Some(start) => {
            proof {
                lemma_line_start_bounds(data@, start as int);
            }
            let n = data.len();
            let mut pos: usize = 0;
            let mut line: u64 = 0;
            while pos < n && line < start
                invariant
                    pos <= n,
                    n == data@.len(),
                    line <= start,
                    line_start(data@, line as int) <= pos as int,
                    forall|j: int| line_start(data@, line as int) <= j < pos ==> data@[j] != nl(),
                    line == start ==> pos as int == line_start(data@, line as int),
                decreases n - pos,
            {
                let b = *slice_index_get(data, pos);
                if b == 10 {
                    proof {
                        lemma_line_start_bounds(data@, line as int);
                        lemma_scan_next(data@, line_start(data@, line as int), pos as int);
                    }
                    line = line + 1;
                }
                pos = pos + 1;
            }
            proof {
                if line < start {
                    lemma_line_start_bounds(data@, line as int);
                    lemma_scan_end(data@, line_start(data@, line as int));
                    lemma_line_start_saturates(data@, line + 1, start as int);
                    assert(pos as int == data@.len());
                }
                assert(pos as int == line_start(data@, start as int));
            }
            slice_to_vec(slice_subrange(data, pos, n))
        },
    }
}

/// Stream in byte mode: emit everything from the resolved byte offset on.
pub fn tail_bytes(data: &[u8], num_bytes: &TakeValue, total_bytes: i64) -> (r: Vec<u8>)
    requires
        total_bytes >= 0,
    ensures
        r@ == spec_tail_bytes(data@, *num_bytes, total_bytes as int),
{
    match get_start_index(num_bytes, total_bytes) {
        None => Vec::new(),
        Some(start) => {
            if start >= data.len() as u64 {
                proof {
                    if start as int == data@.len() {
                        assert(data@.skip(start as int) =~= Seq::<u8>::empty());
                    }
                }
                Vec::new()
            } else {
                slice_to_vec(slice_subrange(data, start as usize, data.len()))
            }
        },
    }
}

/// Law: a specifier that means "the whole file" — `+0`, or a negative count
/// whose magnitude reaches the file's line total — streams, in line mode,
/// exactly the file's original bytes.
pub proof fn lemma_whole_file_lines(data: Seq<u8>, tv: TakeValue, total: int)
    requires
        total == lines_in(data),
        tv is PlusZero || (tv matches TakeValue::TakeNum(n) && n < 0 && -n >= total),
    ensures
        spec_tail_lines(data, tv, total) == data,
{
    lemma_lines_in_pos(data);
    if data.len() == 0 {
        assert(newline_count(data) == 0);
        assert(spec_tail_lines(data, tv, total) =~= data);
    } else {
        assert(start_index(tv, total) == Some(0int));
        assert(data.skip(0) =~= data);
    }
}

/// Law: a specifier that means "the whole file" — `+0`, or a negative count
/// whose magnitude reaches the file's byte total — streams, in byte mode,
/// exactly the file's original bytes.
pub proof fn lemma_whole_file_bytes(data: Seq<u8>, tv: TakeValue, total: int)
    requires
        total == data.len(),
        tv is PlusZero || (tv matches TakeValue::TakeNum(n) && n < 0 && -n >= total),
    ensures
        spec_tail_bytes(data, tv, total) == data,
{
    if data.len() == 0 {
        assert(spec_tail_bytes(data, tv, total) =~= data);
    } else {
        assert(start_index(tv, total) == Some(0int));
        assert(data.skip(0) =~= data);
    }
}

} // verus!
