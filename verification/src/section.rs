//! The sectioner: deterministic sliding-window splitting of a file's
//! line range into overlapping sections.
//!
//! Section `k` starts at line `k * stride` and spans `window` lines,
//! clamped to the file, so the final section may be shorter. As long as
//! the stride does not exceed the window, every line of the file lies
//! in at least one section.

use crate::lines::join_range;
use crate::lines::spec_join;
use crate::lines::spec_lines;
use crate::lines::split_lines;
use vstd::arithmetic::div_mod::lemma_fundamental_div_mod;
use vstd::arithmetic::div_mod::lemma_fundamental_div_mod_converse;
use vstd::arithmetic::div_mod::lemma_mod_bound;
use vstd::arithmetic::mul::lemma_mul_inequality;
use vstd::arithmetic::mul::lemma_mul_strict_inequality;
use vstd::prelude::*;

verus! {

/// How many sections a file of `line_count` lines yields under `stride`:
/// one per started stride step.
pub open spec fn spec_num_sections(line_count: int, stride: int) -> int {
    if line_count == 0 {
        0
    } else {
        (line_count + stride - 1) / stride
    }
}

/// The last line (inclusive) of the section that starts at `start`: the
/// window, clamped to the end of the file.
pub open spec fn spec_section_end(start: int, window: int, line_count: int) -> int {
    if start + window <= line_count {
        start + window - 1
    } else {
        line_count - 1
    }
}

/// Whether `line` lies inside at least one of the given inclusive ranges.
pub open spec fn spec_covers(ranges: Seq<(usize, usize)>, line: int) -> bool {
    exists|k: int| 0 <= k < ranges.len() && (#[trigger] ranges[k]).0 <= line <= ranges[k].1
}

/// All section ranges of a file, as inclusive `(start_line, end_line)`
/// pairs in ascending start order.
///
/// The contract pins every range (start `k * stride`, clamped window
/// end), the exact number of ranges, that starts strictly increase, and
/// that the ranges stay within and together cover `[0, line_count)`.
pub fn section_ranges(line_count: usize, window: usize, stride: usize) -> (r: Vec<
    (usize, usize),
>)
    requires
        1 <= stride <= window,
    ensures
        r@.len() == spec_num_sections(line_count as int, stride as int),
        forall|k: int| 0 <= k < r@.len() ==> (#[trigger] r@[k]).0 == k * stride,
        forall|k: int|
            0 <= k < r@.len() ==> (#[trigger] r@[k]).1 == spec_section_end(
                k * stride,
                window as int,
                line_count as int,
            ),
        forall|k: int|
            0 <= k < r@.len() ==> (#[trigger] r@[k]).0 <= r@[k].1 < line_count,
        forall|k1: int, k2: int|
            0 <= k1 < k2 < r@.len() ==> (#[trigger] r@[k1]).0 < (#[trigger] r@[k2]).0,
        forall|line: int| 0 <= line < line_count ==> #[trigger] spec_covers(r@, line),
{
    let mut r: Vec<(usize, usize)> = Vec::new();
    let mut i: usize = 0;
    while i < line_count
        invariant
            1 <= stride <= window,
            forall|k: int| 0 <= k < r@.len() ==> (#[trigger] r@[k]).0 == k * stride,
            forall|k: int|
                0 <= k < r@.len() ==> (#[trigger] r@[k]).1 == spec_section_end(
                    k * stride,
                    window as int,
                    line_count as int,
                ),
            forall|k: int|
                0 <= k < r@.len() ==> (#[trigger] r@[k]).0 <= r@[k].1 < line_count,
            i == r@.len() * stride || (i == line_count && r@.len() > 0 && line_count <= r@.len()
                * stride),
        decreases line_count - i,
    {
        let end = if line_count - i > window {
            i + window
        } else {
            line_count
        };
        let ghost len0 = r@.len() as int;
        r.push((i, end - 1));
        proof {
            assert(i == len0 * stride);
            assert(end - 1 == spec_section_end(len0 * stride, window as int, line_count as int));
            assert((len0 + 1) * stride == len0 * stride + stride) by (nonlinear_arith);
        }
        if line_count - i > stride {
            i = i + stride;
        } else {
            i = line_count;
        }
    }
    proof {
        let lc = line_count as int;
        let st = stride as int;
        let n = r@.len() as int;
        if lc == 0 {
            if n > 0 {
                assert(r@[0].0 <= r@[0].1 < lc);
            }
            assert(n == 0);
        } else {
            assert(n > 0);
            assert(r@[n - 1].0 == (n - 1) * st);
            assert((n - 1) * st < lc);
            assert(lc <= n * st);
            assert((n - 1) * st == n * st - st) by (nonlinear_arith);
            lemma_fundamental_div_mod_converse(lc + st - 1, st, n, lc + st - 1 - n * st);
        }
        assert forall|k1: int, k2: int|
            0 <= k1 < k2 < r@.len() implies (#[trigger] r@[k1]).0 < (#[trigger] r@[k2]).0 by {
            lemma_mul_strict_inequality(k1, k2, st);
        }
        assert forall|line: int| 0 <= line < lc implies #[trigger] spec_covers(r@, line) by {
            let k = line / st;
            lemma_fundamental_div_mod(line, st);
            lemma_mod_bound(line, st);
            assert(st * k == k * st) by (nonlinear_arith);
            assert(k >= 0) by (nonlinear_arith)
                requires
                    line >= 0,
                    st >= 1,
                    line == k * st + (line % st),
                    0 <= line % st < st,
            ;
            assert(k * st <= line < k * st + st);
            assert(lc <= n * st);
            if k >= n {
                lemma_mul_inequality(n, k, st);
                assert(false);
            }
            assert(r@[k].0 == k * st);
            assert(r@[k].1 == spec_section_end(k * st, window as int, lc));
            assert(r@[k].0 <= line <= r@[k].1);
        }
    }
    r
}

/// The text of every section of `content`: the section's lines joined
/// by line feeds, one entry per range of [`section_ranges`], in order.
pub fn section_texts(content: &str, window: usize, stride: usize) -> (r: Vec<String>)
    requires
        1 <= stride <= window,
    ensures
        r@.len() == spec_num_sections(spec_lines(content@).len() as int, stride as int),
        forall|k: int|
            0 <= k < r@.len() ==> (#[trigger] r@[k])@ == spec_join(
                spec_lines(content@).subrange(
                    k * stride,
                    spec_section_end(
                        k * stride,
                        window as int,
                        spec_lines(content@).len() as int,
                    ) + 1,
                ),
            ),
{
    let lines = split_lines(content);
    let total = lines.len();
    let ranges = section_ranges(total, window, stride);
    let mut r: Vec<String> = Vec::new();
    let mut i: usize = 0;
    proof {
        assert(lines.deep_view().len() == lines@.len());
    }
    while i < ranges.len()
        invariant
            lines.deep_view() == spec_lines(content@),
            lines.deep_view().len() == lines@.len(),
            total == lines@.len(),
            r@.len() == i <= ranges@.len(),
            forall|k: int| 0 <= k < ranges@.len() ==> (#[trigger] ranges@[k]).0 == k * stride,
            forall|k: int|
                0 <= k < ranges@.len() ==> (#[trigger] ranges@[k]).1 == spec_section_end(
                    k * stride,
                    window as int,
                    lines@.len() as int,
                ),
            forall|k: int|
                0 <= k < ranges@.len() ==> (#[trigger] ranges@[k]).0 <= ranges@[k].1
                    < lines@.len(),
            forall|k: int|
                0 <= k < i ==> (#[trigger] r@[k])@ == spec_join(
                    lines.deep_view().subrange(k * stride, ranges@[k].1 + 1),
                ),
        decreases ranges@.len() - i,
    {
        let (start, end) = ranges[i];
        proof {
            assert((start, end) == ranges@[i as int]);
            assert(ranges@[i as int].0 <= ranges@[i as int].1 < lines@.len());
        }
        let text = join_range(&lines, start, end + 1);
        r.push(text);
        i = i + 1;
    }
    r
}

} // verus!
