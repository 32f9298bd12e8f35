//! Splitting text into lines and joining line ranges back together.
//!
//! A line ends at a line feed; a carriage return directly before the
//! line feed belongs to the ending and is stripped. The final line
//! ending is optional: text after the last line feed forms one more
//! line, and text that ends in a line feed has no empty line after it.

use vstd::prelude::*;
use vstd::string::StrSliceExecFns;
use vstd::string::StringExecFns;

verus! {

/// Index of the first line feed in `s`, or `s.len()` if there is none.
pub open spec fn first_nl(s: Seq<char>) -> int
    decreases s.len(),
{
    if s.len() == 0 {
        0
    } else if s[0] == '\n' {
        0
    } else {
        1 + first_nl(s.drop_first())
    }
}

/// `first_nl` is pinned down by its characterisation: no line feed
/// before position `k`, and a line feed at `k` unless `k` is the length.
pub proof fn lemma_first_nl_at(s: Seq<char>, k: int)
    requires
        0 <= k <= s.len(),
        forall|j: int| 0 <= j < k ==> s[j] != '\n',
        k < s.len() ==> s[k] == '\n',
    ensures
        first_nl(s) == k,
    decreases s.len(),
{
    if s.len() == 0 {
    } else if s[0] == '\n' {
        assert(k == 0);
    } else {
        assert(k >= 1);
        assert forall|j: int| 0 <= j < k - 1 implies s.drop_first()[j] != '\n' by {
            assert(s.drop_first()[j] == s[j + 1]);
        }
        if k < s.len() {
            assert(s.drop_first()[k - 1] == s[k]);
        }
        lemma_first_nl_at(s.drop_first(), k - 1);
    }
}

/// A carriage return directly before a line feed belongs to the line
/// ending, not to the line.
pub open spec fn strip_cr(line: Seq<char>) -> Seq<char> {
    if line.len() > 0 && line[line.len() - 1] == '\r' {
        line.drop_last()
    } else {
        line
    }
}

/// The lines of `s`, split at line feeds, each with a carriage return
/// before the line feed stripped; a final line ending produces no empty
/// last line.
pub open spec fn spec_lines(s: Seq<char>) -> Seq<Seq<char>>
    decreases s.len(),
{
    if s.len() == 0 {
        Seq::empty()
    } else {
        let k = first_nl(s);
        if 0 <= k && k < s.len() {
            seq![strip_cr(s.subrange(0, k))] + spec_lines(s.subrange(k + 1, s.len() as int))
        } else {
            seq![s]
        }
    }
}

/// The line range joined back into one text, with a single line feed
/// between consecutive lines.
pub open spec fn spec_join(lines: Seq<Seq<char>>) -> Seq<char>
    decreases lines.len(),
{
    if lines.len() == 0 {
        Seq::empty()
    } else if lines.len() == 1 {
        lines[0]
    } else {
        lines[0] + seq!['\n'] + spec_join(lines.drop_first())
    }
}

/// Joining one more line appends a line feed and that line, except onto
/// an empty join.
pub proof fn lemma_spec_join_push(lines: Seq<Seq<char>>, line: Seq<char>)
    ensures
        lines.len() == 0 ==> spec_join(lines.push(line)) == line,
        lines.len() > 0 ==> spec_join(lines.push(line)) == spec_join(lines) + seq!['\n'] + line,
    decreases lines.len(),
{
    let pushed = lines.push(line);
    if lines.len() == 0 {
        assert(pushed[0] == line);
    } else if lines.len() == 1 {
        assert(pushed.drop_first() =~= seq![line]);
        assert(pushed[0] == lines[0]);
        assert(seq![line].len() == 1 && seq![line][0] == line);
        assert(spec_join(seq![line]) == line);
        assert(spec_join(pushed) == lines[0] + seq!['\n'] + line);
    } else {
        lemma_spec_join_push(lines.drop_first(), line);
        assert(pushed.drop_first() =~= lines.drop_first().push(line));
        assert(lines[0] + seq!['\n'] + (spec_join(lines.drop_first()) + seq!['\n'] + line) =~= (
        lines[0] + seq!['\n'] + spec_join(lines.drop_first())) + seq!['\n'] + line);
    }
}

/// Split `s` into its lines.
pub fn split_lines(s: &str) -> (r: Vec<String>)
    ensures
        r.deep_view() == spec_lines(s@),
{
    let n = s.unicode_len();
    let mut r: Vec<String> = Vec::new();
    let mut seg_start: usize = 0;
    let mut i: usize = 0;
    proof {
        assert(s@.skip(0) =~= s@);
        assert(r.deep_view() + spec_lines(s@) =~= spec_lines(s@));
    }
    while i < n
        invariant
            n == s@.len(),
            seg_start <= i <= n,
            forall|j: int| seg_start <= j < i ==> s@[j] != '\n',
            spec_lines(s@) == r.deep_view() + spec_lines(s@.skip(seg_start as int)),
        decreases n - i,
    {
        let c = s.get_char(i);
        if c == '\n' {
            let line_end = if i > seg_start && s.get_char(i - 1) == '\r' {
                i - 1
            } else {
                i
            };
            let line = String::from_str(s.substring_char(seg_start, line_end));
            let ghost r0 = r.deep_view();
            r.push(line);
            proof {
                let t = s@.skip(seg_start as int);
                assert forall|j: int| 0 <= j < i - seg_start implies t[j] != '\n' by {
                    assert(t[j] == s@[seg_start + j]);
                }
                assert(t[i - seg_start] == s@[i as int]);
                lemma_first_nl_at(t, i - seg_start);
                assert(t.subrange(0, i - seg_start) =~= s@.subrange(
                    seg_start as int,
                    i as int,
                ));
                assert(t.subrange(i - seg_start + 1, t.len() as int) =~= s@.skip(i + 1));
                assert(strip_cr(s@.subrange(seg_start as int, i as int)) =~= s@.subrange(
                    seg_start as int,
                    line_end as int,
                ));
                assert(r.deep_view() =~= r0.push(line@));
                assert(r0 + spec_lines(t) =~= r.deep_view() + spec_lines(s@.skip(i + 1)));
            }
            seg_start = i + 1;
        }
        i = i + 1;
    }
    if seg_start < n {
        let line = String::from_str(s.substring_char(seg_start, n));
        let ghost r0 = r.deep_view();
        r.push(line);
        proof {
            let t = s@.skip(seg_start as int);
            assert forall|j: int| 0 <= j < t.len() implies t[j] != '\n' by {
                assert(t[j] == s@[seg_start + j]);
            }
            lemma_first_nl_at(t, t.len() as int);
            assert(t =~= s@.subrange(seg_start as int, n as int));
            assert(spec_lines(t) =~= seq![t]);
            assert(r.deep_view() =~= r0.push(line@));
            assert(r0 + spec_lines(t) =~= r.deep_view());
        }
    } else {
        proof {
            assert(s@.skip(seg_start as int) =~= Seq::<char>::empty());
            assert(r.deep_view() + spec_lines(Seq::<char>::empty()) =~= r.deep_view());
        }
    }
    r
}

/// Join the lines with indices in `[from, to)` with line feeds.
pub fn join_range(lines: &Vec<String>, from: usize, to: usize) -> (r: String)
    requires
        from <= to <= lines@.len(),
    ensures
        r@ == spec_join(lines.deep_view().subrange(from as int, to as int)),
{
    let mut r = String::new();
    let mut i = from;
    proof {
        assert(lines.deep_view().subrange(from as int, from as int) =~= Seq::<Seq<char>>::empty());
    }
    while i < to
        invariant
            from <= i <= to <= lines@.len(),
            lines.deep_view().len() == lines@.len(),
            r@ == spec_join(lines.deep_view().subrange(from as int, i as int)),
        decreases to - i,
    {
        if i > from {
            r.append("\n");
        }
        r.append(lines[i].as_str());
        proof {
            reveal_strlit("\n");
            let dv = lines.deep_view();
            assert("\n"@ =~= seq!['\n']);
            assert(dv[i as int] == lines@[i as int]@);
            lemma_spec_join_push(dv.subrange(from as int, i as int), dv[i as int]);
            assert(dv.subrange(from as int, i as int + 1) =~= dv.subrange(
                from as int,
                i as int,
            ).push(dv[i as int]));
        }
        i = i + 1;
    }
    r
}

} // verus!
