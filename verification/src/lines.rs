//! The line model: how file contents split into lines. Lines are maximal
//! substrings separated by `\n`; an `\r\n` pair counts as one terminator, so
//! the `\r` is stripped; a trailing terminator yields no extra empty line;
//! empty contents yield no lines. Lines are handed out as borrowed slices of
//! the contents.

use vstd::prelude::*;
use vstd::string::StrSliceExecFns;

verus! {

/// The index of the first `\n` in `s`, or `s.len()` when there is none.
pub open spec fn line_break_at(s: Seq<char>) -> int
    decreases s.len(),
{
    if s.len() == 0 {
        0
    } else if s[0] == '\n' {
        0
    } else {
        1 + line_break_at(s.drop_first())
    }
}

/// A terminator `\r\n` drops its carriage return together with the newline.
pub open spec fn strip_carriage_return(line: Seq<char>) -> Seq<char> {
    if line.len() > 0 && line.last() == '\r' {
        line.drop_last()
    } else {
        line
    }
}

/// The sequence of lines of `s`, in original order.
pub open spec fn lines_spec(s: Seq<char>) -> Seq<Seq<char>>
    decreases s.len(),
    via lines_spec_decreases
{
    if s.len() == 0 {
        Seq::empty()
    } else {
        let b = line_break_at(s);
        if b == s.len() {
            seq![s]
        } else {
            seq![strip_carriage_return(s.subrange(0, b))] + lines_spec(
                s.subrange(b + 1, s.len() as int),
            )
        }
    }
}

#[via_fn]
proof fn lines_spec_decreases(s: Seq<char>) {
    lemma_line_break_at_bounds(s);
}

/// `line_break_at` lands in bounds, sees no `\n` before it, and points at a
/// `\n` unless it reached the end.
pub proof fn lemma_line_break_at_bounds(s: Seq<char>)
    ensures
        0 <= line_break_at(s) <= s.len(),
        forall|j: int| 0 <= j < line_break_at(s) ==> s[j] != '\n',
        line_break_at(s) < s.len() ==> s[line_break_at(s)] == '\n',
    decreases s.len(),
{
    if s.len() == 0 {
    } else if s[0] == '\n' {
    } else {
        lemma_line_break_at_bounds(s.drop_first());
        assert forall|j: int| 0 <= j < line_break_at(s) implies s[j] != '\n' by {
            if j > 0 {
                assert(s.drop_first()[j - 1] == s[j]);
            }
        }
        if line_break_at(s) < s.len() {
            assert(s.drop_first()[line_break_at(s) - 1] == s[line_break_at(s)]);
        }
    }
}

/// The characterization of `line_break_at`: a position with no `\n` before it
/// that is the end or holds a `\n` is the break position.
pub proof fn lemma_line_break_at_is(s: Seq<char>, k: int)
    requires
        0 <= k <= s.len(),
        forall|j: int| 0 <= j < k ==> s[j] != '\n',
        k < s.len() ==> s[k] == '\n',
    ensures
        line_break_at(s) == k,
    decreases s.len(),
{
    if s.len() == 0 {
    } else if s[0] == '\n' {
        assert(k == 0);
    } else {
        assert(k >= 1);
        assert forall|j: int| 0 <= j < k - 1 implies s.drop_first()[j] != '\n' by {
            assert(s.drop_first()[j] == s[j + 1]);
        }
        if k - 1 < s.drop_first().len() {
            assert(s.drop_first()[k - 1] == s[k]);
        }
        lemma_line_break_at_is(s.drop_first(), k - 1);
    }
}

/// A string without `\n` is its own single line, unless it is empty.
pub proof fn lemma_lines_no_newline(s: Seq<char>)
    requires
        forall|j: int| 0 <= j < s.len() ==> s[j] != '\n',
    ensures
        s.len() == 0 ==> lines_spec(s) == Seq::<Seq<char>>::empty(),
        s.len() > 0 ==> lines_spec(s) == seq![s],
{
    if s.len() > 0 {
        lemma_line_break_at_is(s, s.len() as int);
    }
}

/// Splitting steps over the first line: when the first `\n` of `s` sits at
/// `b`, the lines of `s` are the first segment (carriage return stripped)
/// followed by the lines of the remainder.
pub proof fn lemma_lines_step(s: Seq<char>, b: int)
    requires
        0 <= b < s.len(),
        s[b] == '\n',
        forall|j: int| 0 <= j < b ==> s[j] != '\n',
    ensures
        lines_spec(s) == seq![strip_carriage_return(s.subrange(0, b))] + lines_spec(
            s.subrange(b + 1, s.len() as int),
        ),
{
    lemma_line_break_at_is(s, b);
}

/// The deep view of a vector of string slices is the sequence of their views;
/// pushing a slice pushes its view.
pub proof fn lemma_deep_view_push<'a>(pre: Seq<&'a str>, v: Vec<&'a str>, x: &'a str)
    requires
        v@ == pre.push(x),
    ensures
        v.deep_view() == Seq::new(pre.len(), |i: int| pre[i]@).push(x@),
{
    assert(v.deep_view() =~= Seq::new(pre.len(), |i: int| pre[i]@).push(x@));
}

/// Splits `contents` into its lines, as borrowed slices in original order.
pub fn split_lines<'a>(contents: &'a str) -> (r: Vec<&'a str>)
    ensures
        r.deep_view() == lines_spec(contents@),
{
    let n = contents.unicode_len();
    let mut r: Vec<&'a str> = Vec::new();
    let mut start: usize = 0;
    let mut i: usize = 0;
    proof {
        assert(r.deep_view() =~= Seq::<Seq<char>>::empty());
        assert(contents@.subrange(0, n as int) =~= contents@);
        assert(Seq::<Seq<char>>::empty() + lines_spec(contents@) =~= lines_spec(contents@));
    }
    while i < n
        invariant
            n == contents@.len(),
            start <= i <= n,
            forall|j: int| start <= j < i ==> contents@[j] != '\n',
            lines_spec(contents@) == r.deep_view() + lines_spec(
                contents@.subrange(start as int, n as int),
            ),
        decreases n - i,
    {
        let c = contents.get_char(i);
        if c == '\n' {
            let end = if i > start && contents.get_char(i - 1) == '\r' {
                i - 1
            } else {
                i
            };
            let line = contents.substring_char(start, end);
            let ghost pre = r@;
            let ghost old_deep = r.deep_view();
            r.push(line);
            proof {
                lemma_deep_view_push(pre, r, line);
                assert(old_deep =~= Seq::new(pre.len(), |k: int| pre[k]@));
                let suffix = contents@.subrange(start as int, n as int);
                assert forall|j: int| 0 <= j < i - start implies suffix[j] != '\n' by {
                    assert(suffix[j] == contents@[start + j]);
                }
                assert(suffix[i - start] == contents@[i as int]);
                lemma_lines_step(suffix, i - start);
                assert(suffix.subrange(0, i - start) =~= contents@.subrange(
                    start as int,
                    i as int,
                ));
                assert(strip_carriage_return(contents@.subrange(start as int, i as int))
                    =~= line@);
                assert(suffix.subrange(i - start + 1, suffix.len() as int) =~= contents@.subrange(
                    i + 1,
                    n as int,
                ));
                assert(lines_spec(contents@) =~= r.deep_view() + lines_spec(
                    contents@.subrange(i + 1, n as int),
                ));
            }
            start = i + 1;
        }
        i = i + 1;
    }
    if start < n {
        let line = contents.substring_char(start, n);
        let ghost pre = r@;
        let ghost old_deep = r.deep_view();
        r.push(line);
        proof {
            lemma_deep_view_push(pre, r, line);
            assert(old_deep =~= Seq::new(pre.len(), |k: int| pre[k]@));
            let suffix = contents@.subrange(start as int, n as int);
            assert forall|j: int| 0 <= j < suffix.len() implies suffix[j] != '\n' by {
                assert(suffix[j] == contents@[start + j]);
            }
            lemma_lines_no_newline(suffix);
            assert(lines_spec(contents@) =~= r.deep_view());
        }
    } else {
        proof {
            let suffix = contents@.subrange(start as int, n as int);
            assert(suffix =~= Seq::<char>::empty());
            assert(lines_spec(contents@) =~= r.deep_view());
        }
    }
    r
}

} // verus!
