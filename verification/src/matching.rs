//! The line filter: substring containment and the two search entry points,
//! one case-sensitive, one case-insensitive.

use crate::config::Config;
use crate::lines::lemma_deep_view_push;
use crate::lines::lines_spec;
use crate::lines::split_lines;
use crate::seqs::lemma_filter_push;
use vstd::prelude::*;
use vstd::string::StrSliceExecFns;

verus! {

/// `query` occurs in `line` as a contiguous substring; the empty query
/// occurs in every line, and a query longer than the line never does.
pub open spec fn contains_spec(line: Seq<char>, query: Seq<char>) -> bool {
    exists|i: int|
        0 <= i && i + query.len() <= line.len() && #[trigger] line.subrange(
            i,
            i + query.len() as int,
        ) == query
}

/// What `str::to_lowercase` returns for a given character sequence. The
/// mapping is not length-preserving or otherwise pinned down here; it is a
/// fixed function of the input characters alone.
pub uninterp spec fn lower_of(s: Seq<char>) -> Seq<char>;

/// Relies on `str::to_lowercase`: the locale-independent lowercase form of
/// the string, a function of its characters alone.
#[verifier::external_body]
fn to_lowercase(s: &str) -> (r: String)
    ensures
        r@ == lower_of(s@),
{
    s.to_lowercase()
}

/// The lines of `contents` that contain `query`, in original order.
pub open spec fn search_spec(query: Seq<char>, contents: Seq<char>) -> Seq<Seq<char>> {
    lines_spec(contents).filter(|line: Seq<char>| contains_spec(line, query))
}

/// The lines of `contents` whose lowercase form contains the lowercase form
/// of `query`, in original order.
pub open spec fn search_case_insensitive_spec(query: Seq<char>, contents: Seq<char>) -> Seq<
    Seq<char>,
> {
    lines_spec(contents).filter(
        |line: Seq<char>| contains_spec(lower_of(line), lower_of(query)),
    )
}

/// `query` matches `line` at position `offset` exactly when the characters
/// from `offset` on are the characters of `query`.
fn match_at(line: &str, query: &str, offset: usize, line_len: usize, query_len: usize) -> (b:
    bool)
    requires
        line_len == line@.len(),
        query_len == query@.len(),
        offset + query_len <= line_len,
    ensures
        b == (line@.subrange(offset as int, offset as int + query@.len() as int) == query@),
{
    let mut j: usize = 0;
    while j < query_len
        invariant
            line_len == line@.len(),
            query_len == query@.len(),
            offset + query_len <= line_len,
            j <= query_len,
            forall|k: int| 0 <= k < j ==> line@[offset + k] == query@[k],
        decreases query_len - j,
    {
        if line.get_char(offset + j) != query.get_char(j) {
            proof {
                assert(line@.subrange(offset as int, offset as int + query@.len() as int)[j as int]
                    == line@[offset + j]);
            }
            return false;
        }
        j = j + 1;
    }
    proof {
        assert(line@.subrange(offset as int, offset as int + query@.len() as int) =~= query@);
    }
    true
}

/// Whether `query` occurs in `line` as a contiguous substring.
fn contains_substr(line: &str, query: &str) -> (b: bool)
    ensures
        b == contains_spec(line@, query@),
{
    let n = line.unicode_len();
    let m = query.unicode_len();
    if m > n {
        return false;
    }
    let limit = n - m;
    let mut i: usize = 0;
    loop
        invariant
            m <= n,
            n == line@.len(),
            m == query@.len(),
            limit == n - m,
            i <= limit,
            forall|k: int|
                0 <= k < i ==> #[trigger] line@.subrange(k, k + query@.len() as int) != query@,
        decreases limit - i,
    {
        if match_at(line, query, i, n, m) {
            return true;
        }
        if i == limit {
            proof {
                assert(forall|k: int|
                    0 <= k <= limit ==> #[trigger] line@.subrange(k, k + query@.len() as int)
                        != query@);
            }
            return false;
        }
        i = i + 1;
    }
}

/// Case-sensitive search: the lines of `contents`, as borrowed slices in
/// original order, that contain `query` as an exact substring.
pub fn search<'a>(query: &str, contents: &'a str) -> (r: Vec<&'a str>)
    ensures
        r.deep_view() == search_spec(query@, contents@),
{
    let lines = split_lines(contents);
    let ghost pred = |line: Seq<char>| contains_spec(line, query@);
    let mut r: Vec<&'a str> = Vec::new();
    let mut i: usize = 0;
    proof {
        assert(r.deep_view() =~= Seq::<Seq<char>>::empty());
        assert(lines.deep_view().subrange(0, 0) =~= Seq::<Seq<char>>::empty());
        reveal_with_fuel(Seq::filter, 2);
    }
    while i < lines.len()
        invariant
            lines.deep_view() == lines_spec(contents@),
            lines.deep_view().len() == lines@.len(),
            i <= lines@.len(),
            pred == (|line: Seq<char>| contains_spec(line, query@)),
            r.deep_view() == lines.deep_view().subrange(0, i as int).filter(pred),
        decreases lines@.len() - i,
    {
        let line = lines[i];
        let matched = contains_substr(line, query);
        proof {
            assert(lines.deep_view()[i as int] == line@);
            assert(lines.deep_view().subrange(0, i + 1) =~= lines.deep_view().subrange(
                0,
                i as int,
            ).push(line@));
            lemma_filter_push(lines.deep_view().subrange(0, i as int), line@, pred);
        }
        if matched {
            let ghost pre = r@;
            let ghost old_deep = r.deep_view();
            r.push(line);
            proof {
                lemma_deep_view_push(pre, r, line);
                assert(old_deep =~= Seq::new(pre.len(), |k: int| pre[k]@));
            }
        }
        i = i + 1;
    }
    proof {
        assert(lines.deep_view().subrange(0, i as int) =~= lines.deep_view());
    }
    r
}

/// Case-insensitive search: the lines of `contents`, as borrowed slices in
/// original order, whose lowercase form contains the lowercase form of
/// `query`. Lowercasing is the simple unconditional case fold of
/// `str::to_lowercase`, which is not Unicode-normalization-aware.
pub fn search_case_insensitive<'a>(query: &str, contents: &'a str) -> (r: Vec<&'a str>)
    ensures
        r.deep_view() == search_case_insensitive_spec(query@, contents@),
{
    let query_lower = to_lowercase(query);
    let lines = split_lines(contents);
    let ghost pred = |line: Seq<char>| contains_spec(lower_of(line), lower_of(query@));
    let mut r: Vec<&'a str> = Vec::new();
    let mut i: usize = 0;
    proof {
        assert(r.deep_view() =~= Seq::<Seq<char>>::empty());
        assert(lines.deep_view().subrange(0, 0) =~= Seq::<Seq<char>>::empty());
        reveal_with_fuel(Seq::filter, 2);
    }
    while i < lines.len()
        invariant
            lines.deep_view() == lines_spec(contents@),
            lines.deep_view().len() == lines@.len(),
            i <= lines@.len(),
            query_lower@ == lower_of(query@),
            pred == (|line: Seq<char>| contains_spec(lower_of(line), lower_of(query@))),
            r.deep_view() == lines.deep_view().subrange(0, i as int).filter(pred),
        decreases lines@.len() - i,
    {
        let line = lines[i];
        let line_lower = to_lowercase(line);
        let matched = contains_substr(line_lower.as_str(), query_lower.as_str());
        proof {
            assert(lines.deep_view()[i as int] == line@);
            assert(lines.deep_view().subrange(0, i + 1) =~= lines.deep_view().subrange(
                0,
                i as int,
            ).push(line@));
            lemma_filter_push(lines.deep_view().subrange(0, i as int), line@, pred);
        }
        if matched {
            let ghost pre = r@;
            let ghost old_deep = r.deep_view();
            r.push(line);
            proof {
                lemma_deep_view_push(pre, r, line);
                assert(old_deep =~= Seq::new(pre.len(), |k: int| pre[k]@));
            }
        }
        i = i + 1;
    }
    proof {
        assert(lines.deep_view().subrange(0, i as int) =~= lines.deep_view());
    }
    r
}

/// The verified heart of the top-level run operation: applies the search
/// variant that the execution plan calls for to the loaded contents.
pub fn matching_lines<'a>(config: &Config, contents: &'a str) -> (r: Vec<&'a str>)
    ensures
        config.case_sensitive ==> r.deep_view() == search_spec(config.query@, contents@),
        !config.case_sensitive ==> r.deep_view() == search_case_insensitive_spec(
            config.query@,
            contents@,
        ),
{
    if config.case_sensitive {
        search(config.query.as_str(), contents)
    } else {
        search_case_insensitive(config.query.as_str(), contents)
    }
}

} // verus!
