//! The laws of the line filter, stated over the same spec functions that the
//! search functions' contracts use.

use crate::lines::lines_spec;
use crate::matching::contains_spec;
use crate::matching::lower_of;
use crate::matching::search_case_insensitive_spec;
use crate::matching::search_spec;
use crate::seqs::lemma_filter_all_true;
use crate::seqs::lemma_filter_monotone;
use crate::seqs::lemma_filter_subsequence;
use crate::seqs::subsequence_of;
use vstd::prelude::*;

verus! {

/// An empty query matches vacuously, so searching for it returns every line
/// of the contents, in original order.
pub proof fn lemma_empty_query_returns_all_lines(contents: Seq<char>)
    ensures
        search_spec(Seq::empty(), contents) == lines_spec(contents),
{
    let lines = lines_spec(contents);
    let pred = |line: Seq<char>| contains_spec(line, Seq::<char>::empty());
    assert forall|i: int| 0 <= i < lines.len() implies pred(lines[i]) by {
        assert(lines[i].subrange(0, 0 + Seq::<char>::empty().len() as int) =~= Seq::<
            char,
        >::empty());
    }
    lemma_filter_all_true(lines, pred);
}

/// Search results are a subsequence, in original order, of the lines of the
/// contents, and every returned line contains the query as an exact
/// substring.
pub proof fn lemma_search_sound(query: Seq<char>, contents: Seq<char>)
    ensures
        subsequence_of(search_spec(query, contents), lines_spec(contents)),
        forall|i: int|
            0 <= i < search_spec(query, contents).len() ==> contains_spec(
                #[trigger] search_spec(query, contents)[i],
                query,
            ),
{
    let lines = lines_spec(contents);
    let pred = |line: Seq<char>| contains_spec(line, query);
    lemma_filter_subsequence(lines, pred);
    assert forall|i: int| 0 <= i < search_spec(query, contents).len() implies contains_spec(
        search_spec(query, contents)[i],
        query,
    ) by {
        lines.lemma_filter_pred(pred, i);
    }
}

/// Case-insensitive results are a subsequence, in original order, of the
/// lines of the contents, and the lowercase form of every returned line
/// contains the lowercase form of the query.
pub proof fn lemma_search_case_insensitive_sound(query: Seq<char>, contents: Seq<char>)
    ensures
        subsequence_of(search_case_insensitive_spec(query, contents), lines_spec(contents)),
        forall|i: int|
            0 <= i < search_case_insensitive_spec(query, contents).len() ==> contains_spec(
                lower_of(#[trigger] search_case_insensitive_spec(query, contents)[i]),
                lower_of(query),
            ),
{
    let lines = lines_spec(contents);
    let pred = |line: Seq<char>| contains_spec(lower_of(line), lower_of(query));
    lemma_filter_subsequence(lines, pred);
    assert forall|i: int|
        0 <= i < search_case_insensitive_spec(query, contents).len() implies contains_spec(
        lower_of(search_case_insensitive_spec(query, contents)[i]),
        lower_of(query),
    ) by {
        lines.lemma_filter_pred(pred, i);
    }
}

/// On every line where lowercasing preserves the match — an exact occurrence
/// of the query keeps an occurrence of the lowercased query in the lowercased
/// line — the case-insensitive search accepts at least what the
/// case-sensitive search accepts: its result contains the case-sensitive
/// result as a subsequence, in original order. The hypothesis is needed
/// because the lowercase transform is a simple unconditional case fold and is
/// not pinned down character by character here.
pub proof fn lemma_case_insensitive_superset(query: Seq<char>, contents: Seq<char>)
    requires
        forall|k: int|
            0 <= k < lines_spec(contents).len() ==> (contains_spec(
                #[trigger] lines_spec(contents)[k],
                query,
            ) ==> contains_spec(lower_of(lines_spec(contents)[k]), lower_of(query))),
    ensures
        subsequence_of(
            search_spec(query, contents),
            search_case_insensitive_spec(query, contents),
        ),
{
    let lines = lines_spec(contents);
    let p = |line: Seq<char>| contains_spec(line, query);
    let q = |line: Seq<char>| contains_spec(lower_of(line), lower_of(query));
    lemma_filter_monotone(lines, p, q);
}

/// Searching is a pure function of its inputs: any two results that meet the
/// contract of the case-sensitive search on identical inputs are identical.
pub proof fn lemma_search_deterministic(
    query: Seq<char>,
    contents: Seq<char>,
    r1: Seq<Seq<char>>,
    r2: Seq<Seq<char>>,
)
    requires
        r1 == search_spec(query, contents),
        r2 == search_spec(query, contents),
    ensures
        r1 == r2,
{
}

/// Case-insensitive searching is a pure function of its inputs as well: any
/// two results that meet its contract on identical inputs are identical.
pub proof fn lemma_search_case_insensitive_deterministic(
    query: Seq<char>,
    contents: Seq<char>,
    r1: Seq<Seq<char>>,
    r2: Seq<Seq<char>>,
)
    requires
        r1 == search_case_insensitive_spec(query, contents),
        r2 == search_case_insensitive_spec(query, contents),
    ensures
        r1 == r2,
{
}

/// Empty contents have no lines, so both searches return the empty sequence
/// for every query.
pub proof fn lemma_empty_contents(query: Seq<char>)
    ensures
        search_spec(query, Seq::empty()) == Seq::<Seq<char>>::empty(),
        search_case_insensitive_spec(query, Seq::empty()) == Seq::<Seq<char>>::empty(),
{
    reveal_with_fuel(Seq::filter, 2);
}

} // verus!
