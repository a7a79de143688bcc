//! Library-wide laws of the line matcher, stated and proved once.
use crate::casefold::ascii_lower;
use crate::casefold::seq_is_ascii;
use crate::casefold::spec_lower;
use crate::lines::first_newline;
use crate::lines::lemma_first_newline;
use crate::lines::spec_lines;
use crate::lines::strip_cr;
use crate::matcher::ci_matches;
use crate::matcher::contains_str;
use crate::matcher::is_match_at;
use crate::matcher::matching_views;
use crate::matcher::matching_views_ci;
use crate::matcher::spec_search;
use crate::matcher::spec_search_ci;
use vstd::prelude::*;

verus! {

/// The positions, from first to last, of the lines of `all_lines` that
/// contain the query.
pub open spec fn match_indices(query: Seq<char>, all_lines: Seq<Seq<char>>) -> Seq<int>
    decreases all_lines.len(),
{
    if all_lines.len() == 0 {
        Seq::empty()
    } else if contains_str(all_lines.last(), query) {
        match_indices(query, all_lines.drop_last()).push(all_lines.len() - 1)
    } else {
        match_indices(query, all_lines.drop_last())
    }
}

/// The lines of `all_lines` read off at the given positions, in order.
pub open spec fn views_at(all_lines: Seq<Seq<char>>, idx: Seq<int>) -> Seq<Seq<char>> {
    idx.map_values(|i: int| all_lines[i])
}

proof fn lemma_match_indices(query: Seq<char>, all_lines: Seq<Seq<char>>)
    ensures
        ({
            let idx = match_indices(query, all_lines);
            &&& forall|k: int| 0 <= k < idx.len() ==> 0 <= #[trigger] idx[k] < all_lines.len()
            &&& forall|k: int|
                0 <= k < idx.len() ==> contains_str(all_lines[#[trigger] idx[k]], query)
            &&& forall|a: int, b: int| 0 <= a < b < idx.len() ==> idx[a] < idx[b]
            &&& matching_views(query, all_lines) == views_at(all_lines, idx)
            &&& forall|i: int|
                0 <= i < all_lines.len() && contains_str(#[trigger] all_lines[i], query)
                    ==> idx.contains(i)
        }),
    decreases all_lines.len(),
{
    reveal(Seq::filter);
    let idx = match_indices(query, all_lines);
    if all_lines.len() == 0 {
        assert(matching_views(query, all_lines) =~= views_at(all_lines, idx));
    } else {
        let prev = all_lines.drop_last();
        let last = all_lines.last();
        lemma_match_indices(query, prev);
        let idx_prev = match_indices(query, prev);
        assert(forall|k: int|
            0 <= k < idx_prev.len() ==> prev[#[trigger] idx_prev[k]] == all_lines[idx_prev[k]]);
        if contains_str(last, query) {
            assert(idx == idx_prev.push(all_lines.len() - 1));
            assert(matching_views(query, all_lines) == matching_views(query, prev).push(last));
            assert(views_at(all_lines, idx) =~= views_at(prev, idx_prev).push(last));
            assert forall|i: int|
                0 <= i < all_lines.len() && contains_str(#[trigger] all_lines[i], query) implies idx.contains(
                i,
            ) by {
                if i < all_lines.len() - 1 {
                    assert(prev[i] == all_lines[i]);
                    assert(idx_prev.contains(i));
                    let k = choose|k: int| 0 <= k < idx_prev.len() && idx_prev[k] == i;
                    assert(idx[k] == i);
                } else {
                    assert(idx[idx.len() - 1] == i);
                }
            }
        } else {
            assert(idx == idx_prev);
            assert(matching_views(query, all_lines) == matching_views(query, prev));
            assert(views_at(all_lines, idx) =~= views_at(prev, idx_prev));
            assert forall|i: int|
                0 <= i < all_lines.len() && contains_str(#[trigger] all_lines[i], query) implies idx.contains(
                i,
            ) by {
                assert(i != all_lines.len() - 1);
                assert(prev[i] == all_lines[i]);
                assert(idx_prev.contains(i));
            }
        }
    }
}

/// Order preservation: the result of a search is exactly the matching
/// lines of the content, read off at strictly increasing positions of
/// the line list; every line that contains the query is at one of those
/// positions, and no other line is.
pub proof fn lemma_search_order_preservation(query: Seq<char>, content: Seq<char>)
    ensures
        ({
            let all = spec_lines(content);
            let idx = match_indices(query, all);
            &&& forall|k: int| 0 <= k < idx.len() ==> 0 <= #[trigger] idx[k] < all.len()
            &&& forall|k: int| 0 <= k < idx.len() ==> contains_str(all[#[trigger] idx[k]], query)
            &&& forall|a: int, b: int| 0 <= a < b < idx.len() ==> idx[a] < idx[b]
            &&& spec_search(query, content) == views_at(all, idx)
            &&& forall|i: int|
                0 <= i < all.len() && contains_str(#[trigger] all[i], query) ==> idx.contains(i)
        }),
{
    lemma_match_indices(query, spec_lines(content));
}

proof fn lemma_matching_views_empty_query(lines: Seq<Seq<char>>)
    ensures
        matching_views(Seq::<char>::empty(), lines) == lines,
    decreases lines.len(),
{
    reveal(Seq::filter);
    assert forall|line: Seq<char>| contains_str(line, Seq::<char>::empty()) by {
        assert(line.subrange(0, 0) =~= Seq::<char>::empty());
        assert(is_match_at(line, Seq::<char>::empty(), 0));
    }
    if lines.len() == 0 {
        assert(matching_views(Seq::<char>::empty(), lines) =~= lines);
    } else {
        lemma_matching_views_empty_query(lines.drop_last());
        assert(matching_views(Seq::<char>::empty(), lines) =~= lines);
    }
}

/// An empty query matches every line: searching for the empty string
/// returns every line of the content unchanged, in order.
pub proof fn lemma_empty_query(content: Seq<char>)
    ensures
        spec_search(Seq::<char>::empty(), content) == spec_lines(content),
{
    lemma_matching_views_empty_query(spec_lines(content));
}

/// Idempotence: the search result is a function of the query and the
/// content alone, so two runs over identical inputs return identical
/// lines. The contract of `search` equates each run's result with
/// `spec_search`, which this law ties together.
pub proof fn lemma_search_idempotent(
    query: Seq<char>,
    content: Seq<char>,
    first: Seq<Seq<char>>,
    second: Seq<Seq<char>>,
)
    requires
        first == spec_search(query, content),
        second == spec_search(query, content),
    ensures
        first == second,
{
}

proof fn lemma_lines_ascii(s: Seq<char>)
    requires
        seq_is_ascii(s),
    ensures
        forall|j: int|
            0 <= j < spec_lines(s).len() ==> seq_is_ascii(#[trigger] spec_lines(s)[j]),
    decreases s.len(),
{
    if s.len() == 0 {
    } else {
        lemma_first_newline(s);
        let i = first_newline(s);
        if 0 <= i < s.len() {
            let head = strip_cr(s.subrange(0, i));
            let tail = s.subrange(i + 1, s.len() as int);
            assert(seq_is_ascii(tail));
            lemma_lines_ascii(tail);
            assert(seq_is_ascii(head));
            assert forall|j: int| 0 <= j < spec_lines(s).len() implies seq_is_ascii(
                #[trigger] spec_lines(s)[j],
            ) by {
                if j == 0 {
                    assert(spec_lines(s)[0] == head);
                } else {
                    assert(spec_lines(s)[j] == spec_lines(tail)[j - 1]);
                }
            }
        }
    }
}

proof fn lemma_ascii_ci_match(line: Seq<char>, query: Seq<char>)
    requires
        seq_is_ascii(line),
        seq_is_ascii(query),
        contains_str(line, query),
    ensures
        ci_matches(line, query),
{
    let i = choose|i: int| is_match_at(line, query, i);
    let lline = ascii_lower(line);
    let lquery = ascii_lower(query);
    assert forall|k: int|
        0 <= k < query.len() implies lline.subrange(i, i + lquery.len())[k] == lquery[k] by {
        assert(line.subrange(i, i + query.len() as int)[k] == query[k]);
    }
    assert(lline.subrange(i, i + lquery.len()) =~= lquery);
    assert(is_match_at(lline, lquery, i));
}

proof fn lemma_matching_views_subset(query: Seq<char>, all_lines: Seq<Seq<char>>, line: Seq<char>)
    requires
        matching_views(query, all_lines).contains(line),
    ensures
        all_lines.contains(line),
        contains_str(line, query),
    decreases all_lines.len(),
{
    reveal(Seq::filter);
    let prev = all_lines.drop_last();
    let last = all_lines.last();
    if contains_str(last, query) && line == last {
        assert(all_lines[all_lines.len() - 1] == line);
    } else {
        if contains_str(last, query) {
            let found = matching_views(query, all_lines);
            let k = choose|k: int| 0 <= k < found.len() && found[k] == line;
            assert(k < found.len() - 1);
            assert(matching_views(query, prev)[k] == line);
        }
        lemma_matching_views_subset(query, prev, line);
        let j = choose|j: int| 0 <= j < prev.len() && prev[j] == line;
        assert(all_lines[j] == line);
    }
}

proof fn lemma_matching_views_ci_complete(query: Seq<char>, all_lines: Seq<Seq<char>>, i: int)
    requires
        0 <= i < all_lines.len(),
        ci_matches(all_lines[i], query),
    ensures
        matching_views_ci(query, all_lines).contains(all_lines[i]),
    decreases all_lines.len(),
{
    reveal(Seq::filter);
    let prev = all_lines.drop_last();
    let found = matching_views_ci(query, all_lines);
    if i == all_lines.len() - 1 {
        assert(found[found.len() - 1] == all_lines[i]);
    } else {
        assert(prev[i] == all_lines[i]);
        lemma_matching_views_ci_complete(query, prev, i);
        let in_prev = matching_views_ci(query, prev);
        let k = choose|k: int| 0 <= k < in_prev.len() && in_prev[k] == all_lines[i];
        assert(found[k] == all_lines[i]);
    }
}

/// On ASCII text a match never goes away when case is ignored: for a
/// non-empty query, every line that the case-sensitive search returns,
/// the case-insensitive search returns too. (On text outside ASCII the
/// Unicode lowering may fold one character differently depending on its
/// neighbours, and a case-sensitive match can have no case-insensitive
/// counterpart.)
pub proof fn lemma_insensitive_superset(query: Seq<char>, content: Seq<char>)
    requires
        query.len() > 0,
        seq_is_ascii(query),
        seq_is_ascii(content),
    ensures
        forall|line: Seq<char>|
            #[trigger] spec_search(query, content).contains(line) ==> spec_search_ci(
                query,
                content,
            ).contains(line),
{
    let all = spec_lines(content);
    lemma_lines_ascii(content);
    assert forall|line: Seq<char>|
        #[trigger] spec_search(query, content).contains(line) implies spec_search_ci(
        query,
        content,
    ).contains(line) by {
        lemma_matching_views_subset(query, all, line);
        let i = choose|i: int| 0 <= i < all.len() && all[i] == line;
        assert(seq_is_ascii(all[i]));
        lemma_ascii_ci_match(line, query);
        lemma_matching_views_ci_complete(query, all, i);
    }
}

} // verus!
