//! Scanning text for the lines that contain a query.
use crate::casefold::lowercase;
use crate::casefold::spec_lower;
use crate::lines::line_views;
use crate::lines::spec_lines;
use crate::lines::split_lines;
use vstd::prelude::*;

verus! {

/// The needle occurs in the haystack starting at position `i`.
pub open spec fn is_match_at(hay: Seq<char>, needle: Seq<char>, i: int) -> bool {
    &&& 0 <= i
    &&& i + needle.len() <= hay.len()
    &&& hay.subrange(i, i + needle.len()) == needle
}

/// The needle occurs somewhere in the haystack. The empty needle
/// occurs in every haystack, at position 0.
pub open spec fn contains_str(hay: Seq<char>, needle: Seq<char>) -> bool {
    exists|i: int| is_match_at(hay, needle, i)
}

/// Compares the needle against the haystack at one position.
fn match_at(hay: &str, needle: &str, i: usize, hay_len: usize, needle_len: usize) -> (r: bool)
    requires
        hay_len == hay@.len(),
        needle_len == needle@.len(),
        i + needle_len <= hay_len,
    ensures
        r == is_match_at(hay@, needle@, i as int),
{
    let mut j: usize = 0;
    while j < needle_len
        invariant
            hay_len == hay@.len(),
            needle_len == needle@.len(),
            i + needle_len <= hay_len,
            0 <= j <= needle_len,
            forall|k: int| 0 <= k < j ==> hay@[i + k] == needle@[k],
        decreases needle_len - j,
    {
        if hay.get_char(i + j) != needle.get_char(j) {
            assert(!is_match_at(hay@, needle@, i as int)) by {
                if is_match_at(hay@, needle@, i as int) {
                    assert(hay@.subrange(i as int, i + needle@.len())[j as int] == needle@[j as int]);
                }
            }
            return false;
        }
        j = j + 1;
    }
    assert(hay@.subrange(i as int, i + needle@.len()) =~= needle@);
    true
}

/// Reports whether `needle` occurs in `hay` as a literal contiguous
/// substring, character for character.
pub fn contains_substring(hay: &str, needle: &str) -> (r: bool)
    ensures
        r == contains_str(hay@, needle@),
{
    let hay_len = hay.unicode_len();
    let needle_len = needle.unicode_len();
    if needle_len > hay_len {
        assert(!contains_str(hay@, needle@));
        return false;
    }
    if needle_len == 0 {
        assert(is_match_at(hay@, needle@, 0)) by {
            assert(hay@.subrange(0, 0) =~= needle@);
        }
        return true;
    }
    let last_start = hay_len - needle_len;
    let mut i: usize = 0;
    loop
        invariant
            hay_len == hay@.len(),
            needle_len == needle@.len(),
            1 <= needle_len <= hay_len,
            last_start == hay_len - needle_len,
            0 <= i <= last_start + 1,
            forall|k: int| 0 <= k < i ==> !is_match_at(hay@, needle@, k),
        decreases hay_len - needle_len + 1 - i,
    {
        if i > last_start {
            assert(forall|k: int| is_match_at(hay@, needle@, k) ==> 0 <= k < i);
            return false;
        }
        if match_at(hay, needle, i, hay_len, needle_len) {
            return true;
        }
        i = i + 1;
    }
}

/// The members of `all_lines` that contain the query, kept in order.
pub open spec fn matching_views(query: Seq<char>, all_lines: Seq<Seq<char>>) -> Seq<Seq<char>> {
    all_lines.filter(|line: Seq<char>| contains_str(line, query))
}

/// The lines of `content` that contain `query`, in text order.
pub open spec fn spec_search(query: Seq<char>, content: Seq<char>) -> Seq<Seq<char>> {
    matching_views(query, spec_lines(content))
}

/// Appending one line extends the matches by that line exactly when it
/// contains the query.
pub proof fn lemma_matching_views_push(query: Seq<char>, all_lines: Seq<Seq<char>>, line: Seq<
    char,
>)
    ensures
        matching_views(query, all_lines.push(line)) == matching_views(query, all_lines) + (
        if contains_str(line, query) {
            seq![line]
        } else {
            Seq::<Seq<char>>::empty()
        }),
{
    reveal(Seq::filter);
    assert(all_lines.push(line).drop_last() =~= all_lines);
    assert(all_lines.push(line).last() == line);
    if contains_str(line, query) {
        assert(matching_views(query, all_lines).push(line) =~= matching_views(query, all_lines)
            + seq![line]);
    } else {
        assert(matching_views(query, all_lines) =~= matching_views(query, all_lines)
            + Seq::<Seq<char>>::empty());
    }
}

/// Returns the lines of `contents` that contain `query` as a literal
/// substring, character for character, in the order in which they occur.
pub fn search<'a>(query: &str, contents: &'a str) -> (results: Vec<&'a str>)
    ensures
        line_views(results@) == spec_search(query@, contents@),
{
    let lines = split_lines(contents);
    let mut results: Vec<&'a str> = Vec::new();
    let n = lines.len();
    let ghost all = spec_lines(contents@);
    proof {
        reveal(Seq::filter);
        assert(all.take(0) =~= Seq::<Seq<char>>::empty());
        assert(line_views(results@) =~= matching_views(query@, all.take(0)));
    }
    let mut idx: usize = 0;
    while idx < n
        invariant
            n == lines@.len(),
            idx <= n,
            line_views(lines@) == all,
            all == spec_lines(contents@),
            line_views(results@) == matching_views(query@, all.take(idx as int)),
        decreases n - idx,
    {
        let line = lines[idx];
        proof {
            assert(line@ == all[idx as int]);
            lemma_matching_views_push(query@, all.take(idx as int), line@);
            assert(all.take(idx as int).push(line@) =~= all.take(idx + 1));
        }
        if contains_substring(line, query) {
            proof {
                assert(line_views(results@.push(line)) =~= line_views(results@) + seq![line@]);
            }
            results.push(line);
        } else {
            proof {
                assert(line_views(results@) =~= line_views(results@)
                    + Seq::<Seq<char>>::empty());
            }
        }
        idx = idx + 1;
    }
    proof {
        assert(all.take(n as int) =~= all);
    }
    results
}

/// A line matches without regard to case when its lowercase form
/// contains the lowercase form of the query.
pub open spec fn ci_matches(line: Seq<char>, query: Seq<char>) -> bool {
    contains_str(spec_lower(line), spec_lower(query))
}

/// The members of `all_lines` that match the query without regard to
/// case, kept in order.
pub open spec fn matching_views_ci(query: Seq<char>, all_lines: Seq<Seq<char>>) -> Seq<Seq<char>> {
    all_lines.filter(|line: Seq<char>| ci_matches(line, query))
}

/// The lines of `content` that contain `query` without regard to case,
/// in text order.
pub open spec fn spec_search_ci(query: Seq<char>, content: Seq<char>) -> Seq<Seq<char>> {
    matching_views_ci(query, spec_lines(content))
}

/// Appending one line extends the case-insensitive matches by that line
/// exactly when it matches the query without regard to case.
pub proof fn lemma_matching_views_ci_push(
    query: Seq<char>,
    all_lines: Seq<Seq<char>>,
    line: Seq<char>,
)
    ensures
        matching_views_ci(query, all_lines.push(line)) == matching_views_ci(query, all_lines) + (
        if ci_matches(line, query) {
            seq![line]
        } else {
            Seq::<Seq<char>>::empty()
        }),
{
    reveal(Seq::filter);
    assert(all_lines.push(line).drop_last() =~= all_lines);
    assert(all_lines.push(line).last() == line);
    if ci_matches(line, query) {
        assert(matching_views_ci(query, all_lines).push(line) =~= matching_views_ci(
            query,
            all_lines,
        ) + seq![line]);
    } else {
        assert(matching_views_ci(query, all_lines) =~= matching_views_ci(query, all_lines)
            + Seq::<Seq<char>>::empty());
    }
}

/// Returns the lines of `contents` that contain `query` when both are
/// normalized to lowercase; the lines come back in their original
/// casing, in the order in which they occur.
pub fn search_case_insensitive<'a>(query: &str, contents: &'a str) -> (results: Vec<&'a str>)
    ensures
        line_views(results@) == spec_search_ci(query@, contents@),
{
    let query_lower = lowercase(query);
    let lines = split_lines(contents);
    let mut results: Vec<&'a str> = Vec::new();
    let n = lines.len();
    let ghost all = spec_lines(contents@);
    proof {
        reveal(Seq::filter);
        assert(all.take(0) =~= Seq::<Seq<char>>::empty());
        assert(line_views(results@) =~= matching_views_ci(query@, all.take(0)));
    }
    let mut idx: usize = 0;
    while idx < n
        invariant
            n == lines@.len(),
            idx <= n,
            line_views(lines@) == all,
            all == spec_lines(contents@),
            query_lower@ == spec_lower(query@),
            line_views(results@) == matching_views_ci(query@, all.take(idx as int)),
        decreases n - idx,
    {
        let line = lines[idx];
        let line_lower = lowercase(line);
        proof {
            assert(line@ == all[idx as int]);
            lemma_matching_views_ci_push(query@, all.take(idx as int), line@);
            assert(all.take(idx as int).push(line@) =~= all.take(idx + 1));
        }
        if contains_substring(line_lower.as_str(), query_lower.as_str()) {
            proof {
                assert(line_views(results@.push(line)) =~= line_views(results@) + seq![line@]);
            }
            results.push(line);
        } else {
            proof {
                assert(line_views(results@) =~= line_views(results@)
                    + Seq::<Seq<char>>::empty());
            }
        }
        idx = idx + 1;
    }
    proof {
        assert(all.take(n as int) =~= all);
    }
    results
}

} // verus!
