//! Splitting a text buffer into lines.
//!
//! A line ends at a line feed or at a carriage return followed by a
//! line feed; the terminator is not part of the line, and the final
//! line needs no terminator.
use vstd::prelude::*;

verus! {

/// Position of the first line feed in `s`, or `s.len()` if there is none.
pub open spec fn first_newline(s: Seq<char>) -> int
    decreases s.len(),
{
    if s.len() == 0 {
        0
    } else if s[0] == '\n' {
        0
    } else {
        1 + first_newline(s.drop_first())
    }
}

/// A terminated line loses one carriage return directly before the
/// line feed that ended it.
pub open spec fn strip_cr(line: Seq<char>) -> Seq<char> {
    if line.len() > 0 && line.last() == '\r' {
        line.drop_last()
    } else {
        line
    }
}

/// The lines of `s`, in order, without their terminators.
pub open spec fn spec_lines(s: Seq<char>) -> Seq<Seq<char>>
    decreases s.len(),
{
    if s.len() == 0 {
        Seq::empty()
    } else {
        let i = first_newline(s);
        if 0 <= i < s.len() {
            seq![strip_cr(s.subrange(0, i))] + spec_lines(s.subrange(i + 1, s.len() as int))
        } else {
            seq![s]
        }
    }
}

/// The views of a sequence of borrowed lines.
pub open spec fn line_views(lines: Seq<&str>) -> Seq<Seq<char>> {
    lines.map_values(|l: &str| l@)
}

/// `first_newline` points at the first line feed, or past the end when
/// there is none.
pub proof fn lemma_first_newline(s: Seq<char>)
    ensures
        0 <= first_newline(s) <= s.len(),
        first_newline(s) < s.len() ==> s[first_newline(s)] == '\n',
        forall|k: int| 0 <= k < first_newline(s) ==> s[k] != '\n',
    decreases s.len(),
{
    if s.len() == 0 {
    } else if s[0] == '\n' {
    } else {
        lemma_first_newline(s.drop_first());
        assert(forall|k: int|
            0 <= k < first_newline(s) ==> s[k] == s.drop_first()[k - 1] || k == 0);
    }
}

/// A position with no line feed before it, and a line feed at it or the
/// end of the text behind it, is where `first_newline` points.
pub proof fn lemma_first_newline_at(s: Seq<char>, j: int)
    requires
        0 <= j <= s.len(),
        forall|k: int| 0 <= k < j ==> s[k] != '\n',
        j < s.len() ==> s[j] == '\n',
    ensures
        first_newline(s) == j,
{
    lemma_first_newline(s);
}

/// Splits the text into its lines, as borrowed slices in text order.
pub fn split_lines<'a>(contents: &'a str) -> (lines: Vec<&'a str>)
    ensures
        line_views(lines@) == spec_lines(contents@),
{
    let len = contents.unicode_len();
    let mut lines: Vec<&'a str> = Vec::new();
    let mut pos: usize = 0;
    let mut i: usize = 0;
    proof {
        assert(contents@.subrange(0, len as int) =~= contents@);
        assert(line_views(lines@) =~= Seq::<Seq<char>>::empty());
        assert(line_views(lines@) + spec_lines(contents@.subrange(0, len as int)) =~= spec_lines(
            contents@,
        ));
    }
    while i < len
        invariant
            len == contents@.len(),
            pos <= i <= len,
            forall|k: int| pos <= k < i ==> contents@[k] != '\n',
            line_views(lines@) + spec_lines(contents@.subrange(pos as int, len as int))
                == spec_lines(contents@),
        decreases len - i,
    {
        if contents.get_char(i) == '\n' {
            let ghost s = contents@;
            let ghost tail = s.subrange(pos as int, len as int);
            let end = if i > pos && contents.get_char(i - 1) == '\r' {
                i - 1
            } else {
                i
            };
            let line = contents.substring_char(pos, end);
            proof {
                lemma_first_newline_at(tail, i - pos);
                assert(tail.subrange(0, i - pos) =~= s.subrange(pos as int, i as int));
                assert(strip_cr(s.subrange(pos as int, i as int)) =~= s.subrange(
                    pos as int,
                    end as int,
                ));
                assert(tail.subrange(i - pos + 1, tail.len() as int) =~= s.subrange(
                    i + 1,
                    len as int,
                ));
                assert(spec_lines(tail) == seq![line@] + spec_lines(
                    s.subrange(i + 1, len as int),
                ));
                assert(line_views(lines@.push(line)) =~= line_views(lines@) + seq![line@]);
                assert(line_views(lines@.push(line)) + spec_lines(s.subrange(i + 1, len as int))
                    =~= line_views(lines@) + spec_lines(tail));
            }
            lines.push(line);
            pos = i + 1;
        }
        i = i + 1;
    }
    let ghost s = contents@;
    let ghost tail = s.subrange(pos as int, len as int);
    if pos < len {
        let line = contents.substring_char(pos, len);
        proof {
            lemma_first_newline_at(tail, tail.len() as int);
            assert(line@ =~= tail);
            assert(spec_lines(tail) == seq![tail]);
            assert(line_views(lines@.push(line)) =~= line_views(lines@) + seq![tail]);
        }
        lines.push(line);
    } else {
        proof {
            assert(tail.len() == 0);
            assert(line_views(lines@) + spec_lines(tail) =~= line_views(lines@));
        }
    }
    lines
}

} // verus!
