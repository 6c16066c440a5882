//! Splitting a document into lines.

use crate::text::{chars_of, string_of_range};
use vstd::prelude::*;

verus! {

/// The number of characters of `s` before its first line feed, or the length
/// of `s` where it holds none.
pub open spec fn line_end(s: Seq<char>) -> int
    decreases s.len(),
{
    if s.len() == 0 || s.first() == '\n' {
        0
    } else {
        1 + line_end(s.drop_first())
    }
}

/// `line` without the carriage return that it may end with.
pub open spec fn without_cr(line: Seq<char>) -> Seq<char> {
    if line.len() > 0 && line.last() == '\r' {
        line.drop_last()
    } else {
        line
    }
}

/// The lines of `text`. A line ends with a line feed, or with a carriage
/// return and a line feed; neither belongs to the line. What follows the last
/// line feed is a line of its own unless it is empty, and it keeps a carriage
/// return that it ends with.
pub open spec fn split_lines(text: Seq<char>) -> Seq<Seq<char>>
    decreases text.len(),
{
    let k = line_end(text);
    if text.len() == 0 {
        seq![]
    } else if 0 <= k < text.len() {
        seq![without_cr(text.take(k))] + split_lines(text.skip(k + 1))
    } else {
        seq![text]
    }
}

pub proof fn line_end_is(s: Seq<char>, k: int)
    requires
        0 <= k <= s.len(),
        forall|t: int| 0 <= t < k ==> s[t] != '\n',
        k == s.len() || s[k] == '\n',
    ensures
        line_end(s) == k,
    decreases s.len(),
{
    if k > 0 {
        line_end_is(s.drop_first(), k - 1);
    }
}

/// The lines of `text`.
pub fn lines_of(text: &str) -> (lines: Vec<String>)
    ensures
        lines.deep_view() == split_lines(text@),
{
    let v = chars_of(text);
    let mut lines: Vec<String> = Vec::new();
    let mut start: usize = 0;
    assert(v@.skip(0) == v@);
    while start < v.len()
        invariant
            start <= v.len(),
            v@ == text@,
            split_lines(v@) == lines.deep_view() + split_lines(v@.skip(start as int)),
        decreases v.len() - start,
    {
        let ghost rest = v@.skip(start as int);
        let ghost before = lines.deep_view();
        let mut end: usize = start;
        while end < v.len() && v[end] != '\n'
            invariant
                start <= end <= v.len(),
                forall|t: int| start <= t < end ==> v@[t] != '\n',
            decreases v.len() - end,
        {
            end += 1;
        }
        proof {
            line_end_is(rest, end - start);
        }
        if end < v.len() {
            let stop: usize = if end > start && v[end - 1] == '\r' {
                end - 1
            } else {
                end
            };
            let line = string_of_range(&v, start, stop);
            assert(rest.take(end - start) == v@.subrange(start as int, end as int));
            assert(line@ == without_cr(rest.take(end - start)));
            assert(rest.skip(end - start + 1) == v@.skip(end + 1));
            lines.push(line);
            assert(lines.deep_view() == before + seq![line@]);
            start = end + 1;
        } else {
            let line = string_of_range(&v, start, end);
            assert(line@ == rest);
            lines.push(line);
            assert(lines.deep_view() == before + seq![rest]);
            assert(v@.skip(end as int).len() == 0);
            start = end;
        }
    }
    assert(split_lines(v@.skip(start as int)) == Seq::<Seq<char>>::empty());
    lines
}

} // verus!
