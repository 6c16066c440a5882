//! Which sections of a document speak of a keyword: each heading with
//! whether the lines below it, up to the next heading, hold the keyword.

use crate::document::{block_end, block_text, heading_lines, heading_lines_ascend, headings};
use crate::heading::{scan_heading, Heading};
use crate::lines::{lines_of, split_lines};
use crate::pattern::Patterns;
use crate::text::{chars_of, contains_chars, occurs};
use vstd::prelude::*;
use vstd::string::StringExecFns;

verus! {

/// For each heading among `lines`, in order: its title, and whether
/// `keyword` stands in the lines between it and the next heading. The
/// heading line itself is not searched.
pub open spec fn keyword_findings(lines: Seq<Seq<char>>, keyword: Seq<char>) -> Seq<
    (Seq<char>, bool),
> {
    Seq::new(
        heading_lines(lines).len(),
        |k: int|
            (
                headings(lines)[k].title,
                occurs(
                    block_text(lines.subrange(heading_lines(lines)[k] + 1, block_end(lines, k))),
                    keyword,
                ),
            ),
    )
}

/// The heading lines among `lines`: where they stand, and what they read.
fn scan_headings(patterns: &Patterns, lines: &Vec<String>) -> (r: (Vec<usize>, Vec<Heading>))
    ensures
        r.0@.map_values(|at: usize| at as int) == heading_lines(lines.deep_view()),
        r.1.deep_view() == headings(lines.deep_view()),
{
    let ghost all = lines.deep_view();
    let mut places: Vec<usize> = Vec::new();
    let mut heads: Vec<Heading> = Vec::new();
    let mut i: usize = 0;
    assert(all.take(0) == Seq::<Seq<char>>::empty());
    while i < lines.len()
        invariant
            i <= lines.len(),
            all == lines.deep_view(),
            places@.map_values(|at: usize| at as int) == heading_lines(all.take(i as int)),
            heads.deep_view() == headings(all.take(i as int)),
        decreases lines.len() - i,
    {
        assert(all.take(i + 1).drop_last() == all.take(i as int));
        assert(all.take(i + 1).last() == lines[i as int]@);
        match scan_heading(patterns, lines[i].as_str()) {
            Some(heading) => {
                let ghost before = heads.deep_view();
                places.push(i);
                heads.push(heading);
                assert(heads.deep_view() == before.push(heading@));
                assert(places@.map_values(|at: usize| at as int) == heading_lines(
                    all.take(i as int),
                ).push(i as int));
            },
            None => {},
        }
        i += 1;
    }
    assert(all.take(lines.len() as int) == all);
    (places, heads)
}

/// The lines `lines[from..to]` as one text, a line feed after each.
fn block_of(lines: &Vec<String>, from: usize, to: usize) -> (r: String)
    requires
        from <= to <= lines.len(),
    ensures
        r@ == block_text(lines.deep_view().subrange(from as int, to as int)),
{
    let ghost all = lines.deep_view();
    let mut text = String::new();
    let mut j: usize = from;
    assert(all.subrange(from as int, from as int) == Seq::<Seq<char>>::empty());
    while j < to
        invariant
            from <= j <= to <= lines.len(),
            all == lines.deep_view(),
            text@ == block_text(all.subrange(from as int, j as int)),
        decreases to - j,
    {
        assert(all.subrange(from as int, j + 1).drop_last() == all.subrange(
            from as int,
            j as int,
        ));
        assert(all.subrange(from as int, j + 1).last() == lines[j as int]@);
        text.append(lines[j].as_str());
        text.push('\n');
        j += 1;
    }
    text
}

/// For each section of the document, in order: its title, and whether the
/// keyword stands below its heading.
pub fn find_sections_with_keyword(patterns: &Patterns, markdown: &str, keyword: &str) -> (r: Vec<
    (String, bool),
>)
    ensures
        r.deep_view() == keyword_findings(split_lines(markdown@), keyword@),
{
    let lines = lines_of(markdown);
    let ghost all = lines.deep_view();
    let (places, heads) = scan_headings(patterns, &lines);
    let needle = chars_of(keyword);
    let mut found: Vec<(String, bool)> = Vec::new();
    let mut k: usize = 0;
    proof {
        heading_lines_ascend(all);
        assert(places@.map_values(|at: usize| at as int).len() == places.len());
        assert(heads.deep_view().len() == heads.len());
    }
    while k < places.len()
        invariant
            k <= places.len(),
            places.len() == heads.len(),
            all == lines.deep_view(),
            needle@ == keyword@,
            places@.map_values(|at: usize| at as int) == heading_lines(all),
            heads.deep_view() == headings(all),
            found.deep_view() == keyword_findings(all, keyword@).take(k as int),
        decreases places.len() - k,
    {
        proof {
            heading_lines_ascend(all);
            assert(places@.map_values(|at: usize| at as int)[k as int] == places[k as int]);
            if k + 1 < places.len() {
                assert(places@.map_values(|at: usize| at as int)[k + 1] == places[k + 1]);
            }
            assert(heads.deep_view()[k as int] == heads[k as int]@);
        }
        let to: usize = if k + 1 < places.len() {
            places[k + 1]
        } else {
            lines.len()
        };
        let below = block_of(&lines, places[k] + 1, to);
        let holds = contains_chars(&chars_of(below.as_str()), &needle);
        let ghost before = found.deep_view();
        found.push((heads[k].title.clone(), holds));
        assert(found.deep_view() == before.push((heads[k as int]@.title, holds)));
        assert(keyword_findings(all, keyword@).take(k + 1) == keyword_findings(
            all,
            keyword@,
        ).take(k as int).push(keyword_findings(all, keyword@)[k as int]));
        k += 1;
    }
    assert(keyword_findings(all, keyword@).take(places.len() as int) == keyword_findings(
        all,
        keyword@,
    ));
    found
}

} // verus!
