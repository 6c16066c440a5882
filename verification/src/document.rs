//! The section builder: from the lines of one document to its sections, each
//! under the breadcrumb of the headings that were open above it.

use crate::heading::{heading_of, scan_heading, Heading, HeadingView};
use crate::lines::{lines_of, split_lines};
use crate::pattern::Patterns;
use crate::section::{Section, SectionView};
use vstd::prelude::*;
use vstd::string::StringExecFns;

verus! {

/// What stands between two titles of a breadcrumb.
pub const SEPARATOR: &'static str = " / ";

/// The positions of the heading lines among `lines`, ascending.
pub open spec fn heading_lines(lines: Seq<Seq<char>>) -> Seq<int>
    decreases lines.len(),
{
    if lines.len() == 0 {
        Seq::empty()
    } else if heading_of(lines.last()) is Some {
        heading_lines(lines.drop_last()).push(lines.len() - 1)
    } else {
        heading_lines(lines.drop_last())
    }
}

/// The headings among `lines`, in order.
pub open spec fn headings(lines: Seq<Seq<char>>) -> Seq<HeadingView>
    decreases lines.len(),
{
    if lines.len() == 0 {
        Seq::empty()
    } else if heading_of(lines.last()) is Some {
        headings(lines.drop_last()).push(heading_of(lines.last())->0)
    } else {
        headings(lines.drop_last())
    }
}

/// The ancestors of a heading of depth `depth` that follows `count`
/// headings, the last of them of depth `last_depth` and with the ancestors
/// `above`. A heading deeper than the one before it has that one as its
/// nearest ancestor. Any other heading of depth `d` keeps the first `d - 1`
/// ancestors of the one before it, as far as there are that many.
pub open spec fn stack_after(above: Seq<int>, count: int, last_depth: nat, depth: nat) -> Seq<
    int,
> {
    if count <= 0 {
        above
    } else if last_depth < depth {
        above.push(count - 1)
    } else if depth <= 1 {
        Seq::empty()
    } else if above.len() > depth - 1 {
        above.take(depth - 1)
    } else {
        above
    }
}

/// The ancestors of heading `k`, root first, each by its place among the
/// headings.
pub open spec fn ancestors(hs: Seq<HeadingView>, k: int) -> Seq<int>
    decreases k,
{
    if k <= 0 {
        Seq::empty()
    } else {
        stack_after(ancestors(hs, k - 1), k, hs[k - 1].depth, hs[k].depth)
    }
}

/// The places on a stack, as integers.
pub open spec fn places(stack: Seq<usize>) -> Seq<int> {
    stack.map_values(|a: usize| a as int)
}

/// The titles of the sections that a stack names, where the sections of the
/// document start at `taken`.
pub open spec fn titles_at(sections: Seq<SectionView>, taken: int, stack: Seq<int>) -> Seq<
    Seq<char>,
> {
    Seq::new(stack.len(), |j: int| sections[taken + stack[j]].title)
}

/// The stack after one more line: a heading line changes it as `stack_after`
/// says, any other line leaves it.
pub open spec fn stack_after_line(
    sections: Seq<SectionView>,
    taken: int,
    stack: Seq<int>,
    heading: Option<HeadingView>,
) -> Seq<int> {
    match heading {
        Some(h) => stack_after(stack, sections.len() - taken, sections.last().level, h.depth),
        None => stack,
    }
}

/// The sections after one more line. A heading line opens a section under the
/// next number, with the titles on the new stack and its own for a
/// breadcrumb, and with the line for its content. Any other line lengthens
/// the last section of the document, if there is one.
pub open spec fn sections_after_line(
    sections: Seq<SectionView>,
    taken: int,
    stack: Seq<int>,
    file: Seq<char>,
    line: Seq<char>,
    lineno: nat,
    heading: Option<HeadingView>,
) -> Seq<SectionView> {
    match heading {
        Some(h) => sections.push(
            SectionView::opened(
                sections.len() + 1,
                file,
                lineno,
                h.title,
                joined_titles(
                    titles_at(
                        sections,
                        taken,
                        stack_after_line(sections, taken, stack, heading),
                    ).push(h.title),
                ),
                h.depth,
            ).with_line(line),
        ),
        None => if sections.len() > taken {
            sections.update(sections.len() - 1, sections.last().with_line(line))
        } else {
            sections
        },
    }
}

/// The titles, joined by the separator.
pub open spec fn joined_titles(titles: Seq<Seq<char>>) -> Seq<char>
    decreases titles.len(),
{
    if titles.len() == 0 {
        Seq::empty()
    } else if titles.len() == 1 {
        titles[0]
    } else {
        joined_titles(titles.drop_last()) + SEPARATOR@ + titles.last()
    }
}

/// The titles of the ancestors of heading `k`, root first.
pub open spec fn ancestor_titles(hs: Seq<HeadingView>, k: int) -> Seq<Seq<char>> {
    ancestors(hs, k).map_values(|a: int| hs[a].title)
}

/// The breadcrumb of heading `k`: the titles of its ancestors and its own.
pub open spec fn breadcrumb(hs: Seq<HeadingView>, k: int) -> Seq<char> {
    joined_titles(ancestor_titles(hs, k).push(hs[k].title))
}

/// The lines as one text, a line feed after each.
pub open spec fn block_text(lines: Seq<Seq<char>>) -> Seq<char>
    decreases lines.len(),
{
    if lines.len() == 0 {
        Seq::empty()
    } else {
        block_text(lines.drop_last()) + lines.last() + seq!['\n']
    }
}

/// Where the block of heading `k` ends: at the next heading, or with the
/// document.
pub open spec fn block_end(lines: Seq<Seq<char>>, k: int) -> int {
    if k + 1 < heading_lines(lines).len() {
        heading_lines(lines)[k + 1]
    } else {
        lines.len() as int
    }
}

/// Section `k` of a document as the builder leaves it, before extraction.
/// `taken` is the number of sections that earlier documents gave.
pub open spec fn raw_section(
    file: Seq<char>,
    lines: Seq<Seq<char>>,
    taken: nat,
    k: int,
) -> SectionView {
    let from = heading_lines(lines)[k];
    let hs = headings(lines);
    SectionView {
        content: block_text(lines.subrange(from, block_end(lines, k))),
        ..SectionView::opened(
            (taken + k + 1) as nat,
            file,
            (from + 1) as nat,
            hs[k].title,
            breadcrumb(hs, k),
            hs[k].depth,
        )
    }
}

/// The sections of a document as the builder leaves them: one for each
/// heading line. Lines before the first heading belong to none.
pub open spec fn raw_sections(file: Seq<char>, lines: Seq<Seq<char>>, taken: nat) -> Seq<
    SectionView,
> {
    Seq::new(heading_lines(lines).len(), |k: int| raw_section(file, lines, taken, k))
}

/// The sections of the document `text`, in the order of their headings,
/// each after extraction.
pub open spec fn document_sections(file: Seq<char>, text: Seq<char>, taken: nat) -> Seq<
    SectionView,
> {
    raw_sections(file, split_lines(text), taken).map_values(|s: SectionView| s.extracted())
}

/// Heading lines lie within the document and ascend, and there is one
/// heading for each.
pub proof fn heading_lines_ascend(lines: Seq<Seq<char>>)
    ensures
        headings(lines).len() == heading_lines(lines).len(),
        heading_lines(lines).len() <= lines.len(),
        forall|k: int|
            0 <= k < heading_lines(lines).len() ==> 0 <= (#[trigger] heading_lines(lines)[k])
                < lines.len(),
        forall|k: int, m: int|
            0 <= k < m < heading_lines(lines).len() ==> (#[trigger] heading_lines(lines)[k]) < (
            #[trigger] heading_lines(lines)[m]),
        forall|k: int|
            0 <= k < heading_lines(lines).len() ==> heading_of(lines[heading_lines(lines)[k]])
                == Some(#[trigger] headings(lines)[k]),
    decreases lines.len(),
{
    if lines.len() > 0 {
        let front = lines.drop_last();
        heading_lines_ascend(front);
        assert forall|k: int| 0 <= k < heading_lines(lines).len() implies heading_of(
            lines[heading_lines(lines)[k]],
        ) == Some(#[trigger] headings(lines)[k]) by {
            if k < heading_lines(front).len() {
                assert(front[heading_lines(front)[k]] == lines[heading_lines(front)[k]]);
            }
        }
    }
}

/// The ancestors of a heading stand before it, and later headings do not
/// change them.
pub proof fn ancestors_are_settled(hs: Seq<HeadingView>, longer: Seq<HeadingView>, k: int)
    requires
        0 <= k < hs.len(),
        hs.len() <= longer.len(),
        longer.take(hs.len() as int) == hs,
    ensures
        ancestors(longer, k) == ancestors(hs, k),
        forall|j: int| 0 <= j < ancestors(hs, k).len() ==> 0 <= (#[trigger] ancestors(hs, k)[j]) < k,
        breadcrumb(longer, k) == breadcrumb(hs, k),
    decreases k,
{
    assert(longer[k] == hs[k]);
    if k > 0 {
        ancestors_are_settled(hs, longer, k - 1);
        assert(longer[k - 1] == hs[k - 1]);
    }
    assert(ancestor_titles(longer, k) == ancestor_titles(hs, k)) by {
        assert forall|j: int| 0 <= j < ancestors(hs, k).len() implies longer[ancestors(hs, k)[j]]
            == hs[ancestors(hs, k)[j]] by {}
    }
}

/// One more line at the end of a document: a heading line opens a section
/// that holds the line alone; any other line lengthens the last section, if
/// there is one. The sections before are as they were.
pub proof fn raw_sections_grow(file: Seq<char>, lines: Seq<Seq<char>>, taken: nat)
    requires
        lines.len() > 0,
    ensures
        ({
            let before = raw_sections(file, lines.drop_last(), taken);
            let now = raw_sections(file, lines, taken);
            match heading_of(lines.last()) {
                Some(h) => now == before.push(
                    SectionView::opened(
                        (taken + before.len() + 1) as nat,
                        file,
                        lines.len(),
                        h.title,
                        breadcrumb(headings(lines), before.len() as int),
                        h.depth,
                    ).with_line(lines.last()),
                ),
                None => if before.len() == 0 {
                    now == before
                } else {
                    now == before.update(
                        before.len() - 1,
                        before.last().with_line(lines.last()),
                    )
                },
            }
        }),
{
    let front = lines.drop_last();
    let before = raw_sections(file, front, taken);
    let now = raw_sections(file, lines, taken);
    let n = lines.len() as int;
    heading_lines_ascend(front);
    heading_lines_ascend(lines);
    let at = heading_lines(lines);
    let count = heading_lines(front).len() as int;
    assert(headings(lines).take(count) == headings(front));
    assert forall|k: int| 0 <= k < count && block_end(lines, k) <= n - 1 implies now[k]
        == before[k] by {
        ancestors_are_settled(headings(front), headings(lines), k);
        assert(block_end(lines, k) == block_end(front, k));
        assert(lines.subrange(at[k], block_end(lines, k)) == front.subrange(
            at[k],
            block_end(front, k),
        ));
    }
    match heading_of(lines.last()) {
        Some(h) => {
            let opened = SectionView::opened(
                (taken + count + 1) as nat,
                file,
                lines.len(),
                h.title,
                breadcrumb(headings(lines), count),
                h.depth,
            ).with_line(lines.last());
            assert(lines.subrange(n - 1, n) == seq![lines.last()]);
            assert(seq![lines.last()].drop_last() == Seq::<Seq<char>>::empty());
            assert(block_text(Seq::<Seq<char>>::empty()) == Seq::<char>::empty());
            assert(block_text(seq![lines.last()]) == Seq::<char>::empty() + lines.last()
                + seq!['\n']);
            assert(now[count] == opened);
            assert(now == before.push(opened));
        },
        None => {
            if count > 0 {
                let k = count - 1;
                ancestors_are_settled(headings(front), headings(lines), k);
                assert(lines.subrange(at[k], n).drop_last() == front.subrange(at[k], n - 1));
                assert(now[k] == before[k].with_line(lines.last()));
                assert(now == before.update(k, before[k].with_line(lines.last())));
            } else {
                assert(now == before);
            }
        },
    }
}

/// A document gives one section for each of its heading lines; the sections
/// follow each other as their headings do, with ascending numbers.
pub proof fn one_section_for_each_heading(file: Seq<char>, text: Seq<char>, taken: nat)
    ensures
        document_sections(file, text, taken).len() == heading_lines(split_lines(text)).len(),
        forall|k: int, m: int|
            0 <= k < m < document_sections(file, text, taken).len() ==> {
                &&& (#[trigger] document_sections(file, text, taken)[k]).lineno < (
                #[trigger] document_sections(file, text, taken)[m]).lineno
                &&& document_sections(file, text, taken)[k].id < document_sections(
                    file,
                    text,
                    taken,
                )[m].id
            },
        forall|k: int|
            0 <= k < document_sections(file, text, taken).len() ==> (
            #[trigger] document_sections(file, text, taken)[k]).finalized(),
{
    let lines = split_lines(text);
    heading_lines_ascend(lines);
    assert forall|k: int| 0 <= k < document_sections(file, text, taken).len() implies (
    #[trigger] document_sections(file, text, taken)[k]).finalized() by {
        crate::section::extracted_is_finalized(raw_sections(file, lines, taken)[k]);
    }
}

/// The first section of a document has its own title for a breadcrumb.
pub proof fn first_breadcrumb_is_the_title(hs: Seq<HeadingView>)
    requires
        hs.len() > 0,
    ensures
        breadcrumb(hs, 0) == hs[0].title,
{
    assert(ancestor_titles(hs, 0).push(hs[0].title) == seq![hs[0].title]);
}

/// The breadcrumb of a section: the titles of the sections on the stack and
/// its own.
fn breadcrumb_text(sections: &Vec<Section>, from: usize, stack: &Vec<usize>, title: &str) -> (r:
    String)
    requires
        forall|j: int| 0 <= j < stack.len() ==> from + (#[trigger] stack[j]) < sections.len(),
    ensures
        r@ == joined_titles(
            titles_at(sections.deep_view(), from as int, places(stack@)).push(title@),
        ),
{
    let ghost titles = titles_at(sections.deep_view(), from as int, places(stack@));
    let mut r = String::new();
    let mut j: usize = 0;
    while j < stack.len()
        invariant
            j <= stack.len(),
            forall|j: int| 0 <= j < stack.len() ==> from + (#[trigger] stack[j]) < sections.len(),
            titles == titles_at(sections.deep_view(), from as int, places(stack@)),
            r@ == if j == 0 {
                Seq::<char>::empty()
            } else {
                joined_titles(titles.take(j as int)) + SEPARATOR@
            },
        decreases stack.len() - j,
    {
        r.append(sections[from + stack[j]].title.as_str());
        r.append(SEPARATOR);
        assert(titles.take(j + 1).drop_last() == titles.take(j as int));
        assert(titles.take(j + 1).last() == sections[from + stack[j as int]]@.title) by {
            assert(places(stack@)[j as int] == stack[j as int]);
            assert(sections.deep_view()[from + stack[j as int]] == sections[from
                + stack[j as int]]@);
        }
        j += 1;
    }
    r.append(title);
    assert(titles.take(stack.len() as int) == titles);
    assert(titles.push(title@).drop_last() == titles);
    r
}

/// Takes one line of a document into its sections. `sections` holds the
/// sections found so far, those of this document from `taken` on; `stack`
/// names the ancestors of the last of them, each by its place in the
/// document. `heading` is what the scanner made of the line, which stands at
/// `lineno` in the document at `file_path`.
pub fn take_line(
    sections: &mut Vec<Section>,
    stack: &mut Vec<usize>,
    taken: usize,
    file_path: &str,
    line: &str,
    lineno: usize,
    heading: Option<Heading>,
)
    requires
        taken <= old(sections).len(),
        forall|j: int|
            0 <= j < old(stack).len() ==> taken + (#[trigger] old(stack)[j]) < old(sections).len(),
    ensures
        final(sections).deep_view() == sections_after_line(
            old(sections).deep_view(),
            taken as int,
            places(old(stack)@),
            file_path@,
            line@,
            lineno as nat,
            heading.deep_view(),
        ),
        places(final(stack)@) == stack_after_line(
            old(sections).deep_view(),
            taken as int,
            places(old(stack)@),
            heading.deep_view(),
        ),
        forall|j: int|
            0 <= j < final(stack).len() ==> taken + (#[trigger] final(stack)[j]) < old(
                sections,
            ).len(),
{
    let ghost views = sections.deep_view();
    let count: usize = sections.len() - taken;
    assert(views.len() == sections.len());
    match heading {
        Some(heading) => {
            if count > 0 {
                assert(views.last() == sections@[sections.len() - 1]@);
                let last_level: usize = sections[taken + count - 1].level;
                if last_level < heading.depth {
                    stack.push(count - 1);
                } else if heading.depth <= 1 {
                    stack.clear();
                } else {
                    stack.truncate(heading.depth - 1);
                }
            }
            assert(places(stack@) == stack_after_line(
                views,
                taken as int,
                places(old(stack)@),
                Some(heading@),
            ));
            assert forall|j: int| 0 <= j < stack.len() implies taken + (#[trigger] stack[j])
                < sections.len() by {
                if j < old(stack).len() {
                    assert(stack[j] == old(stack)[j]);
                }
            }
            let full_title = breadcrumb_text(sections, taken, stack, heading.title.as_str());
            let mut section = Section::new(
                0,
                file_path.to_owned(),
                lineno,
                heading.title,
                full_title,
                heading.depth,
            );
            section.add_content(line);
            let ghost fresh = section@;
            sections.push(section);
            let n: usize = sections.len();
            let opened = &mut sections[n - 1];
            opened.id = n;
            proof {
                let after = sections.deep_view();
                let target = sections_after_line(
                    views,
                    taken as int,
                    places(old(stack)@),
                    file_path@,
                    line@,
                    lineno as nat,
                    Some(heading@),
                );
                let numbered = SectionView { id: n as nat, ..fresh };
                assert(after.len() == target.len());
                assert forall|m: int| 0 <= m < after.len() implies after[m] == target[m] by {
                    if m < n - 1 {
                        assert(after[m] == views[m]);
                    } else {
                        assert(after[m] == numbered);
                    }
                }
                assert(after == target);
            }
        },
        None => {
            if count > 0 {
                let n: usize = sections.len();
                let open = &mut sections[n - 1];
                open.add_content(line);
                proof {
                    let after = sections.deep_view();
                    let target = views.update(n - 1, views.last().with_line(line@));
                    assert(after.len() == target.len());
                    assert forall|m: int| 0 <= m < after.len() implies after[m] == target[m] by {
                        if m < n - 1 {
                            assert(after[m] == views[m]);
                        } else {
                            assert(after[m] == views[m].with_line(line@));
                        }
                    }
                    assert(after == target);
                }
            }
        },
    }
}

/// Appends the sections of one document to `sections`: one for each heading
/// line, in the order of the headings, numbered on from those that
/// `sections` holds, each with its breadcrumb, its content, its flags and
/// its timestamps.
pub fn parse_markdown_into(
    sections: &mut Vec<Section>,
    patterns: &Patterns,
    file_path: &str,
    markdown: &str,
)
    ensures
        final(sections).deep_view() == old(sections).deep_view() + document_sections(
            file_path@,
            markdown@,
            old(sections).len() as nat,
        ),
        final(sections).len() == old(sections).len() + heading_lines(split_lines(markdown@)).len(),
{
    let lines = lines_of(markdown);
    let taken: usize = sections.len();
    let ghost all_lines = lines.deep_view();
    let ghost earlier = sections.deep_view();
    let ghost file = file_path@;
    let mut stack: Vec<usize> = Vec::new();
    let mut i: usize = 0;
    assert(all_lines.take(0) == Seq::<Seq<char>>::empty());
    assert(sections.deep_view() == earlier + raw_sections(file, all_lines.take(0), taken as nat));
    while i < lines.len()
        invariant
            i <= lines.len(),
            all_lines == lines.deep_view(),
            file == file_path@,
            taken <= sections.len(),
            sections.deep_view() == earlier + raw_sections(
                file,
                all_lines.take(i as int),
                taken as nat,
            ),
            earlier.len() == taken,
            sections.len() > taken ==> places(stack@) == ancestors(
                headings(all_lines.take(i as int)),
                sections.len() - taken - 1,
            ),
            sections.len() == taken ==> stack@.len() == 0,
        decreases lines.len() - i,
    {
        let line = lines[i].as_str();
        let ghost seen = all_lines.take(i as int);
        let ghost now = all_lines.take(i + 1);
        let ghost before = raw_sections(file, seen, taken as nat);
        let ghost views = sections.deep_view();
        let ghost count = sections.len() - taken;
        let ghost stack_before = places(stack@);
        let heading = scan_heading(patterns, line);
        let ghost scanned = heading.deep_view();
        proof {
            assert(now.drop_last() == seen);
            assert(now.last() == line@);
            raw_sections_grow(file, now, taken as nat);
            heading_lines_ascend(seen);
            heading_lines_ascend(now);
            assert(views.len() == sections.len());
            assert(before.len() == count);
            assert(headings(now).take(count) == headings(seen));
            assert forall|k: int| 0 <= k < count implies views[taken + k] == before[k] by {}
            if count > 0 {
                ancestors_are_settled(headings(seen), headings(now), count - 1);
                assert(headings(seen).take(headings(seen).len() as int) == headings(seen));
                ancestors_are_settled(headings(seen), headings(seen), count - 1);
                assert forall|j: int| 0 <= j < stack.len() implies taken + (#[trigger] stack[j])
                    < sections.len() by {
                    assert(stack_before[j] == stack[j]);
                }
            }
            if heading is Some {
                let hs = headings(now);
                let next = stack_after_line(views, taken as int, stack_before, heading.deep_view());
                assert(hs.take(hs.len() as int) == hs);
                ancestors_are_settled(hs, hs, count);
                assert(hs[count] == heading.deep_view()->0);
                if count > 0 {
                    assert(views.last() == before[count - 1]);
                    assert(hs[count - 1] == headings(seen)[count - 1]);
                }
                assert(next == ancestors(hs, count));
                assert(titles_at(views, taken as int, next) == ancestor_titles(hs, count)) by {
                    assert forall|j: int| 0 <= j < next.len() implies views[taken + next[j]].title
                        == hs[next[j]].title by {
                        assert(views[taken + next[j]] == before[next[j]]);
                        assert(hs[next[j]] == headings(seen)[next[j]]);
                    }
                }
            }
        }
        take_line(sections, &mut stack, taken, file_path, line, i + 1, heading);
        assert(places(stack@).len() == stack.len());
        assert(sections.deep_view().len() == sections.len());
        assert(sections.len() == taken + count + if scanned is Some { 1int } else { 0 });
        assert(sections.deep_view() == earlier + raw_sections(file, now, taken as nat));
        i += 1;
    }
    assert(all_lines.take(lines.len() as int) == all_lines);
    let ghost raw = raw_sections(file, all_lines, taken as nat);
    let mut k: usize = taken;
    while k < sections.len()
        invariant
            taken <= k <= sections.len(),
            earlier.len() == taken,
            sections.len() == taken + raw.len(),
            sections.deep_view() == earlier + raw.take(k - taken).map_values(
                |s: SectionView| s.extracted(),
            ) + raw.skip(k - taken),
        decreases sections.len() - k,
    {
        let ghost views = sections.deep_view();
        assert(views[k as int] == raw[k - taken]);
        let section = &mut sections[k];
        section.parse_status(patterns);
        proof {
            let after = sections.deep_view();
            let target = earlier + raw.take(k + 1 - taken).map_values(
                |s: SectionView| s.extracted(),
            ) + raw.skip(k + 1 - taken);
            assert(after.len() == target.len());
            assert forall|m: int| 0 <= m < after.len() implies after[m] == target[m] by {
                if m != k {
                    assert(after[m] == views[m]);
                }
            }
            assert(after == target);
        }
        k += 1;
    }
    assert(raw.take(raw.len() as int) == raw);
    assert(sections.deep_view() == earlier + raw.map_values(|s: SectionView| s.extracted()));
    proof {
        heading_lines_ascend(all_lines);
    }
}

/// The sections of one document, numbered from 1.
pub fn parse_markdown_file(patterns: &Patterns, file_path: &str, markdown: &str) -> (sections:
    Vec<Section>)
    ensures
        sections.deep_view() == document_sections(file_path@, markdown@, 0),
        sections.len() == heading_lines(split_lines(markdown@)).len(),
{
    let mut sections: Vec<Section> = Vec::new();
    parse_markdown_into(&mut sections, patterns, file_path, markdown);
    assert(sections.deep_view() == Seq::<SectionView>::empty() + document_sections(
        file_path@,
        markdown@,
        0,
    ));
    sections
}

} // verus!
