//! The summary reporter: which sections are listed under which category, in
//! what order, and how the line of each reads.

use crate::calendar::{compact_stamp, compact_timestamp};
use crate::error::DigestError;
use crate::pattern::Patterns;
use crate::section::{short_title_of, Section, SectionView};
use crate::text::{occurs, string_of};
use vstd::prelude::*;
use vstd::string::StringExecFns;

verus! {

#[derive(Debug, Clone, Copy, PartialEq, Eq, Structural)]
pub enum Category {
    Wait,
    Wip,
    Todo,
    Dont,
    Done,
}

/// One line of the report, before it is written out.
#[derive(Debug, Clone, Copy, PartialEq, Eq, Structural)]
pub enum ReportItem {
    /// The line that opens a category.
    Title(Category),
    /// The summary line of the section at this place in the digest.
    Entry(usize),
    /// The empty line between two categories.
    Blank,
}

/// The decimal digit for `d`, which is below ten.
pub open spec fn digit(d: nat) -> char {
    ((48 + d) as u8) as char
}

/// `n` in decimal, without leading zeros.
pub open spec fn decimal(n: nat) -> Seq<char>
    decreases n,
{
    if n < 10 {
        seq![digit(n)]
    } else {
        decimal(n / 10).push(digit(n % 10))
    }
}

/// The summary line of a section: two blanks, the file name, `:L`, the line
/// number in decimal, a colon and a blank, the compact timestamp, a blank,
/// and the short title.
pub open spec fn summary_line_text(
    name: Seq<char>,
    lineno: nat,
    stamp: Seq<char>,
    short_title: Seq<char>,
) -> Seq<char> {
    seq![' ', ' '] + name + seq![':', 'L'] + decimal(lineno) + seq![':', ' '] + stamp + seq![' ']
        + short_title
}

/// Whether `line` is the summary line of `s` under the file name `name`.
pub open spec fn is_summary_line(s: SectionView, name: Seq<char>, line: Seq<char>) -> bool {
    &&& compact_stamp(s.earliest()) is Some
    &&& line == summary_line_text(
        name,
        s.lineno,
        compact_stamp(s.earliest())->0,
        short_title_of(s.full_title),
    )
}

/// Whether the flag of the category is up.
pub open spec fn in_category(s: SectionView, category: Category) -> bool {
    match category {
        Category::Wait => s.wait,
        Category::Wip => s.wip,
        Category::Todo => s.todo,
        Category::Dont => s.dont,
        Category::Done => s.done,
    }
}

/// The line that opens a category.
pub open spec fn category_title(category: Category) -> Seq<char> {
    match category {
        Category::Wait => "WAIT items:"@,
        Category::Wip => "WIP items:"@,
        Category::Todo => "TODO items:"@,
        Category::Dont => "DONT items:"@,
        Category::Done => "DONE items:"@,
    }
}

/// The entries of a category: the sections whose flag is up, in the order of
/// the digest.
pub open spec fn entries(sections: Seq<SectionView>, category: Category) -> Seq<ReportItem>
    decreases sections.len(),
{
    if sections.len() == 0 {
        Seq::empty()
    } else if in_category(sections.last(), category) {
        entries(sections.drop_last(), category).push(
            ReportItem::Entry((sections.len() - 1) as usize),
        )
    } else {
        entries(sections.drop_last(), category)
    }
}

/// A category of the report: its title, then its entries.
pub open spec fn category_block(sections: Seq<SectionView>, category: Category) -> Seq<
    ReportItem,
> {
    seq![ReportItem::Title(category)] + entries(sections, category)
}

/// The report, line by line: what waits, what is in progress, what is to
/// do; after them, where `show_closed` is set, what will not be done and what
/// is done. An empty line stands between two categories.
pub open spec fn report_plan(sections: Seq<SectionView>, show_closed: bool) -> Seq<ReportItem> {
    let open = category_block(sections, Category::Wait) + seq![ReportItem::Blank] + category_block(
        sections,
        Category::Wip,
    ) + seq![ReportItem::Blank] + category_block(sections, Category::Todo);
    if show_closed {
        open + seq![ReportItem::Blank] + category_block(sections, Category::Dont)
            + seq![ReportItem::Blank] + category_block(sections, Category::Done)
    } else {
        open
    }
}

/// Whether `line` is the summary line of `s` under a file name that stands
/// in the path of `s`.
pub open spec fn is_summary_line_of(s: SectionView, line: Seq<char>) -> bool {
    exists|name: Seq<char>| occurs(s.file, name) && #[trigger] is_summary_line(s, name, line)
}

/// Whether `line` is how `item` reads.
pub open spec fn renders(item: ReportItem, sections: Seq<SectionView>, line: Seq<char>) -> bool {
    match item {
        ReportItem::Title(category) => line == category_title(category),
        ReportItem::Entry(k) => k < sections.len() && is_summary_line_of(sections[k as int], line),
        ReportItem::Blank => line == Seq::<char>::empty(),
    }
}

/// Whether the report lists a section at all.
pub open spec fn lists_a_section(plan: Seq<ReportItem>) -> bool {
    exists|i: int| 0 <= i < plan.len() && (#[trigger] plan[i]) is Entry
}

/// Whether the report lists a section whose earliest timestamp names no
/// calendar date and time.
pub open spec fn lists_a_bad_stamp(plan: Seq<ReportItem>, sections: Seq<SectionView>) -> bool {
    exists|i: int|
        0 <= i < plan.len() && (#[trigger] plan[i]) is Entry && plan[i]->Entry_0 < sections.len()
            && compact_stamp(sections[plan[i]->Entry_0 as int].earliest()) is None
}

/// Every entry of a category stands for a section of that category, and the
/// entries follow the order of the digest.
pub proof fn entries_follow_the_digest(sections: Seq<SectionView>, category: Category)
    requires
        sections.len() <= usize::MAX,
    ensures
        entries(sections, category).len() <= sections.len(),
        forall|i: int|
            0 <= i < entries(sections, category).len() ==> (
            #[trigger] entries(sections, category)[i]) is Entry && entries(
                sections,
                category,
            )[i]->Entry_0 < sections.len() && in_category(
                sections[entries(sections, category)[i]->Entry_0 as int],
                category,
            ),
        forall|i: int, j: int|
            0 <= i < j < entries(sections, category).len() ==> (
            #[trigger] entries(sections, category)[i])->Entry_0 < (
            #[trigger] entries(sections, category)[j])->Entry_0,
    decreases sections.len(),
{
    if sections.len() > 0 {
        let front = sections.drop_last();
        entries_follow_the_digest(front, category);
        assert forall|i: int| 0 <= i < entries(front, category).len() implies in_category(
            sections[(#[trigger] entries(front, category)[i])->Entry_0 as int],
            category,
        ) by {
            assert(front[entries(front, category)[i]->Entry_0 as int] == sections[entries(
                front,
                category,
            )[i]->Entry_0 as int]);
        }
    }
}

/// The digits of `n`.
fn decimal_chars(n: usize) -> (r: Vec<char>)
    ensures
        r@ == decimal(n as nat),
    decreases n,
{
    let d: u8 = (n % 10) as u8;
    let c: char = (48u8 + d) as char;
    if n < 10 {
        let mut r: Vec<char> = Vec::new();
        r.push(c);
        r
    } else {
        let mut r = decimal_chars(n / 10);
        r.push(c);
        r
    }
}

/// The summary line made of its four parts.
pub fn summary_line_of(name: &str, lineno: usize, stamp: &str, short_title: &str) -> (r: String)
    ensures
        r@ == summary_line_text(name@, lineno as nat, stamp@, short_title@),
{
    let digits = string_of(&decimal_chars(lineno));
    let mut line = String::new();
    line.push(' ');
    line.push(' ');
    line.append(name);
    line.push(':');
    line.push('L');
    line.append(digits.as_str());
    line.push(':');
    line.push(' ');
    line.append(stamp);
    line.push(' ');
    line.append(short_title);
    assert(line@ == summary_line_text(name@, lineno as nat, stamp@, short_title@));
    line
}

/// Calls `Path::file_name` on the path and gives its final component as a
/// string. Trusted: the component is a part of the path. Where it starts is
/// the platform's business, and nothing is promised of that.
#[verifier::external_body]
fn file_name_of(path: &str) -> (r: Option<String>)
    ensures
        r matches Some(name) ==> occurs(path@, name@),
{
    std::path::Path::new(path).file_name().map(|name| name.to_string_lossy().into_owned())
}

/// The line that opens a category.
pub fn title_of(category: Category) -> (r: &'static str)
    ensures
        r@ == category_title(category),
{
    match category {
        Category::Wait => "WAIT items:",
        Category::Wip => "WIP items:",
        Category::Todo => "TODO items:",
        Category::Dont => "DONT items:",
        Category::Done => "DONE items:",
    }
}

impl Section {
    /// Whether the flag of the category is up.
    pub fn in_category(&self, category: Category) -> (r: bool)
        ensures
            r == in_category(self@, category),
    {
        match category {
            Category::Wait => self.wait,
            Category::Wip => self.wip,
            Category::Todo => self.todo,
            Category::Dont => self.dont,
            Category::Done => self.done,
        }
    }

    /// The summary line of the section under the file name `name`: its line
    /// number, its earliest timestamp in the compact form, and its short
    /// title. Fails where the earliest timestamp names no calendar date and
    /// time.
    pub fn summary_line_with(&self, patterns: &Patterns, name: &str) -> (r: Result<
        String,
        DigestError,
    >)
        requires
            self@.timestamps.len() > 0,
        ensures
            match r {
                Ok(line) => is_summary_line(self@, name@, line@),
                Err(e) => e == DigestError::Timestamp && compact_stamp(self@.earliest()) is None,
            },
    {
        assert(self.timestamps.deep_view().first() == self.timestamps@.first()@);
        match compact_timestamp(self.timestamps[0].as_str()) {
            Ok(stamp) => {
                let short = self.short_title(patterns);
                Ok(summary_line_of(name, self.lineno, stamp.as_str(), short.as_str()))
            },
            Err(e) => Err(e),
        }
    }

    /// The summary line of the section under the final component of its
    /// path. Fails where the path has none, and otherwise where the earliest
    /// timestamp names no calendar date and time.
    pub fn summary_line(&self, patterns: &Patterns) -> (r: Result<String, DigestError>)
        requires
            self@.timestamps.len() > 0,
        ensures
            match r {
                Ok(line) => is_summary_line_of(self@, line@),
                Err(e) => e == DigestError::SourceName || (e == DigestError::Timestamp
                    && compact_stamp(self@.earliest()) is None),
            },
    {
        match file_name_of(self.file.as_str()) {
            Some(name) => {
                let r = self.summary_line_with(patterns, name.as_str());
                assert(r is Ok ==> is_summary_line(self@, name@, r->Ok_0@));
                r
            },
            None => Err(DigestError::SourceName),
        }
    }
}

/// Appends the entries of a category.
fn push_entries(items: &mut Vec<ReportItem>, sections: &Vec<Section>, category: Category)
    ensures
        final(items)@ == old(items)@ + entries(sections.deep_view(), category),
{
    let mut k: usize = 0;
    assert(sections.deep_view().take(0) == Seq::<SectionView>::empty());
    while k < sections.len()
        invariant
            k <= sections.len(),
            items@ == old(items)@ + entries(sections.deep_view().take(k as int), category),
        decreases sections.len() - k,
    {
        assert(sections.deep_view().take(k + 1).drop_last() == sections.deep_view().take(k as int));
        assert(sections.deep_view().take(k + 1).last() == sections[k as int]@);
        if sections[k].in_category(category) {
            items.push(ReportItem::Entry(k));
        }
        k += 1;
    }
    assert(sections.deep_view().take(sections.len() as int) == sections.deep_view());
}

/// Lays out the report: the categories in their order, each with the
/// sections whose flag is up, in the order of the digest.
pub fn report_items(sections: &Vec<Section>, show_closed: bool) -> (items: Vec<ReportItem>)
    ensures
        items@ == report_plan(sections.deep_view(), show_closed),
{
    let mut items: Vec<ReportItem> = Vec::new();
    items.push(ReportItem::Title(Category::Wait));
    push_entries(&mut items, sections, Category::Wait);
    items.push(ReportItem::Blank);
    items.push(ReportItem::Title(Category::Wip));
    push_entries(&mut items, sections, Category::Wip);
    items.push(ReportItem::Blank);
    items.push(ReportItem::Title(Category::Todo));
    push_entries(&mut items, sections, Category::Todo);
    if show_closed {
        items.push(ReportItem::Blank);
        items.push(ReportItem::Title(Category::Dont));
        push_entries(&mut items, sections, Category::Dont);
        items.push(ReportItem::Blank);
        items.push(ReportItem::Title(Category::Done));
        push_entries(&mut items, sections, Category::Done);
    }
    assert(items@ == report_plan(sections.deep_view(), show_closed));
    items
}

/// The report on the digest, line by line. Fails at the first entry whose
/// line cannot be made; a report that lists no section does not fail.
pub fn markdown_section_summary(sections: &Vec<Section>, patterns: &Patterns, show_closed: bool) -> (r:
    Result<Vec<String>, DigestError>)
    requires
        forall|k: int| 0 <= k < sections.len() ==> (#[trigger] sections[k])@.timestamps.len() > 0,
    ensures
        match r {
            Ok(lines) => {
                let plan = report_plan(sections.deep_view(), show_closed);
                &&& lines.len() == plan.len()
                &&& forall|i: int|
                    0 <= i < plan.len() ==> renders(
                        #[trigger] plan[i],
                        sections.deep_view(),
                        lines[i]@,
                    )
            },
            Err(e) => {
                let plan = report_plan(sections.deep_view(), show_closed);
                &&& lists_a_section(plan)
                &&& e == DigestError::SourceName || (e == DigestError::Timestamp
                    && lists_a_bad_stamp(plan, sections.deep_view()))
            },
        },
{
    let items = report_items(sections, show_closed);
    let ghost plan = report_plan(sections.deep_view(), show_closed);
    let ghost views = sections.deep_view();
    let mut lines: Vec<String> = Vec::new();
    let mut i: usize = 0;
    while i < items.len()
        invariant
            i <= items.len(),
            items@ == plan,
            plan == report_plan(views, show_closed),
            views == sections.deep_view(),
            lines.len() == i,
            forall|k: int|
                0 <= k < sections.len() ==> (#[trigger] sections[k])@.timestamps.len() > 0,
            forall|t: int| 0 <= t < i ==> renders(#[trigger] plan[t], views, lines[t]@),
        decreases items.len() - i,
    {
        let line = match items[i] {
            ReportItem::Title(category) => title_of(category).to_owned(),
            ReportItem::Entry(k) => {
                if k < sections.len() {
                    assert(views[k as int] == sections[k as int]@);
                    match sections[k].summary_line(patterns) {
                        Ok(line) => line,
                        Err(e) => {
                            assert(plan[i as int] is Entry);
                            return Err(e);
                        },
                    }
                } else {
                    String::new()
                }
            },
            ReportItem::Blank => String::new(),
        };
        proof {
            if let ReportItem::Entry(k) = plan[i as int] {
                plan_entries_are_sections(views, show_closed, i as int);
            }
        }
        lines.push(line);
        i += 1;
    }
    Ok(lines)
}

/// Every entry of the report stands for a section of the digest.
pub proof fn plan_entries_are_sections(sections: Seq<SectionView>, show_closed: bool, i: int)
    requires
        sections.len() <= usize::MAX,
        0 <= i < report_plan(sections, show_closed).len(),
        report_plan(sections, show_closed)[i] is Entry,
    ensures
        report_plan(sections, show_closed)[i]->Entry_0 < sections.len(),
{
    entries_follow_the_digest(sections, Category::Wait);
    entries_follow_the_digest(sections, Category::Wip);
    entries_follow_the_digest(sections, Category::Todo);
    entries_follow_the_digest(sections, Category::Dont);
    entries_follow_the_digest(sections, Category::Done);
}

} // verus!
