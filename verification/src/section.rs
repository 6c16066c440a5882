//! A section: one heading-delimited block of a document, with its status
//! flags and its timestamps.

use crate::order::{ascending, sort_ascending, sorted_texts, sorted_texts_is_the_ascending_rearrangement};
use crate::pattern::{expression, found, stripped, Patterns, MARKER_STRIP_PATTERN, STAMP_PATTERN, STAMP_STRIP_PATTERN};
use crate::text::{chars_of, contains_chars, occurs};
use vstd::prelude::*;
use vstd::string::StringExecFns;

verus! {

/// The timestamp of a section that holds none: earlier than any that a note
/// would carry.
pub const SENTINEL: &'static str = "(2000/01/01 00:00)";

pub const TODO_MARKER: &'static str = "*TODO*";

pub const WIP_MARKER: &'static str = "*WIP*";

pub const WAIT_MARKER: &'static str = "*WAIT*";

pub const DONE_MARKER: &'static str = "*DONE*";

pub const DONT_MARKER: &'static str = "*DONT*";

#[derive(Debug, Clone, PartialEq, Eq)]
pub struct Section {
    /// Sequence number, counted from 1 in the order of discovery.
    pub id: usize,
    /// The path of the document that the section stands in.
    pub file: String,
    /// The line of the heading, counted from 1.
    pub lineno: usize,
    /// The heading's own text.
    pub title: String,
    /// The titles of the ancestors and the section's own, root first, joined
    /// by `" / "`.
    pub full_title: String,
    /// The depth of the heading.
    pub level: usize,
    /// The heading line and every line up to the next heading, each followed
    /// by a line feed.
    pub content: String,
    pub todo: bool,
    pub wip: bool,
    pub wait: bool,
    pub done: bool,
    pub dont: bool,
    /// The timestamps found in `content`, ascending; never empty once the
    /// section has been through `parse_status`.
    pub timestamps: Vec<String>,
}

pub struct SectionView {
    pub id: nat,
    pub file: Seq<char>,
    pub lineno: nat,
    pub title: Seq<char>,
    pub full_title: Seq<char>,
    pub level: nat,
    pub content: Seq<char>,
    pub todo: bool,
    pub wip: bool,
    pub wait: bool,
    pub done: bool,
    pub dont: bool,
    pub timestamps: Seq<Seq<char>>,
}

impl View for Section {
    type V = SectionView;

    open spec fn view(&self) -> SectionView {
        SectionView {
            id: self.id as nat,
            file: self.file@,
            lineno: self.lineno as nat,
            title: self.title@,
            full_title: self.full_title@,
            level: self.level as nat,
            content: self.content@,
            todo: self.todo,
            wip: self.wip,
            wait: self.wait,
            done: self.done,
            dont: self.dont,
            timestamps: self.timestamps.deep_view(),
        }
    }
}

impl DeepView for Section {
    type V = SectionView;

    open spec fn deep_view(&self) -> SectionView {
        self@
    }
}

impl SectionView {
    /// A section as its heading opens it: no content, no flag, no timestamp.
    pub open spec fn opened(
        id: nat,
        file: Seq<char>,
        lineno: nat,
        title: Seq<char>,
        full_title: Seq<char>,
        level: nat,
    ) -> SectionView {
        SectionView {
            id,
            file,
            lineno,
            title,
            full_title,
            level,
            content: Seq::empty(),
            todo: false,
            wip: false,
            wait: false,
            done: false,
            dont: false,
            timestamps: Seq::empty(),
        }
    }

    /// The section with one more line of content.
    pub open spec fn with_line(self, line: Seq<char>) -> SectionView {
        SectionView { content: self.content + line + seq!['\n'], ..self }
    }

    /// The section with the given timestamps taken in.
    pub open spec fn with_stamps(self, found: Seq<Seq<char>>) -> SectionView {
        SectionView { timestamps: settled_stamps(self.timestamps + found), ..self }
    }

    /// The section with each flag raised whose marker stands in the content.
    /// A flag that is up stays up.
    pub open spec fn with_flags(self) -> SectionView {
        SectionView {
            todo: self.todo || occurs(self.content, TODO_MARKER@),
            wip: self.wip || occurs(self.content, WIP_MARKER@),
            wait: self.wait || occurs(self.content, WAIT_MARKER@),
            done: self.done || occurs(self.content, DONE_MARKER@),
            dont: self.dont || occurs(self.content, DONT_MARKER@),
            ..self
        }
    }

    /// The section after extraction: flags from the markers in the content,
    /// timestamps from the content.
    pub open spec fn extracted(self) -> SectionView {
        self.with_flags().with_stamps(found(expression(STAMP_PATTERN@), self.content))
    }

    /// Whether the section holds a timestamp, and its timestamps ascend.
    pub open spec fn finalized(self) -> bool {
        self.timestamps.len() > 0 && ascending(self.timestamps)
    }

    /// The most recent timestamp: the last one.
    pub open spec fn latest(self) -> Seq<char> {
        self.timestamps.last()
    }

    /// The earliest timestamp: the first one.
    pub open spec fn earliest(self) -> Seq<char> {
        self.timestamps.first()
    }
}

/// The timestamps of a section, settled: in ascending order, or the sentinel
/// alone where there is none.
pub open spec fn settled_stamps(all: Seq<Seq<char>>) -> Seq<Seq<char>> {
    if all.len() == 0 {
        seq![SENTINEL@]
    } else {
        sorted_texts(all)
    }
}

/// A breadcrumb without its timestamps and status markers.
pub open spec fn short_title_of(full_title: Seq<char>) -> Seq<char> {
    stripped(
        expression(MARKER_STRIP_PATTERN@),
        stripped(expression(STAMP_STRIP_PATTERN@), full_title),
    )
}

/// Settled timestamps ascend, and there is at least one.
pub proof fn settled_stamps_are_finalized(all: Seq<Seq<char>>)
    ensures
        settled_stamps(all).len() > 0,
        settled_stamps(all).len() == if all.len() == 0 { 1 } else { all.len() },
        ascending(settled_stamps(all)),
{
    sorted_texts_is_the_ascending_rearrangement(all);
}

/// Extraction leaves a section finalized, whatever it held before.
pub proof fn extracted_is_finalized(s: SectionView)
    ensures
        s.extracted().finalized(),
{
    settled_stamps_are_finalized(s.timestamps + found(expression(STAMP_PATTERN@), s.content));
}

/// A section without a timestamp gets the sentinel, and nothing else.
pub proof fn no_stamp_gives_the_sentinel(s: SectionView)
    requires
        s.timestamps.len() == 0,
        found(expression(STAMP_PATTERN@), s.content).len() == 0,
    ensures
        s.extracted().timestamps == seq![SENTINEL@],
{
}

/// Each flag of a fresh section depends on its own marker alone.
pub proof fn flags_are_independent(s: SectionView)
    requires
        !s.todo && !s.wip && !s.wait && !s.done && !s.dont,
    ensures
        s.extracted().todo == occurs(s.content, TODO_MARKER@),
        s.extracted().wip == occurs(s.content, WIP_MARKER@),
        s.extracted().wait == occurs(s.content, WAIT_MARKER@),
        s.extracted().done == occurs(s.content, DONE_MARKER@),
        s.extracted().dont == occurs(s.content, DONT_MARKER@),
{
}

/// A title in which neither strip pattern finds anything is its own short
/// title.
pub proof fn short_title_of_plain_title(title: Seq<char>)
    requires
        found(expression(STAMP_STRIP_PATTERN@), title).len() == 0,
        found(expression(MARKER_STRIP_PATTERN@), title).len() == 0,
    ensures
        short_title_of(title) == title,
{
}

/// Stripping a short title again changes nothing, where the first stripping
/// left nothing to find.
pub proof fn short_title_is_idempotent(title: Seq<char>)
    requires
        found(expression(STAMP_STRIP_PATTERN@), short_title_of(title)).len() == 0,
        found(expression(MARKER_STRIP_PATTERN@), short_title_of(title)).len() == 0,
    ensures
        short_title_of(short_title_of(title)) == short_title_of(title),
{
    short_title_of_plain_title(short_title_of(title));
}

impl Section {
    pub fn new(
        id: usize,
        file: String,
        lineno: usize,
        title: String,
        full_title: String,
        level: usize,
    ) -> (s: Section)
        ensures
            s@ == SectionView::opened(
                id as nat,
                file@,
                lineno as nat,
                title@,
                full_title@,
                level as nat,
            ),
    {
        let s = Section {
            id,
            file,
            lineno,
            title,
            full_title,
            level,
            content: String::new(),
            todo: false,
            wip: false,
            wait: false,
            done: false,
            dont: false,
            timestamps: Vec::new(),
        };
        assert(s.timestamps.deep_view() == Seq::<Seq<char>>::empty());
        s
    }

    /// Appends `line` and a line feed to the content.
    pub fn add_content(&mut self, line: &str)
        ensures
            final(self)@ == old(self)@.with_line(line@),
    {
        self.content.append(line);
        self.content.push('\n');
        assert(self.content@ == old(self).content@ + line@ + seq!['\n']);
    }

    /// Whether `keyword` stands anywhere in the content.
    pub fn contains_keyword(&self, keyword: &str) -> (r: bool)
        ensures
            r == occurs(self@.content, keyword@),
    {
        let hay = chars_of(self.content.as_str());
        let needle = chars_of(keyword);
        contains_chars(&hay, &needle)
    }

    /// Takes in timestamps that were found in the content: they join those
    /// already held, all are put into ascending order, and the sentinel
    /// stands in where there is none at all.
    pub fn take_timestamps(&mut self, found: Vec<String>)
        ensures
            final(self)@ == old(self)@.with_stamps(found.deep_view()),
    {
        let ghost all = self.timestamps.deep_view() + found.deep_view();
        let mut found = found;
        self.timestamps.append(&mut found);
        assert(self.timestamps.deep_view() == all);
        sort_ascending(&mut self.timestamps);
        proof {
            sorted_texts_is_the_ascending_rearrangement(all);
        }
        if self.timestamps.len() == 0 {
            self.timestamps.push(SENTINEL.to_owned());
            assert(self.timestamps.deep_view() == seq![SENTINEL@]);
        }
    }

    /// Collects the timestamps of the content.
    pub fn parse_timestamps(&mut self, patterns: &Patterns)
        ensures
            final(self)@ == old(self)@.with_stamps(
                found(expression(STAMP_PATTERN@), old(self)@.content),
            ),
    {
        let found = patterns.stamps_in(self.content.as_str());
        self.take_timestamps(found);
    }

    /// Runs the extraction: raises the flag of each marker that stands in
    /// the content, and collects the timestamps.
    pub fn parse_status(&mut self, patterns: &Patterns)
        ensures
            final(self)@ == old(self)@.extracted(),
    {
        let hay = chars_of(self.content.as_str());
        if contains_chars(&hay, &chars_of(TODO_MARKER)) {
            self.todo = true;
        }
        if contains_chars(&hay, &chars_of(WIP_MARKER)) {
            self.wip = true;
        }
        if contains_chars(&hay, &chars_of(WAIT_MARKER)) {
            self.wait = true;
        }
        if contains_chars(&hay, &chars_of(DONE_MARKER)) {
            self.done = true;
        }
        if contains_chars(&hay, &chars_of(DONT_MARKER)) {
            self.dont = true;
        }
        self.parse_timestamps(patterns);
    }

    /// The breadcrumb without its timestamps and status markers, and without
    /// the blank that followed each.
    pub fn short_title(&self, patterns: &Patterns) -> (r: String)
        ensures
            r@ == short_title_of(self@.full_title),
    {
        let without_stamps = patterns.strip_stamps(self.full_title.as_str());
        patterns.strip_markers(without_stamps.as_str())
    }
}

} // verus!
