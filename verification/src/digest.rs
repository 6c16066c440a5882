//! The aggregator: the sections of all documents in one list, the most
//! recently touched first.

use crate::document::{document_sections, one_section_for_each_heading, parse_markdown_into};
use crate::order::{
    le_chars, lex_le, lex_le_total, lex_le_transitive, moving_down_keeps_order,
};
use crate::pattern::Patterns;
use crate::section::{Section, SectionView};
use crate::text::chars_of;
use vstd::prelude::*;
use vstd::relations::{sorted_by, strongly_connected, transitive};

verus! {

/// A document as it was read: where it came from and what it holds.
#[derive(Debug, Clone, PartialEq, Eq)]
pub struct Document {
    pub path: String,
    pub text: String,
}

pub struct DocumentView {
    pub path: Seq<char>,
    pub text: Seq<char>,
}

impl View for Document {
    type V = DocumentView;

    open spec fn view(&self) -> DocumentView {
        DocumentView { path: self.path@, text: self.text@ }
    }
}

impl DeepView for Document {
    type V = DocumentView;

    open spec fn deep_view(&self) -> DocumentView {
        self@
    }
}

/// The order of the digest: `a` may stand before `b` where the most recent
/// timestamp of `a` is not earlier than that of `b`.
pub open spec fn recency_order() -> spec_fn(SectionView, SectionView) -> bool {
    |a: SectionView, b: SectionView| lex_le(b.latest(), a.latest())
}

/// Whether no section stands before one that was touched more recently.
pub open spec fn most_recent_first(sections: Seq<SectionView>) -> bool {
    sorted_by(sections, recency_order())
}

/// The sections of the documents, document after document, numbered through.
pub open spec fn all_sections(documents: Seq<DocumentView>) -> Seq<SectionView>
    decreases documents.len(),
{
    if documents.len() == 0 {
        Seq::empty()
    } else {
        let earlier = all_sections(documents.drop_last());
        earlier + document_sections(documents.last().path, documents.last().text, earlier.len())
    }
}

/// The order of the digest is total and transitive.
pub proof fn recency_order_is_total_preorder()
    ensures
        transitive(recency_order()),
        strongly_connected(recency_order()),
{
    assert forall|a: SectionView, b: SectionView, c: SectionView|
        #[trigger] recency_order()(a, b) && #[trigger] recency_order()(b, c) implies recency_order()(
        a,
        c,
    ) by {
        lex_le_transitive(c.latest(), b.latest(), a.latest());
    }
    assert forall|a: SectionView, b: SectionView| #[trigger]
        recency_order()(a, b) || #[trigger] recency_order()(b, a) by {
        lex_le_total(a.latest(), b.latest());
    }
}

/// Every section of the documents is finalized, and they are numbered from 1
/// in the order in which they were found.
pub proof fn all_sections_are_finalized(documents: Seq<DocumentView>)
    ensures
        forall|k: int|
            0 <= k < all_sections(documents).len() ==> {
                &&& (#[trigger] all_sections(documents)[k]).finalized()
                &&& all_sections(documents)[k].id == k + 1
            },
    decreases documents.len(),
{
    if documents.len() > 0 {
        let earlier = all_sections(documents.drop_last());
        all_sections_are_finalized(documents.drop_last());
        one_section_for_each_heading(documents.last().path, documents.last().text, earlier.len());
    }
}

/// Sorts the sections so that the most recently touched come first: by the
/// last timestamp of each, descending.
pub fn sort_by_recency(sections: &mut Vec<Section>)
    requires
        forall|k: int| 0 <= k < old(sections).len() ==> (#[trigger] old(sections)[k])@.timestamps.len() > 0,
    ensures
        most_recent_first(final(sections).deep_view()),
        final(sections).deep_view().to_multiset() == old(sections).deep_view().to_multiset(),
        final(sections).len() == old(sections).len(),
{
    let mut keys: Vec<Vec<char>> = Vec::new();
    let mut k: usize = 0;
    while k < sections.len()
        invariant
            k <= sections.len(),
            keys.len() == k,
            *sections == *old(sections),
            forall|t: int|
                0 <= t < sections.len() ==> (#[trigger] sections[t])@.timestamps.len() > 0,
            forall|t: int| 0 <= t < k ==> (#[trigger] keys@[t])@ == sections@[t]@.latest(),
        decreases sections.len() - k,
    {
        let stamps = &sections[k].timestamps;
        assert(stamps.deep_view().last() == stamps@.last()@);
        keys.push(chars_of(stamps[stamps.len() - 1].as_str()));
        k += 1;
    }
    let mut i: usize = 0;
    assert(sections.deep_view().take(0) == Seq::<SectionView>::empty());
    while i < sections.len()
        invariant
            i <= sections.len(),
            keys.len() == sections.len(),
            sections.len() == old(sections).len(),
            forall|t: int|
                0 <= t < sections.len() ==> (#[trigger] keys@[t])@ == sections@[t]@.latest(),
            most_recent_first(sections.deep_view().take(i as int)),
            sections.deep_view().to_multiset() == old(sections).deep_view().to_multiset(),
        decreases sections.len() - i,
    {
        let mut j: usize = i;
        while j > 0 && !le_chars(&keys[i], &keys[j - 1])
            invariant
                j <= i < sections.len(),
                keys.len() == sections.len(),
                forall|t: int| j <= t < i ==> !lex_le(keys@[i as int]@, (#[trigger] keys@[t])@),
            decreases j,
        {
            j -= 1;
        }
        let ghost before = sections.deep_view();
        let ghost keys_before = keys@;
        let section = sections.remove(i);
        sections.insert(j, section);
        let key = keys.remove(i);
        keys.insert(j, key);
        proof {
            recency_order_is_total_preorder();
            assert forall|t: int| j <= t < i implies !recency_order()(
                #[trigger] before[t],
                before[i as int],
            ) by {
                assert(before[t].latest() == keys_before[t]@);
            }
            assert(j > 0 ==> before[j - 1].latest() == keys_before[j - 1]@);
            moving_down_keeps_order(before, recency_order(), i as int, j as int);
            assert(sections.deep_view() == before.remove(i as int).insert(
                j as int,
                before[i as int],
            ));
        }
        i += 1;
    }
    assert(sections.deep_view().take(sections.len() as int) == sections.deep_view());
}

/// The digest of the documents: the sections of all of them, numbered in the
/// order in which they were found, the most recently touched first.
pub fn digest(patterns: &Patterns, documents: &Vec<Document>) -> (sections: Vec<Section>)
    ensures
        most_recent_first(sections.deep_view()),
        sections.deep_view().to_multiset() == all_sections(documents.deep_view()).to_multiset(),
        sections.len() == all_sections(documents.deep_view()).len(),
{
    let mut sections: Vec<Section> = Vec::new();
    let mut d: usize = 0;
    assert(documents.deep_view().take(0) == Seq::<DocumentView>::empty());
    while d < documents.len()
        invariant
            d <= documents.len(),
            sections.deep_view() == all_sections(documents.deep_view().take(d as int)),
        decreases documents.len() - d,
    {
        let document = &documents[d];
        assert(documents.deep_view().take(d + 1).drop_last() == documents.deep_view().take(
            d as int,
        ));
        assert(documents.deep_view().take(d + 1).last() == document@);
        parse_markdown_into(
            &mut sections,
            patterns,
            document.path.as_str(),
            document.text.as_str(),
        );
        d += 1;
    }
    assert(documents.deep_view().take(documents.len() as int) == documents.deep_view());
    proof {
        all_sections_are_finalized(documents.deep_view());
        assert forall|k: int| 0 <= k < sections.len() implies (#[trigger] sections[k])@.timestamps.len()
            > 0 by {
            assert(sections.deep_view()[k] == sections[k]@);
        }
    }
    sort_by_recency(&mut sections);
    sections
}

} // verus!
