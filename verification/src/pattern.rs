//! The patterns that the digest looks for, and the expression engine that
//! finds them: the `regex` crate, behind contracts that Verus takes on trust.

use crate::error::DigestError;
use regex::Regex;
use vstd::prelude::*;

verus! {

/// A heading line: one to six `#`, white space, and the title.
pub const HEADING_PATTERN: &'static str = r"^(#{1,6})\s+(.*)";

/// A timestamp: `(YYYY/MM/DD hh:mm)`.
pub const STAMP_PATTERN: &'static str = r"\(\d{4}/\d{2}/\d{2} \d{2}:\d{2}\)";

/// A timestamp and the blank that may follow it.
pub const STAMP_STRIP_PATTERN: &'static str = r"\(\d{4}/\d{2}/\d{2} \d{2}:\d{2}\) ?";

/// A status marker and the blank that may follow it.
pub const MARKER_STRIP_PATTERN: &'static str = r"\*(TODO|WIP|WAIT|DONE|DONT)\* ?";

#[verifier::external_type_specification]
#[verifier::external_body]
pub struct ExRegex(Regex);

#[verifier::external_type_specification]
#[verifier::external_body]
pub struct ExRegexError(regex::Error);

/// What `Regex::new` makes of `pattern`: the compiled expression, or nothing
/// where the engine refuses the pattern.
pub uninterp spec fn compiled(pattern: Seq<char>) -> Option<Regex>;

/// What `Regex::captures` reports for the leftmost match of `re` in
/// `haystack`: the text of each group, the whole match first, a group that
/// took no part as `None`; or nothing where `re` matches nowhere.
pub uninterp spec fn captured(re: Regex, haystack: Seq<char>) -> Option<Seq<Option<Seq<char>>>>;

/// What `Regex::find_iter` yields for `re` in `haystack`: the texts of the
/// successive matches, which do not overlap, from left to right.
pub uninterp spec fn found(re: Regex, haystack: Seq<char>) -> Seq<Seq<char>>;

/// What `Regex::replace_all` returns: `haystack` with each of those matches
/// replaced by `with`.
pub uninterp spec fn replaced(re: Regex, haystack: Seq<char>, with: Seq<char>) -> Seq<char>;

/// The expression that `pattern` compiles to.
pub open spec fn expression(pattern: Seq<char>) -> Regex {
    compiled(pattern)->0
}

/// `text` without the matches of `re`. Where `re` matches nowhere this is
/// `text` itself.
pub open spec fn stripped(re: Regex, text: Seq<char>) -> Seq<char> {
    if found(re, text).len() == 0 {
        text
    } else {
        replaced(re, text, Seq::empty())
    }
}

/// Calls `Regex::new`. Trusted: the result is `Ok` exactly where `compiled`
/// holds an expression for the pattern, and it is that expression.
#[verifier::external_body]
fn compile(pattern: &str) -> (r: Result<Regex, regex::Error>)
    ensures
        match r {
            Ok(re) => compiled(pattern@) == Some(re),
            Err(_) => compiled(pattern@) is None,
        },
{
    Regex::new(pattern)
}

/// Calls `Regex::captures` and copies the text of each group. Trusted: the
/// result is what `captured` names.
#[verifier::external_body]
fn captures(re: &Regex, haystack: &str) -> (r: Option<Vec<Option<String>>>)
    ensures
        r.deep_view() == captured(*re, haystack@),
{
    re.captures(haystack).map(|c| c.iter().map(|g| g.map(|m| m.as_str().to_string())).collect())
}

/// Calls `Regex::find_iter` and copies the text of each match. Trusted: the
/// result is what `found` names.
#[verifier::external_body]
fn find_all(re: &Regex, haystack: &str) -> (r: Vec<String>)
    ensures
        r.deep_view() == found(*re, haystack@),
{
    re.find_iter(haystack).map(|m| m.as_str().to_string()).collect()
}

/// Calls `Regex::replace_all`. Trusted: the result is what `replaced` names,
/// and it is the haystack itself where `Regex::find_iter` yields no match.
#[verifier::external_body]
fn replace_all(re: &Regex, haystack: &str, with: &str) -> (r: String)
    ensures
        r@ == replaced(*re, haystack@, with@),
        found(*re, haystack@).len() == 0 ==> r@ == haystack@,
{
    re.replace_all(haystack, with).into_owned()
}

/// The four patterns, compiled.
pub struct Patterns {
    heading: Regex,
    stamp: Regex,
    stamp_strip: Regex,
    marker_strip: Regex,
}

impl Patterns {
    #[verifier::type_invariant]
    spec fn well_formed(self) -> bool {
        &&& compiled(HEADING_PATTERN@) == Some(self.heading)
        &&& compiled(STAMP_PATTERN@) == Some(self.stamp)
        &&& compiled(STAMP_STRIP_PATTERN@) == Some(self.stamp_strip)
        &&& compiled(MARKER_STRIP_PATTERN@) == Some(self.marker_strip)
    }

    /// Whether the engine accepts all four patterns.
    pub open spec fn accepted() -> bool {
        &&& compiled(HEADING_PATTERN@) is Some
        &&& compiled(STAMP_PATTERN@) is Some
        &&& compiled(STAMP_STRIP_PATTERN@) is Some
        &&& compiled(MARKER_STRIP_PATTERN@) is Some
    }

    /// Compiles the four patterns.
    pub fn new() -> (r: Result<Patterns, DigestError>)
        ensures
            r is Ok <==> Self::accepted(),
            r is Err ==> r == Err::<Patterns, DigestError>(DigestError::Pattern),
    {
        let heading = match compile(HEADING_PATTERN) {
            Ok(re) => re,
            Err(_) => { return Err(DigestError::Pattern); },
        };
        let stamp = match compile(STAMP_PATTERN) {
            Ok(re) => re,
            Err(_) => { return Err(DigestError::Pattern); },
        };
        let stamp_strip = match compile(STAMP_STRIP_PATTERN) {
            Ok(re) => re,
            Err(_) => { return Err(DigestError::Pattern); },
        };
        let marker_strip = match compile(MARKER_STRIP_PATTERN) {
            Ok(re) => re,
            Err(_) => { return Err(DigestError::Pattern); },
        };
        Ok(Patterns { heading, stamp, stamp_strip, marker_strip })
    }

    /// The groups of `line` read as a heading, if it is one.
    pub fn heading_groups(&self, line: &str) -> (r: Option<Vec<Option<String>>>)
        ensures
            r.deep_view() == captured(expression(HEADING_PATTERN@), line@),
    {
        proof {
            use_type_invariant(self);
        }
        captures(&self.heading, line)
    }

    /// The timestamps in `text`, in the order in which they stand there.
    pub fn stamps_in(&self, text: &str) -> (r: Vec<String>)
        ensures
            r.deep_view() == found(expression(STAMP_PATTERN@), text@),
    {
        proof {
            use_type_invariant(self);
        }
        find_all(&self.stamp, text)
    }

    /// `text` without its timestamps and the blank after each.
    pub fn strip_stamps(&self, text: &str) -> (r: String)
        ensures
            r@ == stripped(expression(STAMP_STRIP_PATTERN@), text@),
    {
        proof {
            use_type_invariant(self);
            reveal_strlit("");
            assert(""@ == Seq::<char>::empty());
        }
        replace_all(&self.stamp_strip, text, "")
    }

    /// `text` without its status markers and the blank after each.
    pub fn strip_markers(&self, text: &str) -> (r: String)
        ensures
            r@ == stripped(expression(MARKER_STRIP_PATTERN@), text@),
    {
        proof {
            use_type_invariant(self);
            reveal_strlit("");
            assert(""@ == Seq::<char>::empty());
        }
        replace_all(&self.marker_strip, text, "")
    }
}

} // verus!
