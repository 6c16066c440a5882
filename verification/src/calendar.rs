//! Timestamps as calendar dates: reading and writing them is the work of the
//! `chrono` crate, behind contracts that Verus takes on trust.

use crate::error::DigestError;
use chrono::{NaiveDateTime, ParseError};
use std::fmt::Write;
use vstd::prelude::*;

verus! {

/// How a timestamp stands in a document.
pub const STAMP_FORMAT: &'static str = "(%Y/%m/%d %H:%M)";

/// How a timestamp stands in a summary line.
pub const COMPACT_FORMAT: &'static str = "%y%m%d_%H%M";

#[verifier::external_type_specification]
#[verifier::external_body]
pub struct ExNaiveDateTime(NaiveDateTime);

#[verifier::external_type_specification]
#[verifier::external_body]
pub struct ExParseError(ParseError);

/// What `NaiveDateTime::parse_from_str` reads from `text` under `format`: a
/// date and time, or nothing where the text does not follow the format or
/// names no calendar date and time.
pub uninterp spec fn datetime_read(text: Seq<char>, format: Seq<char>) -> Option<NaiveDateTime>;

/// What `NaiveDateTime::format` writes for `moment` under `format`, or
/// nothing where the format cannot be written.
pub uninterp spec fn datetime_written(moment: NaiveDateTime, format: Seq<char>) -> Option<
    Seq<char>,
>;

/// A timestamp in the compact form, where it names a date and time.
pub open spec fn compact_stamp(stamp: Seq<char>) -> Option<Seq<char>> {
    match datetime_read(stamp, STAMP_FORMAT@) {
        Some(moment) => datetime_written(moment, COMPACT_FORMAT@),
        None => None,
    }
}

/// Calls `NaiveDateTime::parse_from_str`. Trusted: the result is `Ok` exactly
/// where `datetime_read` holds a date and time, and it is that one.
#[verifier::external_body]
fn read_datetime(text: &str, format: &str) -> (r: Result<NaiveDateTime, ParseError>)
    ensures
        match r {
            Ok(moment) => datetime_read(text@, format@) == Some(moment),
            Err(_) => datetime_read(text@, format@) is None,
        },
{
    NaiveDateTime::parse_from_str(text, format)
}

/// Calls `NaiveDateTime::format` and writes what it gives into a string.
/// Trusted: the result is what `datetime_written` names.
#[verifier::external_body]
fn write_datetime(moment: &NaiveDateTime, format: &str) -> (r: Option<String>)
    ensures
        r.deep_view() == datetime_written(*moment, format@),
{
    let mut out = String::new();
    match write!(out, "{}", moment.format(format)) {
        Ok(()) => Some(out),
        Err(_) => None,
    }
}

/// The compact form of a timestamp; fails where the timestamp names no
/// calendar date and time.
pub fn compact_timestamp(stamp: &str) -> (r: Result<String, DigestError>)
    ensures
        match r {
            Ok(text) => compact_stamp(stamp@) == Some(text@),
            Err(e) => e == DigestError::Timestamp && compact_stamp(stamp@) is None,
        },
{
    match read_datetime(stamp, STAMP_FORMAT) {
        Ok(moment) => match write_datetime(&moment, COMPACT_FORMAT) {
            Some(text) => Ok(text),
            None => Err(DigestError::Timestamp),
        },
        Err(_) => Err(DigestError::Timestamp),
    }
}

} // verus!
