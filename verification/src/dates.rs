//! HTTP dates.
use std::time::UNIX_EPOCH;
use vstd::prelude::*;

use crate::time::{Timestamp, NANOS_PER_SEC};

verus! {

/// The time that an HTTP date denotes, in seconds since the Unix epoch; `None` where the text is
/// no HTTP date.
pub uninterp spec fn parsed_http_date(text: Seq<char>) -> Option<i64>;

/// `httpdate::parse_http_date`. Its dates lie between the years 1970 and 9999, on whole seconds.
#[verifier::external_body]
pub(crate) fn parse_http_date_secs(text: &str) -> (r: Option<i64>)
    ensures
        r == parsed_http_date(text@),
{
    let time = httpdate::parse_http_date(text).ok()?;
    time.duration_since(UNIX_EPOCH).ok().map(|since| since.as_secs() as i64)
}

/// The time that an HTTP date denotes, in nanoseconds since the Unix epoch.
pub open spec fn http_date(text: Seq<char>) -> Option<int> {
    match parsed_http_date(text) {
        Some(secs) => Some(secs * NANOS_PER_SEC),
        None => None,
    }
}

/// The time that an HTTP date denotes.
pub fn parse_http_date(text: &str) -> (r: Option<Timestamp>)
    ensures
        match r {
            Some(time) => http_date(text@) == Some(time@),
            None => http_date(text@) is None,
        },
{
    match parse_http_date_secs(text) {
        Some(secs) => Some(Timestamp::new(secs, 0)),
        None => None,
    }
}

} // verus!
