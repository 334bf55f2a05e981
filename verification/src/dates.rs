//! Canonicalizing the manifest date to `YYYY-MM-DD`.
//!
//! The manifests write the run date either as six digits (`%y%m%d`) or, on
//! some instruments, in a US-style date-time.  Interpreting those forms is
//! delegated to the calendar library; turning the interpreted day into the
//! canonical string is verified here.

use chrono::Datelike;
use vstd::prelude::*;
use crate::digits::{push_udec_pad2, push_udec_pad4, spec_udec_pad2, spec_udec_pad4};
use crate::errors::IngestError;

verus! {

/// The day a six-digit `%y%m%d` date names, as (year, month, day), or `None`
/// when the text is not such a date.
pub uninterp spec fn date_from_yymmdd(s: Seq<char>) -> Option<(int, int, int)>;

/// The day a `%-m/%-d/%Y %-I:%M:%S %p` date-time names, as (year, month,
/// day), or `None` when the text is not of that form.
pub uninterp spec fn date_from_us_datetime(s: Seq<char>) -> Option<(int, int, int)>;

/// Relies on `chrono::NaiveDate::parse_from_str` with the `%y%m%d` format:
/// the result depends on the text alone, the two-digit year is resolved as
/// 2000..=2069 below seventy and 1970..=1999 from seventy on, and month and
/// day of a valid date lie in their calendar ranges.
#[verifier::external_body]
fn parse_date_yymmdd(s: &str) -> (r: Option<(i32, u32, u32)>)
    ensures
        match r {
            Some(p) => date_from_yymmdd(s@) == Some((p.0 as int, p.1 as int, p.2 as int))
                && 1970 <= p.0 <= 2069 && 1 <= p.1 <= 12 && 1 <= p.2 <= 31,
            None => date_from_yymmdd(s@) is None,
        },
{
    chrono::NaiveDate::parse_from_str(s, "%y%m%d").ok().map(|d| (d.year(), d.month(), d.day()))
}

/// Relies on `chrono::NaiveDateTime::parse_from_str` with the
/// `%-m/%-d/%Y %-I:%M:%S %p` format: the result depends on the text alone,
/// and month and day of a valid date lie in their calendar ranges.
#[verifier::external_body]
fn parse_date_us_datetime(s: &str) -> (r: Option<(i32, u32, u32)>)
    ensures
        match r {
            Some(p) => date_from_us_datetime(s@) == Some((p.0 as int, p.1 as int, p.2 as int))
                && 1 <= p.1 <= 12 && 1 <= p.2 <= 31,
            None => date_from_us_datetime(s@) is None,
        },
{
    chrono::NaiveDateTime::parse_from_str(s, "%-m/%-d/%Y %-I:%M:%S %p")
        .ok()
        .map(|dt| (dt.date().year(), dt.date().month(), dt.date().day()))
}

/// The canonical `YYYY-MM-DD` rendering of a day.
pub open spec fn spec_iso_date(y: int, m: int, d: int) -> Seq<char> {
    spec_udec_pad4(y as nat) + seq!['-'] + spec_udec_pad2(m as nat) + seq!['-'] + spec_udec_pad2(
        d as nat,
    )
}

/// Render a day as `YYYY-MM-DD`, zero-padded.
pub fn format_iso_date(y: u32, m: u32, d: u32) -> (r: String)
    ensures
        r@ == spec_iso_date(y as int, m as int, d as int),
{
    let mut out = String::new();
    push_udec_pad4(&mut out, y);
    proof {
        reveal_strlit("-");
        assert("-"@ =~= seq!['-']);
    }
    out.append("-");
    push_udec_pad2(&mut out, m);
    out.append("-");
    push_udec_pad2(&mut out, d);
    proof {
        assert(out@ =~= spec_iso_date(y as int, m as int, d as int));
    }
    out
}

/// Whether a parsed day can be rendered with a four-digit year.
pub open spec fn spec_date_in_range(p: (int, int, int)) -> bool {
    0 <= p.0 <= 9999 && 0 <= p.1 && 0 <= p.2
}

/// Whether the date text names a renderable day in either accepted form:
/// the six-digit form, or the US-style date-time with a four-digit year.
pub open spec fn spec_date_parses(d: Seq<char>) -> bool {
    date_from_yymmdd(d) is Some || (date_from_us_datetime(d) matches Some(q)
        && spec_date_in_range(q))
}

/// Whether `out` is the canonical rendering of the date text `d`: the
/// six-digit form wins, else the US-style date-time.
pub open spec fn spec_date_renders(d: Seq<char>, out: Seq<char>) -> bool {
    match date_from_yymmdd(d) {
        Some(p) => out == spec_iso_date(p.0, p.1, p.2),
        None => date_from_us_datetime(d) matches Some(q) && spec_date_in_range(q) && out
            == spec_iso_date(q.0, q.1, q.2),
    }
}

/// Canonicalize a manifest date to `YYYY-MM-DD`: six-digit `%y%m%d` first,
/// then the US-style date-time; neither form gives `DateUnparseable`.
pub fn canonical_date(s: &str) -> (r: Result<String, IngestError>)
    ensures
        r is Ok <==> spec_date_parses(s@),
        r matches Ok(out) ==> spec_date_renders(s@, out@),
        r matches Err(e) ==> e == IngestError::DateUnparseable,
{
    if let Some(p) = parse_date_yymmdd(s) {
        return Ok(format_iso_date(p.0 as u32, p.1, p.2));
    }
    if let Some(q) = parse_date_us_datetime(s) {
        if 0 <= q.0 && q.0 <= 9999 {
            return Ok(format_iso_date(q.0 as u32, q.1, q.2));
        }
        return Err(IngestError::DateUnparseable);
    }
    Err(IngestError::DateUnparseable)
}

} // verus!
