//! Date canonicalization: both accepted manifest forms become `YYYY-MM-DD`.

use digestiflow::dates::{canonical_date, format_iso_date};
use digestiflow::IngestError;

#[test]
fn six_digit_date_is_canonicalized() {
    assert_eq!(canonical_date("210503").unwrap(), "2021-05-03");
}

#[test]
fn us_datetime_is_canonicalized() {
    assert_eq!(canonical_date("5/3/2021 9:15:00 AM").unwrap(), "2021-05-03");
}

#[test]
fn nineties_year_maps_into_the_last_century() {
    assert_eq!(canonical_date("991231").unwrap(), "1999-12-31");
}

#[test]
fn two_digit_year_pivots_at_seventy() {
    // Below seventy the century is 2000, from seventy on it is 1900.
    assert_eq!(canonical_date("690101").unwrap(), "2069-01-01");
    assert_eq!(canonical_date("700101").unwrap(), "1970-01-01");
}

#[test]
fn unparseable_date_fails() {
    assert_eq!(canonical_date("not a date"), Err(IngestError::DateUnparseable));
    assert_eq!(canonical_date(""), Err(IngestError::DateUnparseable));
    // Six digits that name no calendar day.
    assert_eq!(canonical_date("211345"), Err(IngestError::DateUnparseable));
}

#[test]
fn iso_rendering_zero_pads() {
    assert_eq!(format_iso_date(2021, 5, 3), "2021-05-03");
    assert_eq!(format_iso_date(986, 12, 31), "0986-12-31");
}
