//! Manual official-source evidence: the closed input, the fields a user may
//! approve, and the field and date checks.
use vstd::prelude::*;

use crate::domain::RepoError;
use crate::player_models::{DeckContentsKind, PlayerCard};
use crate::text::{char_count, contains_control, has_ctrl, is_blank, trimmed};

verus! {

/// What the user enters for one official decklist.
#[derive(Debug, PartialEq, Eq)]
pub struct ManualEvidenceInput {
    pub event_title: String,
    pub event_date: String,
    pub format: String,
    pub placement: Option<String>,
    pub record: Option<String>,
    pub source_nickname: String,
    pub attribution_url: String,
    pub contents: DeckContentsKind,
    pub cards: Vec<PlayerCard>,
}

pub open spec fn approved_field_names() -> Seq<Seq<char>> {
    seq![
        "attribution_url"@,
        "contents"@,
        "event_date"@,
        "event_title"@,
        "format"@,
        "placement"@,
        "record"@,
        "source_nickname"@,
    ]
}

/// The payload fields a user may approve for import, in name order.
pub fn approved_fields() -> (r: Vec<&'static str>)
    ensures
        r@.map_values(|f: &'static str| f@) == approved_field_names(),
{
    let mut fields: Vec<&'static str> = Vec::new();
    fields.push("attribution_url");
    fields.push("contents");
    fields.push("event_date");
    fields.push("event_title");
    fields.push("format");
    fields.push("placement");
    fields.push("record");
    fields.push("source_nickname");
    assert(fields@.map_values(|f: &'static str| f@) =~= approved_field_names());
    fields
}

pub open spec fn bounded_ok(value: Seq<char>, max: usize) -> bool {
    trimmed(value).len() > 0 && value.len() <= max && !has_ctrl(value)
}

/// A required text field: not blank, at most `max` characters, no control
/// characters.
pub fn bounded_required(value: &str, max: usize) -> (r: Result<(), RepoError>)
    ensures
        bounded_ok(value@, max) ==> r is Ok,
        !bounded_ok(value@, max) ==> r == Err::<(), RepoError>(RepoError::InvalidRequest),
{
    if is_blank(value) || char_count(value) > max || contains_control(value) {
        Err(RepoError::InvalidRequest)
    } else {
        Ok(())
    }
}

/// An optional text field, checked as a required one when present.
pub fn bounded_optional(value: &Option<String>, max: usize) -> (r: Result<(), RepoError>)
    ensures
        match value {
            Some(v) => if bounded_ok(v@, max) {
                r is Ok
            } else {
                r == Err::<(), RepoError>(RepoError::InvalidRequest)
            },
            None => r is Ok,
        },
{
    match value {
        Some(v) => bounded_required(v.as_str(), max),
        None => Ok(()),
    }
}

pub open spec fn leap_year(year: int) -> bool {
    year % 4 == 0 && (year % 100 != 0 || year % 400 == 0)
}

pub open spec fn days_in_month(year: int, month: int) -> int {
    if month == 1 || month == 3 || month == 5 || month == 7 || month == 8 || month == 10 || month
        == 12 {
        31
    } else if month == 4 || month == 6 || month == 9 || month == 11 {
        30
    } else if month == 2 && leap_year(year) {
        29
    } else if month == 2 {
        28
    } else {
        0
    }
}

pub open spec fn ascii_digit(c: char) -> bool {
    '0' <= c && c <= '9'
}

pub open spec fn digit_at(s: Seq<char>, i: int) -> int {
    (s[i] as u32) as int - 48
}

/// `YYYY-MM-DD` with a real calendar date and a year after zero.
pub open spec fn iso_date_ok(s: Seq<char>) -> bool {
    &&& s.len() == 10
    &&& s[4] == '-' && s[7] == '-'
    &&& ascii_digit(s[0]) && ascii_digit(s[1]) && ascii_digit(s[2]) && ascii_digit(s[3])
    &&& ascii_digit(s[5]) && ascii_digit(s[6]) && ascii_digit(s[8]) && ascii_digit(s[9])
    &&& {
        let year = digit_at(s, 0) * 1000 + digit_at(s, 1) * 100 + digit_at(s, 2) * 10 + digit_at(s, 3);
        let month = digit_at(s, 5) * 10 + digit_at(s, 6);
        let day = digit_at(s, 8) * 10 + digit_at(s, 9);
        year != 0 && day != 0 && day <= days_in_month(year, month)
    }
}

/// Checks a calendar date written as `YYYY-MM-DD`. Only ASCII input can
/// have the ten bytes this asks for, so the check is made on characters.
pub fn validate_iso_date(value: &str) -> (r: Result<(), RepoError>)
    ensures
        iso_date_ok(value@) ==> r is Ok,
        !iso_date_ok(value@) ==> r == Err::<(), RepoError>(RepoError::InvalidRequest),
{
    let v = crate::text::chars_of(value);
    if v.len() != 10 || v[4] != '-' || v[7] != '-' {
        return Err(RepoError::InvalidRequest);
    }
    let positions: [usize; 8] = [0, 1, 2, 3, 5, 6, 8, 9];
    let mut k: usize = 0;
    while k < 8
        invariant
            v@ == value@,
            v@.len() == 10,
            k <= 8,
            positions@ == seq![0usize, 1, 2, 3, 5, 6, 8, 9],
            forall|j: int| 0 <= j < k ==> ascii_digit(#[trigger] value@[positions@[j] as int]),
        decreases 8 - k,
    {
        let c = v[positions[k]];
        if !('0' <= c && c <= '9') {
            return Err(RepoError::InvalidRequest);
        }
        k = k + 1;
    }
    proof {
        assert(ascii_digit(value@[positions@[0] as int]));
        assert(ascii_digit(value@[positions@[1] as int]));
        assert(ascii_digit(value@[positions@[2] as int]));
        assert(ascii_digit(value@[positions@[3] as int]));
        assert(ascii_digit(value@[positions@[4] as int]));
        assert(ascii_digit(value@[positions@[5] as int]));
        assert(ascii_digit(value@[positions@[6] as int]));
        assert(ascii_digit(value@[positions@[7] as int]));
    }
    let year: u32 = ((v[0] as u32) - 48) * 1000 + ((v[1] as u32) - 48) * 100 + ((v[2] as u32) - 48)
        * 10 + ((v[3] as u32) - 48);
    let month: u32 = ((v[5] as u32) - 48) * 10 + ((v[6] as u32) - 48);
    let day: u32 = ((v[8] as u32) - 48) * 10 + ((v[9] as u32) - 48);
    let max_day: u32 = if month == 1 || month == 3 || month == 5 || month == 7 || month == 8
        || month == 10 || month == 12 {
        31
    } else if month == 4 || month == 6 || month == 9 || month == 11 {
        30
    } else if month == 2 && year % 4 == 0 && (year % 100 != 0 || year % 400 == 0) {
        29
    } else if month == 2 {
        28
    } else {
        0
    };
    if year == 0 || day == 0 || day > max_day {
        Err(RepoError::InvalidRequest)
    } else {
        Ok(())
    }
}

} // verus!
