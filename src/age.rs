//! Age of an index, from the date token at the end of its name.
//!
//! Dates are day numbers in the proleptic Gregorian calendar, January 1 of
//! year 1 being day 1.

use chrono::Datelike;
use std::fmt::Write;
use vstd::prelude::*;

verus! {

/// The day number of the date that `token` denotes under `pattern`, if it
/// parses.
pub uninterp spec fn parsed_day(token: Seq<char>, pattern: Seq<char>) -> Option<int>;

/// The text of the date numbered `day` under `pattern`, if that day exists
/// and the pattern renders.
pub uninterp spec fn rendered_day(day: int, pattern: Seq<char>) -> Option<Seq<char>>;

/// Relies on chrono's NaiveDate::parse_from_str: the date that the token
/// denotes under the format, as a day number.
#[verifier::external_body]
fn parse_day(token: &str, pattern: &str) -> (r: Option<i32>)
    ensures
        r matches Some(d) ==> parsed_day(token@, pattern@) == Some(d as int),
        r is None ==> parsed_day(token@, pattern@) is None,
{
    match chrono::NaiveDate::parse_from_str(token, pattern) {
        Ok(d) => Some(d.num_days_from_ce()),
        Err(_) => None,
    }
}

/// Relies on chrono's NaiveDate::from_num_days_from_ce_opt and
/// NaiveDate::format: the text of a day under the format, or `None` where
/// the day is out of range or the format does not render.
#[verifier::external_body]
fn render_day(day: i32, pattern: &str) -> (r: Option<String>)
    ensures
        r matches Some(s) ==> rendered_day(day as int, pattern@) == Some(s@),
        r is None ==> rendered_day(day as int, pattern@) is None,
{
    let d = match chrono::NaiveDate::from_num_days_from_ce_opt(day) {
        Some(d) => d,
        None => return None,
    };
    let mut s = String::new();
    match write!(s, "{}", d.format(pattern)) {
        Ok(()) => Some(s),
        Err(_) => None,
    }
}

/// The date format used where a rule names none.
pub open spec fn default_date_pattern() -> Seq<char> {
    "%Y.%m.%d"@
}

/// The last `width` characters of `name`, where it has that many.
pub open spec fn suffix_of(name: Seq<char>, width: nat) -> Option<Seq<char>> {
    if width <= name.len() {
        Some(name.subrange(name.len() - width, name.len() as int))
    } else {
        None
    }
}

/// The age in days of the date at the end of `name`: the token is as long as
/// `today` rendered with `pattern`.
pub open spec fn age_of(name: Seq<char>, pattern: Seq<char>, today: int) -> Option<int> {
    match rendered_day(today, pattern) {
        None => None,
        Some(sample) => match suffix_of(name, sample.len()) {
            None => None,
            Some(token) => match parsed_day(token, pattern) {
                None => None,
                Some(d) => Some(today - d),
            },
        },
    }
}

/// A date token that does not conform to its format.
#[derive(Clone, Debug)]
pub struct DateParseError {
    pub token: String,
    pub pattern: String,
}

/// Days from the date in `date_str` to `today`, positive where the date is
/// in the past.
pub fn days_between_today_and_date(date_pattern: &str, date_str: &str, today: i32) -> (r: Result<
    i64,
    DateParseError,
>)
    ensures
        match parsed_day(date_str@, date_pattern@) {
            Some(d) => r matches Ok(x) && x as int == today as int - d,
            None => r matches Err(e) && e.token@ == date_str@ && e.pattern@ == date_pattern@,
        },
{
    match parse_day(date_str, date_pattern) {
        Some(d) => Ok(today as i64 - d as i64),
        None => Err(
            DateParseError {
                token: String::from_str(date_str),
                pattern: String::from_str(date_pattern),
            },
        ),
    }
}

/// The last `width` characters of `name`, or `None` where it is shorter.
pub fn date_suffix(name: &str, width: usize) -> (r: Option<String>)
    ensures
        match suffix_of(name@, width as nat) {
            Some(t) => r matches Some(s) && s@ == t,
            None => r is None,
        },
{
    let n = name.unicode_len();
    if width <= n {
        Some(String::from_str(name.substring_char(n - width, n)))
    } else {
        None
    }
}

/// Age in days of the index `name` under the date format `pattern`, or
/// `None` where no date can be read from the end of the name.
pub fn index_age(name: &str, pattern: &str, today: i32) -> (r: Option<i64>)
    ensures
        match age_of(name@, pattern@, today as int) {
            Some(a) => r matches Some(x) && x as int == a,
            None => r is None,
        },
{
    match render_day(today, pattern) {
        None => None,
        Some(sample) => {
            let width = sample.as_str().unicode_len();
            match date_suffix(name, width) {
                None => None,
                Some(token) => match days_between_today_and_date(pattern, token.as_str(), today) {
                    Ok(a) => Some(a),
                    Err(_) => None,
                },
            }
        }
    }
}

} // verus!
