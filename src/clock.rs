use vstd::prelude::*;

verus! {

/// Number of seconds in a day; expiry windows are counted in whole days.
pub const SECONDS_PER_DAY: i64 = 86400;

/// The Unix timestamp (seconds, UTC midnight) of a calendar date written as
/// `YYYY-MM-DD`, or `None` when the text is not such a date.
pub uninterp spec fn date_timestamp_of(text: Seq<char>) -> Option<i64>;

/// Relies on `chrono::Local::now` and `DateTime::timestamp`: the current time
/// as seconds since the Unix epoch. Nothing is known of the value.
#[verifier::external_body]
pub(crate) fn now_timestamp() -> (r: i64) {
    chrono::Local::now().timestamp()
}

/// Relies on `chrono::NaiveDate::parse_from_str` with the format `%Y-%m-%d`,
/// whose result depends on the text alone; a parsed date is turned into the
/// timestamp of its midnight in UTC.
#[verifier::external_body]
pub(crate) fn parse_date(text: &str) -> (r: Option<i64>)
    ensures
        r == date_timestamp_of(text@),
{
    match chrono::NaiveDate::parse_from_str(text, "%Y-%m-%d") {
        Ok(d) => Some(d.and_time(chrono::NaiveTime::MIN).and_utc().timestamp()),
        Err(_) => None,
    }
}

/// Reads a calendar date written as `YYYY-MM-DD` as the Unix timestamp of
/// its midnight in UTC; `None` when the text is not such a date.
pub fn parse_expiry(text: &str) -> (r: Option<i64>)
    ensures
        r == date_timestamp_of(text@),
{
    parse_date(text)
}

} // verus!
