//! Calendar text for a timestamp.

use vstd::prelude::*;

verus! {

/// The UTC date and time of the moment `secs` seconds after the start of
/// 1970, written as year-month-day, a space, and hour:minute:second.
pub uninterp spec fn utc_date_text(secs: u32) -> Seq<char>;

/// Calls chrono's `DateTime::format` with the pattern `%Y-%m-%d %H:%M:%S`
/// on the UTC moment that `NaiveDateTime::from_timestamp` and
/// `DateTime::from_utc` make of `secs`. Nothing is proved of the text: it
/// depends on `secs` alone, and the contract only gives it its name. Every
/// 32-bit count of seconds is a moment that chrono can hold, so the call
/// returns for each.
#[allow(deprecated)]
#[verifier::external_body]
pub(crate) fn format_utc(secs: u32) -> (text: String)
    ensures
        text@ == utc_date_text(secs),
{
    let naive = chrono::NaiveDateTime::from_timestamp(i64::from(secs), 0);
    let moment: chrono::DateTime<chrono::Utc> = chrono::DateTime::from_utc(naive, chrono::Utc);
    moment.format("%Y-%m-%d %H:%M:%S").to_string()
}

} // verus!
