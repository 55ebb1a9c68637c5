//! The clock, and how dates are written.
//!
//! Dates are rendered in the machine's time zone outside the library, with
//! these patterns; the library takes the rendered text as a plain value.

use vstd::prelude::*;

verus! {

/// How a news item's date is shown: day, month, year, time and weekday.
pub const ITEM_DATETIME_FORMAT: &'static str = "%d.%m.%Y %H:%M (%a)";

/// How a date is written in logs.
pub const LOG_DATETIME_FORMAT: &'static str = "%Y-%m-%d %H:%M:%S %:z";

/// How a person's last visit is shown.
pub const LAST_SEEN_FORMAT: &'static str = "%d.%m.%Y %H:%M";

/// Relies on `SystemTime::now` and `SystemTime::duration_since(UNIX_EPOCH)`:
/// the whole seconds since the epoch, or (as the error) before it. Nothing
/// is stated of the value, which is whatever the clock says.
#[verifier::external_body]
fn clock_seconds() -> (r: Result<u64, u64>) {
    match std::time::SystemTime::now().duration_since(std::time::UNIX_EPOCH) {
        Ok(d) => Ok(d.as_secs()),
        Err(e) => Err(e.duration().as_secs()),
    }
}

/// The current unix time in seconds, negative before the epoch, clamped to
/// the range of `i64`.
pub fn unix_now() -> (r: i64)
    ensures
        r > i64::MIN,
{
    match clock_seconds() {
        Ok(s) => if s > i64::MAX as u64 {
            i64::MAX
        } else {
            s as i64
        },
        Err(s) => if s > i64::MAX as u64 {
            -i64::MAX
        } else {
            -(s as i64)
        },
    }
}

} // verus!
