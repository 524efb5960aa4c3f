//! The wall clock, read where a frame is stamped with its arrival time.

use vstd::prelude::*;

verus! {

#[verifier::external_type_specification]
#[verifier::external_body]
pub struct ExSystemTime(std::time::SystemTime);

/// Calls `std::time::SystemTime::now()`. Nothing is claimed of the time: it
/// is whatever the clock reads.
#[verifier::external_body]
fn system_time_now() -> (r: std::time::SystemTime) {
    std::time::SystemTime::now()
}

/// Calls `SystemTime::duration_since(UNIX_EPOCH)`, which fails when the time
/// is before the epoch; nothing is claimed of the span.
#[verifier::external_body]
fn since_epoch(t: &std::time::SystemTime) -> (r: Option<core::time::Duration>) {
    t.duration_since(std::time::UNIX_EPOCH).ok()
}

/// Calls `Duration::as_millis`; nothing is claimed of the count.
#[verifier::external_body]
fn whole_millis(d: &core::time::Duration) -> (r: u128) {
    d.as_millis()
}

/// The clock's milliseconds since the Unix epoch, or `None` when the clock
/// reads before the epoch or the count does not fit an `i64`.
pub(crate) fn now_ms() -> (r: Option<i64>) {
    let now = system_time_now();
    match since_epoch(&now) {
        Some(d) => {
            let ms = whole_millis(&d);
            if ms <= 0x7fff_ffff_ffff_ffff {
                Some(ms as i64)
            } else {
                None
            }
        },
        None => None,
    }
}

/// The clock's reading for stamping a frame; a clock that cannot be read
/// stamps 0, a time every freshness test treats as long past.
pub(crate) fn stamp_now() -> (r: i64) {
    match now_ms() {
        Some(now) => now,
        None => 0,
    }
}

/// Whether `chrono` can hold a UTC time this many milliseconds from the
/// epoch: from the first millisecond of -262143-01-01 (`NaiveDate::MIN`) to
/// the last of 262142-12-31 (`NaiveDate::MAX`).
pub open spec fn millis_in_chrono_range(ms: i64) -> bool {
    -8334601228800000 <= ms && ms <= 8210266876799999
}

/// Calls `chrono::DateTime::<chrono::Utc>::from_timestamp_millis` and tells
/// whether it gave a time. The contract claims the range of `NaiveDate`
/// (`MIN_YEAR` and `MAX_YEAR` in chrono's `naive/date`), which
/// `from_timestamp` checks through `from_num_days_from_ce_opt`.
#[verifier::external_body]
pub(crate) fn chrono_millis_representable(ms: i64) -> (r: bool)
    ensures
        r == millis_in_chrono_range(ms),
{
    chrono::DateTime::<chrono::Utc>::from_timestamp_millis(ms).is_some()
}

} // verus!
