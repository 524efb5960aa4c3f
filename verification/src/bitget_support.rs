//! Bitget adapter bookkeeping: when the server clock is due to be
//! sampled again and the offset a sample gives, and the short-lived memory
//! of the account's position mode.

use vstd::prelude::*;
use crate::bitget_instrument_cache::saturating_diff;
use crate::bitget_order_compiler::BitgetPositionMode;

verus! {

/// How long a server clock sample is trusted: five minutes.
pub const TIME_SYNC_INTERVAL_MS: i64 = 300000;

/// How long the account's position mode is remembered: thirty seconds.
pub const POSITION_MODE_TTL_MS: i64 = 30000;

/// `a.saturating_sub(b)`.
pub fn saturating_sub_i64(a: i64, b: i64) -> (r: i64)
    ensures
        r == saturating_diff(a, b),
{
    let d: i128 = a as i128 - b as i128;
    if d > 9223372036854775807 {
        9223372036854775807
    } else if d < -9223372036854775808 {
        -9223372036854775808
    } else {
        d as i64
    }
}

/// Whether the server clock must be sampled: never sampled (`0`), or the
/// last sample is not younger than the interval.
pub open spec fn time_sync_due_at(last_synced_ms: i64, now_ms: i64) -> bool {
    !(last_synced_ms != 0 && saturating_diff(now_ms, last_synced_ms) < TIME_SYNC_INTERVAL_MS)
}

/// The server clock is sampled again exactly when it was never sampled or
/// its last sample is at least one interval old.
pub proof fn time_sync_is_due_once_the_interval_passes(last_synced_ms: i64, now_ms: i64)
    ensures
        time_sync_due_at(last_synced_ms, now_ms) <==> (last_synced_ms == 0 || now_ms
            - last_synced_ms >= TIME_SYNC_INTERVAL_MS),
{
}

/// Whether the server clock must be sampled again.
pub fn time_sync_due(last_synced_ms: i64, now_ms: i64) -> (r: bool)
    ensures
        r == time_sync_due_at(last_synced_ms, now_ms),
{
    !(last_synced_ms != 0 && saturating_sub_i64(now_ms, last_synced_ms) < TIME_SYNC_INTERVAL_MS)
}

/// The middle of two local readings, as integer division rounds it
/// (toward zero).
pub open spec fn midpoint(before: i64, after: i64) -> int {
    let s = before + after;
    if s >= 0 {
        s / 2
    } else {
        -((-s) / 2)
    }
}

/// The clock offset a sample gives: the server time less the local time at
/// the middle of the round trip, saturating.
pub open spec fn clock_offset(server_ms: i64, before: i64, after: i64) -> int {
    let m = midpoint(before, after);
    if server_ms - m > i64::MAX {
        i64::MAX as int
    } else if server_ms - m < i64::MIN {
        i64::MIN as int
    } else {
        server_ms - m
    }
}

/// The local time a sample is taken at lies between the two local
/// readings, and the offset it gives, where it fits in an `i64`, carries
/// that time to the server's.
pub proof fn clock_offsets_meet_the_server_time(server_ms: i64, before: i64, after: i64)
    ensures
        before <= after ==> before <= midpoint(before, after) <= after,
        i64::MIN <= server_ms - midpoint(before, after) <= i64::MAX ==> clock_offset(
            server_ms,
            before,
            after,
        ) + midpoint(before, after) == server_ms,
{
}

/// The offset to add to the local clock after reading `server_ms` between
/// the local readings `before` and `after`.
pub fn server_time_offset(server_ms: i64, before: i64, after: i64) -> (r: i64)
    requires
        i64::MIN <= before + after <= i64::MAX,
    ensures
        r == clock_offset(server_ms, before, after),
{
    let s: i64 = before + after;
    let m: i64 = s / 2;
    assert(m == midpoint(before, after));
    saturating_sub_i64(server_ms, m)
}

/// The code under which a position mode is remembered; `0` means none.
pub open spec fn mode_code(mode: BitgetPositionMode) -> u8 {
    match mode {
        BitgetPositionMode::OneWay => 1,
        BitgetPositionMode::Hedge => 2,
    }
}

/// The code under which a position mode is remembered.
pub fn position_mode_code(mode: BitgetPositionMode) -> (r: u8)
    ensures
        r == mode_code(mode),
{
    match mode {
        BitgetPositionMode::OneWay => 1,
        BitgetPositionMode::Hedge => 2,
    }
}

/// The remembered mode, when it was checked (`checked_at_ms > 0`) less than
/// the time to live ago and its code names a mode.
pub open spec fn remembered_mode(checked_at_ms: i64, code: u8, now_ms: i64) -> Option<
    BitgetPositionMode,
> {
    if checked_at_ms > 0 && saturating_diff(now_ms, checked_at_ms) < POSITION_MODE_TTL_MS {
        if code == 1 {
            Some(BitgetPositionMode::OneWay)
        } else if code == 2 {
            Some(BitgetPositionMode::Hedge)
        } else {
            None
        }
    } else {
        None
    }
}

/// The remembered mode, if it is still fresh; `None` means ask the venue.
pub fn cached_position_mode(checked_at_ms: i64, code: u8, now_ms: i64) -> (r: Option<
    BitgetPositionMode,
>)
    ensures
        r == remembered_mode(checked_at_ms, code, now_ms),
{
    if checked_at_ms > 0 && saturating_sub_i64(now_ms, checked_at_ms) < POSITION_MODE_TTL_MS {
        if code == 1 {
            Some(BitgetPositionMode::OneWay)
        } else if code == 2 {
            Some(BitgetPositionMode::Hedge)
        } else {
            None
        }
    } else {
        None
    }
}

/// A mode remembered at a positive time is read back as itself until the
/// time to live has passed, and not after.
pub proof fn a_remembered_mode_reads_back_until_it_expires(
    mode: BitgetPositionMode,
    checked_at_ms: i64,
    now_ms: i64,
)
    requires
        checked_at_ms > 0,
    ensures
        remembered_mode(checked_at_ms, mode_code(mode), now_ms) == (if now_ms - checked_at_ms
            < POSITION_MODE_TTL_MS {
            Some(mode)
        } else {
            None::<BitgetPositionMode>
        }),
{
}

} // verus!
