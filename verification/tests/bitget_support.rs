use exchange::bitget_order_compiler::BitgetPositionMode;
use exchange::bitget_support::{
    cached_position_mode, position_mode_code, saturating_sub_i64, server_time_offset,
    time_sync_due, POSITION_MODE_TTL_MS, TIME_SYNC_INTERVAL_MS,
};

#[test]
fn time_sync_is_due_when_never_synced_or_stale() {
    assert!(time_sync_due(0, 1_700_000_000_000));
    assert!(!time_sync_due(1_700_000_000_000, 1_700_000_000_000 + TIME_SYNC_INTERVAL_MS - 1));
    assert!(time_sync_due(1_700_000_000_000, 1_700_000_000_000 + TIME_SYNC_INTERVAL_MS));
    assert!(!time_sync_due(1_700_000_000_000, 1_600_000_000_000));
}

#[test]
fn offset_is_measured_from_the_round_trip_midpoint() {
    assert_eq!(server_time_offset(1_000_150, 1_000_000, 1_000_100), 100);
    assert_eq!(server_time_offset(1_000_000, 1_000_000, 1_000_001), 0);
    assert_eq!(server_time_offset(-3, -1, -2), -2);
    assert_eq!(server_time_offset(i64::MIN, 1, 2), i64::MIN);
}

#[test]
fn saturating_subtraction_clamps_at_the_ends() {
    assert_eq!(saturating_sub_i64(5, 7), -2);
    assert_eq!(saturating_sub_i64(i64::MAX, -1), i64::MAX);
    assert_eq!(saturating_sub_i64(i64::MIN, 1), i64::MIN);
}

#[test]
fn remembered_position_mode_expires_after_its_ttl() {
    let hedge = position_mode_code(BitgetPositionMode::Hedge);
    let one_way = position_mode_code(BitgetPositionMode::OneWay);
    assert_eq!((one_way, hedge), (1, 2));
    assert_eq!(cached_position_mode(10, hedge, 10 + POSITION_MODE_TTL_MS - 1), Some(BitgetPositionMode::Hedge));
    assert_eq!(cached_position_mode(10, one_way, 11), Some(BitgetPositionMode::OneWay));
    assert_eq!(cached_position_mode(10, hedge, 10 + POSITION_MODE_TTL_MS), None);
    assert_eq!(cached_position_mode(0, hedge, 1), None);
    assert_eq!(cached_position_mode(10, 0, 11), None);
}
