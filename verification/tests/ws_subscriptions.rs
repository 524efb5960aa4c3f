use exchange::binance_ws_spot_ticker::subscription_problem;
use exchange::ws_subscriptions::{
    subscribe_batches, StateUpdate, SubscriptionRegistry, SubscriptionState,
    SUBSCRIPTION_IDLE_TTL_MS,
};

fn names(items: &[&str]) -> Vec<String> {
    items.iter().map(|s| s.to_string()).collect()
}

fn sorted(mut v: Vec<String>) -> Vec<String> {
    v.sort();
    v
}

#[test]
fn touching_reports_only_new_symbols_once() {
    let mut registry = SubscriptionRegistry::new();
    assert!(registry.is_empty());
    let added = registry.touch_many(&names(&["btcusdt", "ethusdt", "btcusdt"]), 1_000);
    assert_eq!(added, names(&["btcusdt", "ethusdt"]));
    let added = registry.touch_many(&names(&["ethusdt", "solusdt"]), 2_000);
    assert_eq!(added, names(&["solusdt"]));
    assert_eq!(registry.state("ethusdt").unwrap().last_touched_ms, 2_000);
    assert_eq!(registry.state("btcusdt").unwrap().last_touched_ms, 1_000);
    assert!(registry.contains("solusdt"));
    assert!(!registry.contains("xrpusdt"));
    assert_eq!(sorted(registry.symbols()), names(&["btcusdt", "ethusdt", "solusdt"]));
}

#[test]
fn idle_symbols_are_taken_out_after_the_ttl() {
    let mut registry = SubscriptionRegistry::new();
    registry.touch_many(&names(&["a", "b"]), 1_000);
    registry.touch_many(&names(&["b"]), 5_000);
    assert!(registry.take_idle(1_000 + SUBSCRIPTION_IDLE_TTL_MS).is_empty());
    assert_eq!(registry.take_idle(1_001 + SUBSCRIPTION_IDLE_TTL_MS), names(&["a"]));
    assert!(!registry.contains("a"));
    assert!(registry.contains("b"));
    assert_eq!(registry.take_idle(i64::MAX), names(&["b"]));
    assert!(registry.is_empty());
    assert!(registry.take_idle(i64::MIN).is_empty());
}

#[test]
fn sent_flags_follow_the_connection() {
    let mut registry = SubscriptionRegistry::new();
    registry.touch_many(&names(&["a", "b", "c"]), 10);
    assert_eq!(sorted(registry.unsent(10)), names(&["a", "b", "c"]));
    assert_eq!(registry.unsent(2).len(), 2);
    registry.update(&names(&["a", "z"]), StateUpdate::SentAt(20));
    let a = registry.state("a").unwrap();
    assert!(a.sent_on_current_connection);
    assert_eq!(a.sent_at_ms, Some(20));
    assert!(!registry.contains("z"));
    assert_eq!(sorted(registry.unsent(10)), names(&["b", "c"]));
    registry.update(&names(&["a"]), StateUpdate::Acknowledged(true));
    assert!(registry.state("a").unwrap().acknowledged_on_current_connection);
    registry.update(&names(&["b"]), StateUpdate::Sent);
    assert!(registry.state("b").unwrap().sent_on_current_connection);
    assert_eq!(registry.state("b").unwrap().sent_at_ms, None);
    registry.update(&names(&["b"]), StateUpdate::Unsent);
    assert!(!registry.state("b").unwrap().sent_on_current_connection);
    registry.reset_connection();
    let a = registry.state("a").unwrap();
    assert!(!a.sent_on_current_connection && !a.acknowledged_on_current_connection);
    assert_eq!(a.sent_at_ms, None);
    assert_eq!(a.last_touched_ms, 10);
    assert_eq!(registry.unsent(10).len(), 3);
}

#[test]
fn batches_hold_at_most_fifty_symbols_in_order() {
    let symbols: Vec<String> = (0..120).map(|i| format!("s{i}")).collect();
    let batches = subscribe_batches(&symbols);
    assert_eq!(batches.iter().map(Vec::len).collect::<Vec<_>>(), vec![50, 50, 20]);
    assert_eq!(batches.concat(), symbols);
    assert!(subscribe_batches(&Vec::new()).is_empty());
    assert_eq!(subscribe_batches(&names(&["x"])), vec![names(&["x"])]);
}

#[test]
fn subscription_problem_describes_where_the_subscription_stands() {
    let state = SubscriptionState {
        last_touched_ms: 0,
        sent_on_current_connection: true,
        sent_at_ms: Some(1_000),
        acknowledged_on_current_connection: false,
    };
    assert_eq!(
        subscription_problem(Some("Invalid symbol."), Some(state), 1_500).as_deref(),
        Some("订阅被交易所拒绝：Invalid symbol.")
    );
    assert_eq!(subscription_problem(None, None, 1_500), None);
    assert_eq!(
        subscription_problem(None, Some(state), 3_999).as_deref(),
        Some("订阅请求已发送，等待交易所确认")
    );
    assert_eq!(
        subscription_problem(None, Some(state), 4_000).as_deref(),
        Some("订阅请求已发送，但 3000ms 内未收到交易所确认")
    );
    let unsent = SubscriptionState { sent_at_ms: None, sent_on_current_connection: false, ..state };
    assert_eq!(
        subscription_problem(None, Some(unsent), 4_000).as_deref(),
        Some("正在建立连接并发送精确交易对订阅")
    );
    let acked = SubscriptionState { acknowledged_on_current_connection: true, ..state };
    assert_eq!(
        subscription_problem(None, Some(acked), 9_000).as_deref(),
        Some("订阅已确认，正在等待首个最优买卖价变化")
    );
}
