use mantis_infra::bus::{
    actor_type_for_topic, connection_id, database_subscription_topics, supervisor_restart_targets, DeliveryAction, MessageBus, SubscriberInfo,
    TokenEventInfo,
};

fn bus_with(topic: &str, n: usize) -> (MessageBus<u32>, Vec<u64>) {
    let mut bus: MessageBus<u32> = MessageBus::new();
    let mut ids = Vec::new();
    for k in 0..n {
        ids.push(bus.subscribe(topic.to_string(), k as u32).unwrap());
    }
    (bus, ids)
}

#[test]
fn subscribe_counts_per_topic() {
    let (mut bus, _) = bus_with("market", 2);
    assert_eq!(bus.get_subscriber_count("market"), 2);
    assert_eq!(bus.get_subscriber_count("risk"), 0);
    bus.subscribe("risk".to_string(), 9);
    assert_eq!(bus.get_subscriber_count("risk"), 1);
    assert_eq!(bus.get_subscriber_count("market"), 2);
    let subs = bus.subscribers("risk").unwrap();
    assert_eq!(subs[0].sender, 9);
    assert_eq!(subs[0].actor_type, "risk");
    assert_eq!(subs[0].consecutive_failures, 0);
    assert!(!subs[0].is_reconnecting);
}

#[test]
fn unsubscribe_undoes_subscribe() {
    let (mut bus, ids) = bus_with("market", 2);
    let extra = bus.subscribe("market".to_string(), 7).unwrap();
    assert_eq!(bus.get_subscriber_count("market"), 3);
    assert!(!ids.contains(&extra));
    assert!(bus.unsubscribe("market", extra));
    assert_eq!(bus.get_subscriber_count("market"), 2);
    let senders: Vec<u32> = bus.subscribers("market").unwrap().iter().map(|s| s.sender).collect();
    assert_eq!(senders, vec![0, 1]);
}

#[test]
fn unsubscribe_unknown_id_removes_nothing() {
    let (mut bus, ids) = bus_with("market", 1);
    let other = ids[0].wrapping_add(1);
    assert!(!bus.unsubscribe("market", other));
    assert!(!bus.unsubscribe("nothing", ids[0]));
    assert_eq!(bus.get_subscriber_count("market"), 1);
}

#[test]
fn repeated_event_within_window_is_suppressed() {
    let mut bus: MessageBus<u32> = MessageBus::new();
    assert!(bus.admit_event_at(Some("sol"), false, "PriceUpdate(sol, 1.0)", 1_000));
    assert!(!bus.admit_event_at(Some("sol"), false, "PriceUpdate(sol, 1.0)", 1_050));
    assert!(bus.admit_event_at(Some("sol"), false, "PriceUpdate(sol, 2.0)", 1_060));
    assert!(bus.admit_event_at(Some("sol"), false, "PriceUpdate(sol, 1.0)", 1_070));
    assert!(bus.admit_event_at(Some("sol"), false, "PriceUpdate(sol, 1.0)", 1_200));
}

#[test]
fn events_without_token_always_pass() {
    let mut bus: MessageBus<u32> = MessageBus::new();
    assert!(bus.admit_event_at(None, false, "StatusCheck", 5));
    assert!(bus.admit_event_at(None, false, "StatusCheck", 5));
}

#[test]
fn should_deduplicate_follows_window() {
    let mut bus: MessageBus<u32> = MessageBus::new();
    assert!(!bus.should_deduplicate("eth", "x", 10));
    bus.update_token_event("eth", "x", 10);
    assert!(bus.should_deduplicate("eth", "x", 109));
    assert!(!bus.should_deduplicate("eth", "x", 110));
    assert!(!bus.should_deduplicate("eth", "y", 20));
}

#[test]
fn buy_orders_locked_for_two_minutes() {
    let mut bus: MessageBus<u32> = MessageBus::new();
    assert!(!bus.should_deduplicate_buy_order("bonk", 0));
    assert!(bus.should_deduplicate_buy_order("bonk", 119_999));
    assert!(!bus.should_deduplicate_buy_order("bonk", 120_000));
    assert!(!bus.should_deduplicate_buy_order("wif", 120_001));
}

#[test]
fn buy_execution_suppressed_by_lock() {
    let mut bus: MessageBus<u32> = MessageBus::new();
    assert!(bus.admit_event_at(Some("bonk"), true, "OrderExecuted(bonk, a)", 1_000));
    assert!(!bus.admit_event_at(Some("bonk"), true, "OrderExecuted(bonk, b)", 2_000));
}

#[test]
fn recovery_backoff_grows() {
    let mut bus: MessageBus<u32> = MessageBus::new();
    assert!(bus.recovery_gate("market", 0));
    assert!(!bus.recovery_gate("market", 2_000));
    assert!(bus.recovery_gate("market", 2_001));
    assert!(!bus.recovery_gate("market", 6_001));
    assert!(bus.recovery_gate("market", 6_002));
    bus.reset_recovery_attempts("market");
    assert!(bus.recovery_gate("market", 6_003));
}

#[test]
fn delivery_outcomes() {
    let (mut bus, _) = bus_with("risk", 2);
    let a = bus.record_delivery("risk", &vec![true, true], false, 10);
    assert!(matches!(a, DeliveryAction::AllDelivered));
    let b = bus.record_delivery("risk", &vec![true, false], false, 20);
    assert!(matches!(b, DeliveryAction::SomeFailed));
    let subs = bus.subscribers("risk").unwrap();
    assert_eq!(subs[0].consecutive_failures, 0);
    assert_eq!(subs[1].consecutive_failures, 1);
    assert_eq!(subs[1].last_failed, Some(20));
    let c = bus.record_delivery("risk", &vec![false, false], true, 30);
    assert!(matches!(c, DeliveryAction::Recover));
    let (mut empty, _) = bus_with("none", 0);
    empty.subscribe("x".to_string(), 1);
    let d = empty.record_delivery("x", &vec![false], false, 40);
    assert!(matches!(d, DeliveryAction::SomeFailed));
}

#[test]
fn delivery_reconnect_at_threshold() {
    let (mut bus, _) = bus_with("market", 1);
    let mut last = DeliveryAction::NothingSent;
    for t in 0..25u64 {
        last = bus.record_delivery("market", &vec![false], false, t);
    }
    match last {
        DeliveryAction::Reconnect { index } => assert_eq!(index, 0),
        _ => panic!("expected a reconnection"),
    }
    assert!(bus.subscribers("market").unwrap()[0].is_reconnecting);
    assert!(bus.has_persistent_failures("market"));
    assert!(!bus.needs_emergency_maintenance("market"));
}

#[test]
fn maintenance_drops_failing_subscribers() {
    let (mut bus, _) = bus_with("execution", 3);
    for t in 0..5u64 {
        bus.record_delivery("execution", &vec![true, false, true], false, t);
    }
    let plan = bus.maintenance_probe_plan(100);
    assert_eq!(plan, vec![vec![true, false, true]]);
    let report = bus.perform_maintenance(100, &vec![vec![true, true, false]], || 99);
    assert_eq!(report.removed, 2);
    assert!(report.recovery_topics.is_empty());
    assert_eq!(bus.get_subscriber_count("execution"), 1);
    assert_eq!(bus.subscribers("execution").unwrap()[0].sender, 0);
}

#[test]
fn maintenance_reports_emptied_topics_and_recovery_channel() {
    let (mut bus, _) = bus_with("database", 1);
    bus.subscribe("risk".to_string(), 5);
    let report = bus.perform_maintenance(0, &vec![vec![false], vec![true]], || 42);
    assert_eq!(report.removed, 1);
    assert_eq!(report.recovery_topics, vec!["database".to_string()]);
    let subs = bus.subscribers("database").unwrap();
    assert_eq!(subs.len(), 1);
    assert_eq!(subs[0].sender, 42);
    assert_eq!(subs[0].actor_type, "DatabaseActor");
    assert_eq!(subs[0].consecutive_failures, 0);
    assert_eq!(subs[0].last_failed, None);
    assert!(!subs[0].is_reconnecting);
    assert_eq!(bus.subscribers("risk").unwrap()[0].sender, 5);
    assert!(!bus.add_recovery_subscriber("database", 43));
    assert!(!bus.add_recovery_subscriber("unknown", 43));
    bus.clear_topic("risk");
    assert!(bus.add_recovery_subscriber("risk", 44));
    assert_eq!(bus.subscribers("risk").unwrap()[0].actor_type, "RiskManagerActor");
}

#[test]
fn clear_topic_returns_count() {
    let (mut bus, _) = bus_with("strategy", 3);
    assert_eq!(bus.clear_topic("strategy"), 3);
    assert_eq!(bus.get_subscriber_count("strategy"), 0);
    assert_eq!(bus.clear_topic("strategy"), 0);
}

#[test]
fn actor_types_and_restart_targets() {
    assert_eq!(actor_type_for_topic("market"), "MarketDataActor");
    assert_eq!(actor_type_for_topic("risk"), "RiskManagerActor");
    assert_eq!(actor_type_for_topic("execution"), "ExecutionActor");
    assert_eq!(actor_type_for_topic("database"), "DatabaseActor");
    assert_eq!(actor_type_for_topic("strategy"), "StrategyActor");
    assert_eq!(actor_type_for_topic("other"), "UnknownActor");
    assert_eq!(supervisor_restart_targets("risk"), vec!["risk".to_string()]);
    assert!(supervisor_restart_targets("DexTransaction").is_empty());
}

#[test]
fn token_event_info_and_subscriber_info() {
    let mut bus: MessageBus<u8> = MessageBus::new();
    let info = TokenEventInfo::new("Market".to_string(), &mut bus);
    assert_eq!(info.last_event_type, "Market");
    let later = TokenEventInfo::new("Risk".to_string(), &mut bus);
    assert!(later.last_event_time >= info.last_event_time);
    let seen = TokenEventInfo::seen_at("Risk".to_string(), 7);
    assert_eq!(seen.last_event_time, 7);
    let sub = SubscriberInfo::new(3u8, "market".to_string()).unwrap();
    assert_eq!(sub.sender, 3);
    assert_eq!(sub.consecutive_failures, 0);
    assert_eq!(sub.last_failed, None);
}

#[test]
fn subscriber_counts_per_topic_in_order() {
    let mut bus: MessageBus<u32> = MessageBus::new();
    bus.subscribe("risk".to_string(), 1);
    bus.subscribe("market".to_string(), 2);
    bus.subscribe("risk".to_string(), 3);
    assert_eq!(
        bus.debug_subscriber_count(),
        vec![("risk".to_string(), 2), ("market".to_string(), 1)]
    );
    assert!(MessageBus::<u32>::new().debug_subscriber_count().is_empty());
}

#[test]
fn database_topics_and_connection_names() {
    assert_eq!(
        database_subscription_topics(),
        vec!["market".to_string(), "strategy".to_string(), "risk".to_string(), "execution".to_string()]
    );
    assert_eq!(connection_id("risk", "database"), "risk\u{2192}database");
}

#[test]
fn admit_event_reads_the_clock() {
    let mut bus: MessageBus<u32> = MessageBus::new();
    assert!(bus.admit_event(None, false, "StatusCheck"));
    assert!(bus.admit_event(Some("bonk"), true, "OrderExecuted(bonk, 1)"));
    assert!(!bus.admit_event(Some("bonk"), true, "OrderExecuted(bonk, 2)"));
    assert!(!bus.admit_event(Some("bonk"), false, "OrderExecuted(bonk, 1)"));
}

#[test]
fn bus_clock_never_runs_backwards() {
    let mut bus: MessageBus<u32> = MessageBus::new();
    let first = bus.clock_ms();
    let second = bus.clock_ms();
    assert!(second >= first);
    assert!(first < 60_000);
}

#[test]
fn subscribe_gives_unused_ids() {
    let (bus, ids) = bus_with("market", 20);
    for (k, id) in ids.iter().enumerate() {
        assert!(!ids[..k].contains(id));
    }
    let senders: Vec<u32> = bus.subscribers("market").unwrap().iter().map(|s| s.sender).collect();
    assert_eq!(senders, (0..20).collect::<Vec<u32>>());
}

#[test]
fn subscriber_with_given_id() {
    let sub = SubscriberInfo::with_id(5u8, "risk".to_string(), 77);
    assert_eq!(sub.subscriber_id, 77);
    assert_eq!(sub.actor_type, "risk");
    assert_eq!(sub.consecutive_failures, 0);
    assert!(!sub.is_reconnecting);
}

#[test]
fn subscribe_with_a_given_id() {
    let mut bus: MessageBus<u32> = MessageBus::new();
    assert_eq!(bus.id_above_all("risk"), Some(1));
    assert_eq!(bus.subscribe_with_id("risk".to_string(), 1, 40), Ok(()));
    assert_eq!(bus.subscribe_with_id("risk".to_string(), 2, 40), Err(2));
    assert_eq!(bus.get_subscriber_count("risk"), 1);
    assert_eq!(bus.subscribe_with_id("market".to_string(), 3, 40), Ok(()));
    assert_eq!(bus.subscribe_with_id("risk".to_string(), 4, 7), Ok(()));
    assert_eq!(bus.id_above_all("risk"), Some(41));
    let subs = bus.subscribers("risk").unwrap();
    assert_eq!(subs[1].sender, 4);
    assert_eq!(subs[1].subscriber_id, 7);
    assert!(bus.unsubscribe("risk", 40));
    assert_eq!(bus.get_subscriber_count("risk"), 1);
    assert_eq!(bus.subscribe_with_id("max".to_string(), 5, u64::MAX), Ok(()));
    assert_eq!(bus.id_above_all("max"), None);
}

