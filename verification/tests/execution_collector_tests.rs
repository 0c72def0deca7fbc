use mantis_infra::execution::{route_risk_assessment, AssessmentRoute};
use mantis_infra::execution::{apply_buy_result, apply_sell_result, order_event_ids};
use mantis_infra::collector::{ws_setup, ws_wait_outcome, WsSetupError, WsWaitOutcome};
use mantis_infra::collector::{
    has_websocket_support, should_flush_batch, ws_connect_outcome, ws_task_step, WatchList, WsTaskStep,
};
use mantis_infra::execution::{
    buy_precheck, find_position_index, has_position_to_sell, is_unique_violation, position_check_outcome,
    sell_source, BuyRefusal, ProcessingSet, SellSource, TxPhase, TxTracker,
};
use mantis_infra::market::MarketProvider;

#[test]
fn phases_terminal_and_labels() {
    assert!(TxPhase::Success.is_terminal());
    assert!(TxPhase::Failed.is_terminal());
    assert!(TxPhase::Dropped.is_terminal());
    assert!(!TxPhase::Queued.is_terminal());
    assert!(!TxPhase::Pending.is_terminal());
    assert!(!TxPhase::Confirmed.is_terminal());
    assert_eq!(TxPhase::Confirmed.label(), "Confirmed");
    assert_eq!(TxPhase::Dropped.label(), "Dropped");
}

#[test]
fn submitted_transactions_are_tracked_once() {
    let mut t: TxTracker<&str> = TxTracker::new();
    assert!(t.track_submitted("tx1".to_string(), "q1"));
    assert!(!t.track_submitted("tx1".to_string(), "q2"));
    assert!(t.is_tracked("tx1"));
    assert_eq!(t.phase_of("tx1"), Some(TxPhase::Queued));
    assert_eq!(t.phase_of("tx2"), None);
    t.remove("tx1");
    assert!(!t.is_tracked("tx1"));
}

#[test]
fn polling_publishes_changes_and_drops_final_transactions() {
    let mut t: TxTracker<u8> = TxTracker::new();
    t.track_submitted("a".to_string(), 0);
    t.track_submitted("b".to_string(), 0);
    assert_eq!(t.ids_to_poll(), vec!["a".to_string(), "b".to_string()]);
    assert!(!t.apply_polled("a".to_string(), TxPhase::Queued, 0, false));
    assert!(t.apply_polled("a".to_string(), TxPhase::Pending, 1, true));
    assert_eq!(t.phase_of("a"), Some(TxPhase::Pending));
    assert!(t.apply_polled("b".to_string(), TxPhase::Success, 2, true));
    assert!(!t.is_tracked("b"));
    assert_eq!(t.ids_to_poll(), vec!["a".to_string()]);
    assert!(t.apply_polled("c".to_string(), TxPhase::Confirmed, 3, false));
    assert_eq!(t.phase_of("c"), Some(TxPhase::Confirmed));
    assert!(t.apply_polled("d".to_string(), TxPhase::Failed, 4, false));
    assert!(!t.is_tracked("d"));
}

#[test]
fn processing_claims_are_exclusive() {
    let mut p = ProcessingSet::new();
    assert!(p.try_begin("sol"));
    assert!(!p.try_begin("sol"));
    assert!(p.try_begin("eth"));
    p.finish("sol");
    assert!(p.try_begin("sol"));
}

#[test]
fn position_check_backoff() {
    assert_eq!(position_check_outcome(7, true), (0, None));
    assert_eq!(position_check_outcome(0, false), (1, None));
    assert_eq!(position_check_outcome(2, false), (3, None));
    assert_eq!(position_check_outcome(3, false), (4, Some(20)));
    assert_eq!(position_check_outcome(9, false), (10, Some(50)));
}

#[test]
fn positions_found_without_regard_to_case() {
    let held = vec!["SOL".to_string(), "bonk".to_string(), "Bonk".to_string()];
    assert_eq!(find_position_index(&held, "sol"), Some(0));
    assert_eq!(find_position_index(&held, "BONK"), Some(1));
    assert_eq!(find_position_index(&held, "wif"), None);
    assert!(has_position_to_sell(false, &held, "Sol"));
    assert!(has_position_to_sell(true, &held, "wif"));
    assert!(!has_position_to_sell(false, &held, "wif"));
}

#[test]
fn buy_checks_in_order() {
    assert_eq!(buy_precheck(false, false, None, false, false), Err(BuyRefusal::NotRunning));
    assert_eq!(buy_precheck(true, false, None, true, true), Err(BuyRefusal::PriceDataUnavailable));
    assert_eq!(buy_precheck(true, false, Some(false), true, true), Err(BuyRefusal::PriceDataUnavailable));
    assert_eq!(buy_precheck(true, true, None, true, true), Err(BuyRefusal::ExistenceCheckFailed));
    assert_eq!(buy_precheck(true, true, Some(false), true, true), Err(BuyRefusal::UnknownToken));
    assert_eq!(buy_precheck(true, true, Some(true), false, false), Err(BuyRefusal::NoEntryPrice));
    assert_eq!(buy_precheck(true, true, Some(true), true, false), Err(BuyRefusal::NoPositionSize));
    assert_eq!(buy_precheck(true, true, Some(true), true, true), Ok(()));
}

#[test]
fn unique_violation_and_sell_source() {
    assert!(is_unique_violation("error: UNIQUE constraint failed: positions.token_id"));
    assert!(!is_unique_violation("unique constraint failed"));
    assert_eq!(sell_source(true, true), SellSource::Database);
    assert_eq!(sell_source(false, true), SellSource::Memory);
    assert_eq!(sell_source(false, false), SellSource::Nothing);
}

#[test]
fn watch_list_updates_trigger_reconnect() {
    let mut w = WatchList::new();
    assert!(!w.update_tracked_tokens(vec!["a".to_string(), "b".to_string()], false));
    assert!(w.update_tracked_tokens(vec!["c".to_string()], true));
    assert!(!w.update_tracked_tokens(vec!["c".to_string(), "c".to_string()], true));
    assert!(w.update_tracked_tokens(vec!["b".to_string(), "a".to_string()], true));
    assert!(!w.update_tracked_tokens(vec!["a".to_string(), "b".to_string()], true));
    let mut t = w.tokens();
    t.sort();
    assert_eq!(t, vec!["a".to_string(), "b".to_string()]);
}

#[test]
fn flush_policy() {
    assert!(!should_flush_batch(0, 1_000));
    assert!(should_flush_batch(1, 100));
    assert!(!should_flush_batch(19, 99));
    assert!(should_flush_batch(20, 0));
}

#[test]
fn stream_task_steps() {
    assert_eq!(ws_task_step(0, true), WsTaskStep::WaitForTokens);
    assert_eq!(ws_task_step(3, false), WsTaskStep::NoStreamSupport);
    assert_eq!(ws_task_step(3, true), WsTaskStep::Connect);
    assert_eq!(ws_connect_outcome(true, 16), (true, None, 1));
    assert_eq!(ws_connect_outcome(false, 16), (false, Some(16), 32));
    assert_eq!(ws_connect_outcome(false, 40), (false, Some(40), 60));
    assert!(!has_websocket_support(&None));
    assert!(has_websocket_support(&Some(MarketProvider::CoinCap { api_key: None })));
    assert!(!has_websocket_support(&Some(MarketProvider::CoinGecko { api_key: None })));
}

#[test]
fn assessments_routed_only_while_running() {
    assert_eq!(route_risk_assessment(false, true, false), AssessmentRoute::Ignored);
    assert_eq!(route_risk_assessment(false, false, true), AssessmentRoute::Ignored);
    assert_eq!(route_risk_assessment(true, true, false), AssessmentRoute::Buy);
    assert_eq!(route_risk_assessment(true, false, true), AssessmentRoute::Sell);
    assert_eq!(route_risk_assessment(true, false, false), AssessmentRoute::NoAction);
}

#[test]
fn buy_and_sell_results_update_positions() {
    let mut held = vec!["a", "b", "c"];
    assert!(!apply_buy_result(&mut held, "d", false));
    assert_eq!(held, vec!["a", "b", "c"]);
    assert!(apply_buy_result(&mut held, "d", true));
    assert_eq!(held, vec!["a", "b", "c", "d"]);
    assert!(!apply_sell_result(&mut held, 1, false));
    assert_eq!(held, vec!["a", "b", "c", "d"]);
    assert!(apply_sell_result(&mut held, 1, true));
    assert_eq!(held, vec!["a", "c", "d"]);
    assert_eq!(order_event_ids("SoL"), ("sol".to_string(), "SoL".to_string()));
}

#[test]
fn stream_setup_and_heartbeat() {
    assert_eq!(ws_setup(&None), Err(WsSetupError::NoProvider));
    assert_eq!(ws_setup(&Some(MarketProvider::CoinGecko { api_key: None })), Ok(false));
    assert_eq!(ws_setup(&Some(MarketProvider::CoinCap { api_key: None })), Ok(true));
    assert_eq!(ws_wait_outcome(true, true), WsWaitOutcome::Reconnect);
    assert_eq!(ws_wait_outcome(false, false), WsWaitOutcome::StreamDown);
    assert_eq!(ws_wait_outcome(false, true), WsWaitOutcome::StillUp);
}

#[test]
fn consecutive_connect_failures_back_off_to_a_minute() {
    let mut backoff = 1;
    let mut waits = Vec::new();
    for _ in 0..8 {
        let (connected, wait, next) = ws_connect_outcome(false, backoff);
        assert!(!connected);
        waits.push(wait.unwrap());
        backoff = next;
    }
    assert_eq!(waits, vec![1, 2, 4, 8, 16, 32, 60, 60]);
    let (connected, wait, next) = ws_connect_outcome(true, backoff);
    assert!(connected);
    assert_eq!(wait, None);
    assert_eq!(ws_connect_outcome(false, next), (false, Some(1), 2));
}

