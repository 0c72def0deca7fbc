use mantis_infra::risk::{exit_rule, settle_risk_limits, signal_after_checks, signal_after_lookup, ExitRule, SignalStep, SignalVerdict};
use mantis_infra::strategy::{strategy_step, StrategyAction, StrategyMessage};
use mantis_infra::events::{risk_manager_subscriptions, EventType, Query};
use mantis_infra::market::{
    bearer_header, classify_coingecko_status, coincap_ws_preflight, coincap_ws_url, coingecko_market_limit,
    collection_step, create_market_api, next_ws_attempt, should_process_token, supplemental_poll_secs,
    ws_inactivity_threshold_secs, ws_retry_backoff_secs, ApiKeys, CoinGeckoReply, CollectionStep,
    MarketProvider, MarketProviderEvent, WsAttempt, WsPreflightError,
};
use mantis_infra::risk::{
    check_overall_risk_limits, check_risk_limits, classify_severity, halt_after_risk_publish, get_halted_tokens, halt_on_anomaly,
    halt_token_trading, is_trading_allowed, resume_token_trading, screen_signal, unknown_token_reason,
    HaltedTokens, Severity, SignalGate,
};

#[test]
fn halt_blocks_trading_until_resumed() {
    let mut h = HaltedTokens::new();
    assert!(is_trading_allowed(&h, "sol", false, false, false));
    halt_token_trading(&mut h, "sol", "manual");
    assert!(h.is_halted("sol"));
    assert!(!is_trading_allowed(&h, "sol", false, false, false));
    assert!(is_trading_allowed(&h, "eth", false, false, false));
    resume_token_trading(&mut h, "sol");
    assert!(!h.is_halted("sol"));
    assert!(is_trading_allowed(&h, "sol", false, false, false));
    resume_token_trading(&mut h, "sol");
    assert!(get_halted_tokens(&h).is_empty());
}

#[test]
fn limits_block_trading() {
    let h = HaltedTokens::new();
    assert!(!is_trading_allowed(&h, "sol", true, false, false));
    assert!(!is_trading_allowed(&h, "sol", false, true, false));
    assert!(!is_trading_allowed(&h, "sol", false, false, true));
}

#[test]
fn halted_list_has_each_token_once() {
    let mut h = HaltedTokens::new();
    halt_token_trading(&mut h, "a", "x");
    halt_token_trading(&mut h, "b", "y");
    halt_token_trading(&mut h, "a", "z");
    let mut v = get_halted_tokens(&h);
    v.sort();
    assert_eq!(v, vec!["a".to_string(), "b".to_string()]);
}

#[test]
fn risk_limit_names_and_halt() {
    let mut h = HaltedTokens::new();
    let v = check_risk_limits("pepe", true, true);
    assert_eq!(v, vec!["token_risk_pepe".to_string(), "volatility_risk_pepe".to_string()]);
    assert!(!h.is_halted("pepe"));
    assert!(!halt_after_risk_publish(&mut h, "pepe", false));
    assert!(!h.is_halted("pepe"));
    assert!(halt_after_risk_publish(&mut h, "pepe", true));
    assert!(h.is_halted("pepe"));
    let w = check_risk_limits("doge", false, true);
    assert_eq!(w, vec!["volatility_risk_doge".to_string()]);
    assert!(check_risk_limits("x", false, false).is_empty());
    assert_eq!(
        check_overall_risk_limits(true, true),
        vec!["overall_daily_loss".to_string(), "overall_drawdown".to_string()]
    );
    assert_eq!(check_overall_risk_limits(false, true), vec!["overall_drawdown".to_string()]);
    assert!(check_overall_risk_limits(false, false).is_empty());
}

#[test]
fn severity_ignores_case() {
    assert_eq!(classify_severity("HIGH"), Severity::High);
    assert_eq!(classify_severity("Medium"), Severity::Medium);
    assert_eq!(classify_severity("low"), Severity::Low);
    assert_eq!(classify_severity("critical"), Severity::Low);
}

#[test]
fn high_anomaly_halts_once() {
    let mut h = HaltedTokens::new();
    let first = halt_on_anomaly(&mut h, "BONK", "spike", "price x10", "High").unwrap();
    assert_eq!(first.token_id, "bonk");
    assert_eq!(first.reason, "High severity market anomaly: spike - price x10");
    assert!(h.is_halted("bonk"));
    assert!(halt_on_anomaly(&mut h, "bonk", "spike", "again", "high").is_none());
    assert!(halt_on_anomaly(&mut h, "wif", "dip", "small", "medium").is_none());
    assert!(!h.is_halted("wif"));
}

#[test]
fn signal_screening() {
    let mut h = HaltedTokens::new();
    halt_token_trading(&mut h, "bonk", "x");
    assert_eq!(screen_signal(false, &h, "sol"), SignalGate::NotRunning);
    assert_eq!(screen_signal(true, &h, "BONK"), SignalGate::Halted);
    assert_eq!(screen_signal(true, &h, "sol"), SignalGate::CheckToken);
    assert_eq!(
        unknown_token_reason("SOL"),
        "Token 'SOL' (normalized to 'sol') not found in database."
    );
}

#[test]
fn provider_selection() {
    let both = ApiKeys { coincap: Some("cc".to_string()), coingecko: Some("cg".to_string()) };
    match create_market_api(&both) {
        MarketProvider::CoinCap { api_key } => assert_eq!(api_key, Some("cc".to_string())),
        _ => panic!("CoinCap expected"),
    }
    let gecko = ApiKeys { coincap: None, coingecko: Some("cg".to_string()) };
    let p = create_market_api(&gecko);
    assert_eq!(p.name(), "CoinGecko");
    assert!(!p.supports_websocket());
    match p {
        MarketProvider::CoinGecko { api_key } => assert_eq!(api_key, Some("cg".to_string())),
        _ => panic!("CoinGecko expected"),
    }
    let none = ApiKeys { coincap: None, coingecko: None };
    match create_market_api(&none) {
        MarketProvider::CoinGecko { api_key } => assert_eq!(api_key, None),
        _ => panic!("public CoinGecko expected"),
    }
    let cc = create_market_api(&both);
    assert_eq!(cc.name(), "CoinCap");
    assert!(cc.supports_websocket());
}

#[test]
fn market_limits_and_intervals() {
    assert_eq!(coingecko_market_limit(true), 250);
    assert_eq!(coingecko_market_limit(false), 100);
    assert_eq!(supplemental_poll_secs(60), 300);
    assert_eq!(supplemental_poll_secs(900), 900);
    assert_eq!(ws_inactivity_threshold_secs(60), 600);
    assert_eq!(ws_inactivity_threshold_secs(400), 800);
}

#[test]
fn token_filter_lowercases() {
    let watched = vec!["bitcoin".to_string(), "solana".to_string()];
    assert!(should_process_token(false, &watched, "Bitcoin"));
    assert!(!should_process_token(false, &watched, "dogecoin"));
    assert!(should_process_token(true, &watched, "dogecoin"));
    assert!(should_process_token(false, &vec![], "dogecoin"));
}

#[test]
fn websocket_attempts_then_polling() {
    assert_eq!(next_ws_attempt(0), WsAttempt::Connect { attempt: 1 });
    assert_eq!(next_ws_attempt(4), WsAttempt::Connect { attempt: 5 });
    assert_eq!(next_ws_attempt(5), WsAttempt::FallBackToPolling);
    let waits: Vec<u64> = (1..=5).map(ws_retry_backoff_secs).collect();
    assert_eq!(waits, vec![1, 2, 4, 8, 16]);
}

#[test]
fn collection_task_backoff() {
    assert_eq!(collection_step(false, false, 8), (CollectionStep::Finish, 8));
    assert_eq!(collection_step(true, true, 8), (CollectionStep::RestartAfterPause, 1));
    assert_eq!(collection_step(true, false, 8), (CollectionStep::RetryAfter { secs: 8 }, 16));
    assert_eq!(collection_step(true, false, 32), (CollectionStep::RetryAfter { secs: 32 }, 60));
    assert_eq!(collection_step(true, false, 60), (CollectionStep::RetryAfter { secs: 60 }, 60));
}

#[test]
fn coincap_stream_checks_and_url() {
    let tokens = vec!["bitcoin".to_string(), "ethereum".to_string()];
    assert_eq!(coincap_ws_preflight(&vec![], &Some("k".to_string())), Err(WsPreflightError::NoTokens));
    assert_eq!(coincap_ws_preflight(&tokens, &None), Err(WsPreflightError::NoApiKey));
    assert_eq!(coincap_ws_preflight(&tokens, &Some("k".to_string())), Ok(()));
    assert_eq!(coincap_ws_url(&tokens), "wss://ws.coincap.io/prices?assets=bitcoin,ethereum");
    assert_eq!(coincap_ws_url(&vec![]), "wss://ws.coincap.io/prices?assets=");
    assert_eq!(bearer_header("abc"), "Bearer abc");
}

#[test]
fn coingecko_status_classes() {
    assert_eq!(classify_coingecko_status(200), CoinGeckoReply::Data);
    assert_eq!(classify_coingecko_status(429), CoinGeckoReply::RateLimited);
    assert_eq!(classify_coingecko_status(500), CoinGeckoReply::ApiError);
}

#[test]
fn event_type_names() {
    assert_eq!(EventType::Risk.topic_name(), "Risk");
    assert_eq!(EventType::DexTransaction.topic_name(), "DexTransaction");
    assert_eq!(EventType::Market.topic_name(), format!("{:?}", EventType::Market));
    let subs = risk_manager_subscriptions();
    assert_eq!(subs.len(), 5);
    assert!(!subs.contains(&EventType::Risk));
    assert_ne!(Query::GetStatus, Query::GetMetrics);
    let ev: MarketProviderEvent<u8> = MarketProviderEvent::Data(3);
    assert!(matches!(ev.clone(), MarketProviderEvent::Data(3)));
}

#[test]
fn unknown_token_gets_one_invalid_signal() {
    assert_eq!(signal_after_lookup("SOL", None), SignalVerdict::Discard);
    assert_eq!(
        signal_after_lookup("SOL", Some(false)),
        SignalVerdict::Invalid {
            token_id: "SOL".to_string(),
            reason: "Token 'SOL' (normalized to 'sol') not found in database.".to_string()
        }
    );
    assert_eq!(signal_after_lookup("SOL", Some(true)), SignalVerdict::Proceed { token_id: "sol".to_string() });
}

#[test]
fn backoff_doubles_to_a_minute() {
    let mut b = 1u64;
    let mut waits = Vec::new();
    for _ in 0..8 {
        let (step, next) = collection_step(true, false, b);
        match step {
            CollectionStep::RetryAfter { secs } => waits.push(secs),
            _ => panic!("retry expected"),
        }
        b = next;
    }
    assert_eq!(waits, vec![1, 2, 4, 8, 16, 32, 60, 60]);
}

#[test]
fn exit_rules_take_precedence_in_order() {
    assert_eq!(exit_rule(true, true, true, true, true, true), Some(ExitRule::StopLoss));
    assert_eq!(exit_rule(false, true, true, true, true, true), Some(ExitRule::TakeProfit));
    assert_eq!(exit_rule(false, false, true, true, true, true), Some(ExitRule::TrailingStop));
    assert_eq!(exit_rule(false, false, false, true, false, false), None);
    assert_eq!(exit_rule(false, false, false, true, true, true), Some(ExitRule::HoldTimeExceeded));
    assert_eq!(exit_rule(false, false, true, false, false, true), None);
}

#[test]
fn strategy_analyses_prices_only_while_running() {
    let update = StrategyMessage::PriceUpdate { token_id: "bonk".to_string() };
    assert_eq!(strategy_step(false, &update), StrategyAction::Nothing);
    assert_eq!(strategy_step(true, &update), StrategyAction::AnalyzeEntry { token_id: "bonk".to_string() });
    assert_eq!(strategy_step(false, &StrategyMessage::Start), StrategyAction::Nothing);
    assert_eq!(strategy_step(true, &StrategyMessage::Stop), StrategyAction::Nothing);
    assert_eq!(strategy_step(true, &StrategyMessage::OtherMarketEvent), StrategyAction::Nothing);
    assert_eq!(strategy_step(false, &StrategyMessage::UpdateConfig), StrategyAction::ApplyConfig);
}

#[test]
fn strategy_answers_queries_in_any_state() {
    assert_eq!(
        strategy_step(false, &StrategyMessage::GetStatus),
        StrategyAction::ReplyStatus { status: "StrategyActor running: false".to_string() }
    );
    assert_eq!(
        strategy_step(true, &StrategyMessage::GetStatus),
        StrategyAction::ReplyStatus { status: "StrategyActor running: true".to_string() }
    );
    assert_eq!(strategy_step(true, &StrategyMessage::GetMetrics), StrategyAction::ReplyMetrics { running: true });
    assert_eq!(strategy_step(false, &StrategyMessage::OtherQuery), StrategyAction::ReplyUnsupported);
}

#[test]
fn signal_checks_positions_then_limits() {
    let held = vec!["BONK".to_string(), "wif".to_string()];
    assert_eq!(signal_after_checks(false, true, &held, "sol", false, false), SignalStep::Ignore);
    assert_eq!(signal_after_checks(false, true, &held, "bonk", false, false), SignalStep::Assess);
    assert_eq!(signal_after_checks(true, false, &held, "wif", false, false), SignalStep::Ignore);
    assert_eq!(signal_after_checks(true, false, &held, "sol", false, false), SignalStep::Assess);
    assert_eq!(
        signal_after_checks(true, false, &held, "sol", true, true),
        SignalStep::LimitExceeded { limit_type: "daily_loss".to_string() }
    );
    assert_eq!(
        signal_after_checks(false, true, &held, "bonk", false, true),
        SignalStep::LimitExceeded { limit_type: "drawdown".to_string() }
    );
    assert_eq!(signal_after_checks(true, false, &held, "wif", true, true), SignalStep::Ignore);
    assert_eq!(signal_after_checks(false, false, &held, "wif", false, false), SignalStep::Assess);
}

#[test]
fn risk_limits_halt_only_after_a_published_breach() {
    let mut h = HaltedTokens::new();
    assert_eq!(settle_risk_limits(&mut h, "bonk", true, true, true, true), Ok(()));
    assert!(h.is_halted("bonk"));
    let mut h = HaltedTokens::new();
    assert_eq!(
        settle_risk_limits(&mut h, "bonk", true, false, true, true),
        Err("token_risk_bonk".to_string())
    );
    assert!(!h.is_halted("bonk"));
    let mut h = HaltedTokens::new();
    assert_eq!(
        settle_risk_limits(&mut h, "wif", false, false, true, false),
        Err("volatility_risk_wif".to_string())
    );
    assert!(!h.is_halted("wif"));
    assert_eq!(settle_risk_limits(&mut h, "wif", false, true, false, false), Ok(()));
    assert!(!h.is_halted("wif"));
}

