use mantis_infra::cache::{
    flush_keys, flush_token_order, metadata_key, needs_preload, pair_pipeline_replies, prefixed_key, price_key,
    redis_fallback_url, token_meta_key, CacheError, CacheStatus, PRICE_DATA_TTL, TOKEN_LIST_TTL,
    TOKEN_METADATA_TTL,
};
use mantis_infra::database::{
    operation_id, operation_id_from_bytes, OperationKind, maintenance_status, plan_db_event, resolve_provider_id, route_position_update, route_trade_write, DbAction,
    DbEvent, WriteRoute,
};
use mantis_infra::execution::TxPhase;
use mantis_infra::text::{contains_str, eq_ignore_case, replace_str, str_eq};
use mantis_infra::wallet::{
    balance_url, merge_token_holdings, raydium_chain_check, token_transfers_url, transaction_kind,
    transactions_url, TransferRow,
};

fn strings(v: &[&str]) -> Vec<String> {
    v.iter().map(|s| s.to_string()).collect()
}

#[test]
fn cache_keys() {
    assert_eq!(metadata_key("sol"), "token:metadata:sol");
    assert_eq!(price_key("sol"), "token:price:sol");
    assert_eq!(token_meta_key("sol"), "token:meta:sol");
    assert_eq!(prefixed_key("bot", "token:meta:sol"), "bot:token:meta:sol");
    assert_eq!(prefixed_key("", "k"), ":k");
    assert_eq!((TOKEN_METADATA_TTL, PRICE_DATA_TTL, TOKEN_LIST_TTL), (3600, 60, 300));
}

#[test]
fn redis_localhost_fallback() {
    assert_eq!(
        redis_fallback_url("redis://localhost:6379"),
        Some("redis://127.0.0.1:6379".to_string())
    );
    assert_eq!(
        redis_fallback_url("redis://localhost:1/localhost"),
        Some("redis://127.0.0.1:1/127.0.0.1".to_string())
    );
    assert_eq!(redis_fallback_url("redis://10.0.0.2:6379"), None);
}

#[test]
fn cache_status_checks() {
    let on = CacheStatus { enabled: true, pool_ready: true };
    let broken = CacheStatus { enabled: true, pool_ready: false };
    let off = CacheStatus { enabled: false, pool_ready: false };
    assert!(on.is_enabled());
    assert!(!broken.is_enabled());
    assert_eq!(on.initialize(), Ok(()));
    assert_eq!(off.initialize(), Ok(()));
    assert_eq!(broken.initialize(), Err(CacheError::PoolNotInitialized));
    assert_eq!(off.connection_gate(), Err(CacheError::Disabled));
    assert_eq!(broken.connection_gate(), Err(CacheError::PoolNotInitialized));
    assert_eq!(on.connection_gate(), Ok(()));
}

#[test]
fn flush_order_lists_each_token_once() {
    let out = flush_token_order(strings(&["a", "b", "b"]), strings(&["b", "c", "a"]));
    assert_eq!(out, strings(&["a", "b", "c"]));
    assert_eq!(flush_token_order(strings(&["a", "b"]), strings(&["a"])), strings(&["a", "b"]));
    assert_eq!(flush_token_order(strings(&["b"]), strings(&["c", "a"])), strings(&["b", "c", "a"]));
    assert!(flush_token_order(vec![], vec![]).is_empty());
    assert_eq!(flush_token_order(vec![], strings(&["x", "x"])), strings(&["x"]));
}

#[test]
fn flush_keys_per_token() {
    assert_eq!(
        flush_keys(&strings(&["a", "b"])),
        strings(&["token:price:a", "token:metadata:a", "token:price:b", "token:metadata:b"])
    );
}

#[test]
fn pipeline_replies_pair_up() {
    let replies = vec![Some("m1".to_string()), None, Some("m2".to_string())];
    let pairs = pair_pipeline_replies(3, &replies);
    assert_eq!(
        pairs,
        vec![(Some("m1".to_string()), None), (Some("m2".to_string()), None), (None, None)]
    );
    assert!(pair_pipeline_replies(0, &replies).is_empty());
}

#[test]
fn preload_needed_when_anything_missing() {
    assert!(needs_preload(false, true));
    assert!(needs_preload(true, false));
    assert!(!needs_preload(true, true));
}

#[test]
fn maintenance_schedule() {
    assert_eq!(maintenance_status(None, 24), (None, None));
    assert_eq!(maintenance_status(Some(1_000), 2), (Some(1_000), Some(7_201_000)));
    assert_eq!(maintenance_status(Some(-3_600_000), 1), (Some(-3_600_000), Some(0)));
}

#[test]
fn write_routes() {
    assert_eq!(route_trade_write(false, true), WriteRoute::Skip);
    assert_eq!(route_trade_write(true, true), WriteRoute::Enqueue);
    assert_eq!(route_trade_write(true, false), WriteRoute::Fallback);
    assert_eq!(route_position_update(true), WriteRoute::Enqueue);
    assert_eq!(route_position_update(false), WriteRoute::Fallback);
    assert_eq!(resolve_provider_id("sol", Some("So111".to_string())), "So111");
    assert_eq!(resolve_provider_id("sol", None), "sol");
}

#[test]
fn database_event_plans() {
    let s = |x: &str| x.to_string();
    assert_eq!(
        plan_db_event(&DbEvent::NewTokenDiscovered { token_id: s("BONK"), name: s("Bonk"), symbol: s("BONK") }),
        vec![
            DbAction::EnsureTokenExists { token_id: s("bonk") },
            DbAction::UpdateTokenMetadata { token_id: s("bonk"), symbol: s("BONK"), name: s("Bonk") },
            DbAction::StoreInitialPrice { token_id: s("bonk") },
        ]
    );
    let order = |is_buy: bool, q: bool, p: bool| DbEvent::OrderExecuted {
        canonical_token_id: s("sol"),
        provider_token_id: s("So111"),
        is_buy,
        quantity_positive: q,
        price_positive: p,
        timestamp_ms: 77,
    };
    assert_eq!(
        plan_db_event(&order(true, true, true)),
        vec![DbAction::RecordPositionWithTrade { token_id: s("sol"), provider_id: s("So111"), entry_time_ms: 77 }]
    );
    assert!(plan_db_event(&order(true, false, true)).is_empty());
    assert_eq!(
        plan_db_event(&order(false, true, true)),
        vec![DbAction::QueueTrade {
            canonical_token_id: s("sol"),
            provider_token_id: s("So111"),
            is_buy: false,
            timestamp_ms: 77
        }]
    );
    assert!(plan_db_event(&order(false, true, false)).is_empty());
    assert_eq!(
        plan_db_event(&DbEvent::PositionUpdate { token_id: s("sol"), timestamp_ms: 5 }),
        vec![DbAction::QueuePositionUpdate { token_id: s("sol"), timestamp_ms: 5 }]
    );
    assert_eq!(
        plan_db_event(&DbEvent::PositionOpened { token_id: s("sol"), timestamp_ms: 6 }),
        vec![DbAction::RecordPositionWithTrade { token_id: s("sol"), provider_id: s("sol"), entry_time_ms: 6 }]
    );
    assert_eq!(
        plan_db_event(&DbEvent::PositionClosed {
            token_id: s("sol"),
            amounts_positive: true,
            delete_position: true,
            timestamp_ms: 9
        }),
        vec![DbAction::ResolveProviderAndQueueClose { token_id: s("sol"), delete_position: true, timestamp_ms: 9 }]
    );
    assert!(plan_db_event(&DbEvent::PositionClosed {
        token_id: s("sol"),
        amounts_positive: false,
        delete_position: false,
        timestamp_ms: 9
    })
    .is_empty());
    assert_eq!(
        plan_db_event(&DbEvent::DexStatusUpdated { tx_id: s("0xabc"), phase: TxPhase::Dropped }),
        vec![DbAction::LogDexStatus { tx_id: s("0xabc"), status_text: s("Dropped") }]
    );
    assert!(plan_db_event(&DbEvent::Other).is_empty());
}

#[test]
fn wallet_helpers() {
    assert_eq!(transaction_kind("0x0000000000000000000000000000000000000000"), "Contract Creation");
    assert_eq!(transaction_kind("0xabc"), "Transfer");
    assert_eq!(
        balance_url("0x1"),
        "https://api.etherscan.io/api/module=account&action=balance&address=0x1&tag=latest"
    );
    assert_eq!(
        token_transfers_url("0x1"),
        "https://api.etherscan.io/api/module=account&action=tokentx&address=0x1&sort=desc"
    );
    assert_eq!(
        transactions_url("0x1"),
        "https://api.etherscan.io/api/module=account&action=txlist&address=0x1&sort=desc"
    );
    assert_eq!(raydium_chain_check("Solana"), Ok(()));
    assert_eq!(
        raydium_chain_check("Ethereum"),
        Err("Raydium is only available on Solana, not on Ethereum".to_string())
    );
}

#[test]
fn holdings_keep_first_name_and_last_balance() {
    let rows = vec![
        TransferRow { token_name: "Tether".into(), token_symbol: "USDT".into(), balance: "1.0000".into() },
        TransferRow { token_name: "Dai".into(), token_symbol: "DAI".into(), balance: "2.0000".into() },
        TransferRow { token_name: "Tether USD".into(), token_symbol: "USDT".into(), balance: "3.0000".into() },
    ];
    let h = merge_token_holdings(&rows);
    assert_eq!(h.len(), 2);
    assert_eq!(h[0].key, "USDT");
    assert_eq!(h[0].value.name, "Tether");
    assert_eq!(h[0].value.balance, "3.0000");
    assert_eq!(h[1].key, "DAI");
    assert_eq!(h[1].value.balance, "2.0000");
}

#[test]
fn text_helpers() {
    assert!(str_eq("abc", "abc"));
    assert!(!str_eq("abc", "abd"));
    assert!(contains_str("hello world", "o w"));
    assert!(contains_str("x", ""));
    assert!(!contains_str("ab", "abc"));
    assert!(eq_ignore_case("SoLaNa", "solana"));
    assert!(!eq_ignore_case("sol", "soll"));
    assert_eq!(replace_str("aaa", "aa", "b"), "ba");
    assert_eq!(replace_str("", "x", "y"), "");
}

#[test]
fn operation_ids_carry_prefix_and_uuid() {
    let a = operation_id(OperationKind::PositionUpdate).unwrap();
    assert!(a.starts_with("pos_update_"));
    assert_eq!(a.len(), "pos_update_".len() + 36);
    assert_eq!(a.matches('-').count(), 4);
    let b = operation_id(OperationKind::Trade).unwrap();
    assert!(b.starts_with("trade_"));
    let c = operation_id(OperationKind::PositionClose).unwrap();
    assert!(c.starts_with("close_"));
    assert_ne!(operation_id(OperationKind::Trade).unwrap(), b);
}

#[test]
fn operation_id_from_given_bytes() {
    let bytes: Vec<u8> = (0u8..16).collect();
    assert_eq!(
        operation_id_from_bytes(OperationKind::Trade, &bytes),
        "trade_00010203-0405-4607-8809-0a0b0c0d0e0f"
    );
    let ones = vec![0xffu8; 16];
    assert_eq!(
        operation_id_from_bytes(OperationKind::PositionClose, &ones),
        "close_ffffffff-ffff-4fff-bfff-ffffffffffff"
    );
    let zeros = vec![0u8; 16];
    assert_eq!(
        operation_id_from_bytes(OperationKind::PositionUpdate, &zeros),
        "pos_update_00000000-0000-4000-8000-000000000000"
    );
}

#[test]
fn operation_id_is_a_version_four_uuid() {
    let id = operation_id(OperationKind::Trade).unwrap();
    let chars: Vec<char> = id["trade_".len()..].chars().collect();
    assert_eq!(chars.len(), 36);
    for (k, ch) in chars.iter().enumerate() {
        if k == 8 || k == 13 || k == 18 || k == 23 {
            assert_eq!(*ch, '-');
        } else {
            assert!(ch.is_ascii_digit() || ('a'..='f').contains(ch));
        }
    }
    assert_eq!(chars[14], '4');
    assert!(['8', '9', 'a', 'b'].contains(&chars[19]));
}
