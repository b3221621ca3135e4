use trustbridge_oracle::feed::{aggregate_prices, check_fresh};
use trustbridge_oracle::oracle::{OracleTrait, SubmitReceipt, TrustBridgeOracle};
use trustbridge_oracle::pricing::{calculate_confidence, calculate_deviation_bps, confidence_of};
use trustbridge_oracle::store::KeyedStore;
use trustbridge_oracle::types::{
    Asset, Observation, OracleConfig, OracleError, PriceData, PriceSource,
};

fn s(text: &str) -> String {
    text.to_string()
}

fn names(list: &[&str]) -> Vec<String> {
    list.iter().map(|n| n.to_string()).collect()
}

fn config() -> OracleConfig {
    OracleConfig {
        max_price_deviation_bps: 1000,
        max_staleness_seconds: 300,
        min_sources_required: 2,
        heartbeat_interval: 60,
    }
}

fn usd() -> Asset {
    Asset::Other(s("USD"))
}

/// Admins A, B, C with a quorum of two; sources S1 (60) and S2 (40).
fn ready_oracle() -> TrustBridgeOracle {
    let mut oracle = TrustBridgeOracle::new();
    assert_eq!(oracle.init(names(&["A", "B", "C"]), 2, config()), Ok(()));
    let signers = names(&["A", "B"]);
    assert_eq!(oracle.add_source(&signers, s("S1"), 60), Ok(()));
    assert_eq!(oracle.add_source(&signers, s("S2"), 40), Ok(()));
    oracle
}

#[test]
fn init_rejects_malformed_input() {
    let mut oracle = TrustBridgeOracle::new();
    assert_eq!(oracle.init(Vec::new(), 1, config()), Err(OracleError::InvalidInput));
    assert_eq!(oracle.init(names(&["A"]), 0, config()), Err(OracleError::InvalidInput));
    assert_eq!(oracle.init(names(&["A", "B"]), 3, config()), Err(OracleError::InvalidInput));
    assert_eq!(oracle.init(names(&["A", "A"]), 2, config()), Err(OracleError::InvalidInput));
    let mut wide = config();
    wide.max_price_deviation_bps = 10001;
    assert_eq!(oracle.init(names(&["A"]), 1, wide), Err(OracleError::InvalidInput));
    let mut full = config();
    full.max_price_deviation_bps = 10000;
    assert_eq!(oracle.init(names(&["A"]), 1, full), Ok(()));
    assert_eq!(oracle.get_config(), full);
    assert_eq!(oracle.get_admins(), names(&["A"]));
}

#[test]
fn init_only_once() {
    let mut oracle = ready_oracle();
    assert_eq!(
        oracle.init(names(&["Z"]), 1, config()),
        Err(OracleError::AlreadyInitialized)
    );
    assert_eq!(oracle.get_admins(), names(&["A", "B", "C"]));
}

#[test]
fn first_submission_sets_the_price() {
    let mut oracle = ready_oracle();
    let receipt = oracle.submit_price(usd(), 12345, s("S2"), 1000).unwrap();
    let expected = PriceData { price: 12345, timestamp: 1000, source_count: 1, confidence: 100 };
    assert_eq!(receipt, SubmitReceipt { aggregate: Some(expected), heartbeat_gap: None });
    // one source is below the two that the configuration asks for
    assert_eq!(oracle.lastprice(&usd(), 1000), None);
    assert_eq!(oracle.stale_age(&usd(), 1000), None);
}

#[test]
fn zero_weight_source_sets_no_price() {
    let mut oracle = ready_oracle();
    assert_eq!(oracle.add_source(&names(&["A", "B"]), s("S0"), 0), Ok(()));
    let receipt = oracle.submit_price(usd(), 500, s("S0"), 10).unwrap();
    assert_eq!(receipt.aggregate, None);
    assert_eq!(oracle.get_price_sources(&usd()).len(), 1);
}

#[test]
fn weighted_average_rounds_down() {
    let mut oracle = ready_oracle();
    let signers = names(&["B", "C"]);
    assert_eq!(oracle.add_source(&signers, s("S3"), 7), Ok(()));
    oracle.submit_price(usd(), 1000, s("S1"), 10).unwrap();
    oracle.submit_price(usd(), 1010, s("S2"), 11).unwrap();
    let receipt = oracle.submit_price(usd(), 1003, s("S3"), 12).unwrap();
    // (1000*60 + 1010*40 + 1003*7) / 107 = 107421 / 107 = 1003.93..
    let expected = PriceData { price: 1003, timestamp: 12, source_count: 3, confidence: 100 };
    assert_eq!(receipt.aggregate, Some(expected));
    assert_eq!(oracle.lastprice(&usd(), 12), Some(expected));
}

#[test]
fn two_sources_then_deviation_shock() {
    let mut oracle = ready_oracle();
    oracle.submit_price(usd(), 100, s("S1"), 1000).unwrap();
    oracle.submit_price(usd(), 100, s("S2"), 1000).unwrap();
    let quote = oracle.lastprice(&usd(), 1000).unwrap();
    assert_eq!(quote.price, 100);
    assert_eq!(quote.source_count, 2);
    assert_eq!(quote.confidence, 100);
    assert_eq!(calculate_deviation_bps(250, 100), 15000);
    assert_eq!(
        oracle.submit_price(usd(), 250, s("S1"), 1001),
        Err(OracleError::PriceDeviationExceeded)
    );
    let breaker = oracle.get_circuit_breaker();
    assert!(breaker.is_paused);
    assert_eq!(breaker.pause_timestamp, 1001);
    assert_eq!(breaker.reason, "deviation");
    assert_eq!(
        oracle.submit_price(usd(), 100, s("S2"), 1002),
        Err(OracleError::CircuitBreakerActive)
    );
    // the refused price was not stored, and reads go on
    let stored = oracle.get_price_sources(&usd());
    assert_eq!(
        stored,
        vec![
            PriceSource { source_id: s("S1"), price: 100, timestamp: 1000, weight: 60 },
            PriceSource { source_id: s("S2"), price: 100, timestamp: 1000, weight: 40 },
        ]
    );
    assert_eq!(oracle.lastprice(&usd(), 1002), Some(quote));
}

#[test]
fn deviation_at_the_bound_passes() {
    let mut oracle = ready_oracle();
    oracle.submit_price(usd(), 1000, s("S1"), 1).unwrap();
    // 10% exactly: 1000 bps is not above the bound of 1000
    assert!(oracle.submit_price(usd(), 1100, s("S2"), 2).is_ok());
    let mut other = ready_oracle();
    other.submit_price(usd(), 1000, s("S1"), 1).unwrap();
    assert_eq!(
        other.submit_price(usd(), 1101, s("S2"), 2),
        Err(OracleError::PriceDeviationExceeded)
    );
    assert!(other.get_circuit_breaker().is_paused);
}

#[test]
fn submission_checks_come_in_order() {
    let mut oracle = ready_oracle();
    assert_eq!(
        oracle.submit_price(usd(), 100, s("nobody"), 1),
        Err(OracleError::UnauthorizedSource)
    );
    assert_eq!(oracle.submit_price(usd(), 0, s("S1"), 1), Err(OracleError::InvalidPrice));
    assert_eq!(oracle.submit_price(usd(), -5, s("S1"), 1), Err(OracleError::InvalidPrice));
    assert_eq!(oracle.submit_price(usd(), -5, s("nobody"), 1), Err(OracleError::UnauthorizedSource));
    assert!(oracle.get_price_sources(&usd()).is_empty());
    assert!(!oracle.get_circuit_breaker().is_paused);
    assert_eq!(oracle.pause(&names(&["A", "C"]), s("drill"), 5), Ok(()));
    assert_eq!(
        oracle.submit_price(usd(), -5, s("nobody"), 6),
        Err(OracleError::CircuitBreakerActive)
    );
}

#[test]
fn largest_prices_are_averaged_exactly() {
    let mut oracle = ready_oracle();
    let first = oracle.submit_price(usd(), i128::MAX, s("S1"), 1).unwrap();
    assert_eq!(first.aggregate.unwrap().price, i128::MAX);
    let second = oracle.submit_price(usd(), i128::MAX - 10, s("S2"), 2).unwrap();
    // (MAX*60 + (MAX-10)*40) / 100 = MAX - 4
    assert_eq!(
        second.aggregate,
        Some(PriceData { price: i128::MAX - 4, timestamp: 2, source_count: 2, confidence: 100 })
    );
    let third = oracle.submit_price(usd(), i128::MAX - 1, s("S2"), 3).unwrap();
    // (MAX*60 + (MAX-1)*40) / 100 = MAX - 0.4, rounded down
    assert_eq!(third.aggregate.unwrap().price, i128::MAX - 1);
}

#[test]
fn later_submission_overwrites() {
    let mut oracle = ready_oracle();
    oracle.submit_price(usd(), 100, s("S1"), 10).unwrap();
    oracle.submit_price(usd(), 105, s("S1"), 20).unwrap();
    assert_eq!(
        oracle.get_price_sources(&usd()),
        vec![PriceSource { source_id: s("S1"), price: 105, timestamp: 20, weight: 60 }]
    );
    assert!(oracle.get_price_sources(&Asset::Stellar(s("USD"))).is_empty());
}

#[test]
fn assets_are_kept_apart() {
    let mut oracle = ready_oracle();
    oracle.submit_price(Asset::Other(s("X")), 100, s("S1"), 10).unwrap();
    oracle.submit_price(Asset::Stellar(s("X")), 900, s("S1"), 10).unwrap();
    oracle.submit_price(Asset::Other(s("X")), 100, s("S2"), 10).unwrap();
    oracle.submit_price(Asset::Stellar(s("X")), 900, s("S2"), 10).unwrap();
    assert_eq!(oracle.lastprice(&Asset::Other(s("X")), 10).unwrap().price, 100);
    assert_eq!(oracle.lastprice(&Asset::Stellar(s("X")), 10).unwrap().price, 900);
    assert_eq!(oracle.lastprice(&Asset::Other(s("Y")), 10), None);
}

#[test]
fn stale_sources_are_left_out() {
    let mut oracle = ready_oracle();
    oracle.submit_price(usd(), 100, s("S1"), 1000).unwrap();
    // S1 is exactly 300 seconds old: still counted
    let at_bound = oracle.submit_price(usd(), 110, s("S2"), 1300).unwrap();
    assert_eq!(
        at_bound.aggregate,
        Some(PriceData { price: 104, timestamp: 1300, source_count: 2, confidence: 100 })
    );
    // one second later S1 is stale: only S2 counts, one of two sources
    let past_bound = oracle.submit_price(usd(), 110, s("S2"), 1301).unwrap();
    assert_eq!(
        past_bound.aggregate,
        Some(PriceData { price: 110, timestamp: 1301, source_count: 1, confidence: 50 })
    );
    assert!(check_fresh(1300, 1000, 300));
    assert!(!check_fresh(1301, 1000, 300));
    assert!(check_fresh(5, 1000, 0));
}

#[test]
fn lastprice_staleness_boundary() {
    let mut oracle = ready_oracle();
    oracle.submit_price(usd(), 100, s("S1"), 1000).unwrap();
    oracle.submit_price(usd(), 100, s("S2"), 1000).unwrap();
    assert!(oracle.lastprice(&usd(), 1300).is_some());
    assert_eq!(oracle.stale_age(&usd(), 1300), None);
    assert_eq!(oracle.lastprice(&usd(), 1301), None);
    assert_eq!(oracle.stale_age(&usd(), 1301), Some(301));
}

#[test]
fn stale_aggregate_reads_empty() {
    let mut oracle = ready_oracle();
    oracle.submit_price(usd(), 100, s("S1"), 1000).unwrap();
    oracle.submit_price(usd(), 100, s("S2"), 1000).unwrap();
    assert_eq!(oracle.lastprice(&usd(), 1400), None);
    assert_eq!(oracle.stale_age(&usd(), 1400), Some(400));
}

#[test]
fn lastprice_is_repeatable() {
    let mut oracle = ready_oracle();
    oracle.submit_price(usd(), 100, s("S1"), 1000).unwrap();
    oracle.submit_price(usd(), 102, s("S2"), 1005).unwrap();
    let first = oracle.lastprice(&usd(), 1010);
    let second = oracle.lastprice(&usd(), 1010);
    let third = oracle.lastprice(&usd(), 1010);
    assert!(first.is_some());
    assert_eq!(first, second);
    assert_eq!(second, third);
}

#[test]
fn heartbeat_gap_is_reported() {
    let mut oracle = ready_oracle();
    oracle.submit_price(usd(), 100, s("S1"), 1000).unwrap();
    let on_time = oracle.submit_price(usd(), 100, s("S2"), 1120).unwrap();
    assert_eq!(on_time.heartbeat_gap, None);
    let late = oracle.submit_price(usd(), 100, s("S1"), 1241).unwrap();
    assert_eq!(late.heartbeat_gap, Some(121));
}

#[test]
fn breaker_stays_until_authorized_resume() {
    let mut oracle = ready_oracle();
    assert_eq!(oracle.pause(&names(&["A"]), s("halt"), 50), Err(OracleError::Unauthorized));
    assert!(!oracle.get_circuit_breaker().is_paused);
    assert_eq!(oracle.pause(&names(&["A", "B"]), s("halt"), 50), Ok(()));
    let breaker = oracle.get_circuit_breaker();
    assert!(breaker.is_paused);
    assert_eq!(breaker.pause_timestamp, 50);
    assert_eq!(breaker.reason, "halt");
    assert_eq!(
        oracle.submit_price(usd(), 100, s("S1"), 51),
        Err(OracleError::CircuitBreakerActive)
    );
    assert_eq!(oracle.resume(&Vec::new()), Err(OracleError::Unauthorized));
    assert_eq!(oracle.resume(&names(&["C"])), Err(OracleError::Unauthorized));
    assert_eq!(oracle.resume(&names(&["C", "C"])), Err(OracleError::Unauthorized));
    assert_eq!(oracle.resume(&names(&["C", "X", "Y"])), Err(OracleError::Unauthorized));
    assert_eq!(
        oracle.submit_price(usd(), 100, s("S1"), 52),
        Err(OracleError::CircuitBreakerActive)
    );
    assert_eq!(oracle.resume(&names(&["C", "A"])), Ok(()));
    let breaker = oracle.get_circuit_breaker();
    assert!(!breaker.is_paused);
    assert_eq!(breaker.pause_timestamp, 0);
    assert_eq!(breaker.reason, "");
    assert!(oracle.submit_price(usd(), 100, s("S1"), 53).is_ok());
}

#[test]
fn governance_gate_counts_distinct_admins() {
    let oracle = ready_oracle();
    assert!(!oracle.authorize(&Vec::new()));
    assert!(!oracle.authorize(&names(&["A", "A"])));
    assert!(!oracle.authorize(&names(&["X", "Y"])));
    assert!(oracle.authorize(&names(&["B", "A"])));
    assert!(oracle.authorize(&names(&["X", "C", "B"])));
    assert!(!TrustBridgeOracle::new().authorize(&Vec::new()));
}

#[test]
fn remove_admin_keeps_quorum() {
    let mut oracle = TrustBridgeOracle::new();
    assert_eq!(oracle.init(names(&["A", "B"]), 2, config()), Ok(()));
    let signers = names(&["A", "B"]);
    assert_eq!(oracle.remove_admin(&signers, &s("B")), Err(OracleError::InsufficientAdmins));
    assert_eq!(oracle.get_admins().len(), 2);
    assert_eq!(oracle.get_admins(), names(&["A", "B"]));
}

#[test]
fn admins_can_be_added_and_removed() {
    let mut oracle = ready_oracle();
    let signers = names(&["A", "B"]);
    assert_eq!(oracle.add_admin(&names(&["A"]), s("D")), Err(OracleError::Unauthorized));
    assert_eq!(oracle.add_admin(&signers, s("D")), Ok(()));
    assert_eq!(oracle.add_admin(&signers, s("D")), Ok(()));
    assert_eq!(oracle.get_admins(), names(&["A", "B", "C", "D"]));
    assert_eq!(oracle.remove_admin(&names(&["D"]), &s("A")), Err(OracleError::Unauthorized));
    assert_eq!(oracle.remove_admin(&signers, &s("A")), Ok(()));
    assert_eq!(oracle.get_admins(), names(&["B", "C", "D"]));
    assert_eq!(oracle.remove_admin(&names(&["C", "D"]), &s("nobody")), Ok(()));
    assert_eq!(oracle.remove_admin(&names(&["C", "D"]), &s("B")), Ok(()));
    assert_eq!(
        oracle.remove_admin(&names(&["C", "D"]), &s("C")),
        Err(OracleError::InsufficientAdmins)
    );
    assert_eq!(oracle.get_admins(), names(&["C", "D"]));
}

#[test]
fn sources_and_config_need_the_quorum() {
    let mut oracle = ready_oracle();
    let one = names(&["A"]);
    let two = names(&["A", "C"]);
    assert_eq!(oracle.add_source(&one, s("S9"), 10), Err(OracleError::Unauthorized));
    assert_eq!(oracle.add_source(&one, s("S9"), 101), Err(OracleError::Unauthorized));
    assert_eq!(oracle.add_source(&two, s("S9"), 101), Err(OracleError::InvalidInput));
    assert_eq!(oracle.add_source(&two, s("S9"), 100), Ok(()));
    assert!(oracle.submit_price(usd(), 5, s("S9"), 1).is_ok());
    assert_eq!(oracle.remove_source(&one, &s("S9")), Err(OracleError::Unauthorized));
    assert_eq!(oracle.remove_source(&two, &s("S9")), Ok(()));
    assert_eq!(oracle.submit_price(usd(), 5, s("S9"), 2), Err(OracleError::UnauthorizedSource));
    let mut next = config();
    next.max_staleness_seconds = 10;
    assert_eq!(oracle.update_config(&one, next), Err(OracleError::Unauthorized));
    next.max_price_deviation_bps = 10001;
    assert_eq!(oracle.update_config(&two, next), Err(OracleError::InvalidInput));
    assert_eq!(oracle.get_config(), config());
    next.max_price_deviation_bps = 10000;
    assert_eq!(oracle.update_config(&two, next), Ok(()));
    assert_eq!(oracle.get_config(), next);
    assert_eq!(oracle.decimals(), 7);
}

#[test]
fn deviation_formula_values() {
    assert_eq!(calculate_deviation_bps(100, 100), 0);
    assert_eq!(calculate_deviation_bps(110, 100), 1000);
    assert_eq!(calculate_deviation_bps(90, 100), 1000);
    assert_eq!(calculate_deviation_bps(250, 100), 15000);
    assert_eq!(calculate_deviation_bps(1, 3), 6666);
    assert_eq!(calculate_deviation_bps(0, 0), 10000);
    assert_eq!(calculate_deviation_bps(77, 0), 10000);
    assert_eq!(calculate_deviation_bps(-50, -100), 5000);
    assert_eq!(calculate_deviation_bps(i128::MAX, 1), u32::MAX);
    assert_eq!(calculate_deviation_bps(i128::MAX, i128::MIN), 19999);
    assert_eq!(calculate_deviation_bps(1, i128::MAX), 9999);
    assert_eq!(calculate_deviation_bps(i128::MAX - 1, i128::MAX), 0);
    assert_eq!(calculate_deviation_bps(429_498, 1), u32::MAX);
    assert_eq!(calculate_deviation_bps(429_497, 1), 4_294_960_000);
}

#[test]
fn confidence_formula_values() {
    assert_eq!(calculate_confidence(0, 0), 0);
    assert_eq!(calculate_confidence(0, 4), 0);
    assert_eq!(calculate_confidence(1, 2), 50);
    assert_eq!(calculate_confidence(2, 2), 100);
    assert_eq!(calculate_confidence(2, 3), 66);
    assert_eq!(calculate_confidence(3, 4), 85);
    assert_eq!(calculate_confidence(3, 3), 100);
    assert_eq!(calculate_confidence(9, 10), 100);
    assert_eq!(calculate_confidence(u32::MAX, 1), 100);
    assert_eq!(confidence_of(2, 3), 66);
    assert_eq!(confidence_of(3, 4), 85);
    assert_eq!(confidence_of(0, 0), 0);
    assert_eq!(confidence_of(usize::MAX, usize::MAX), 100);
}

#[test]
fn aggregate_of_a_store() {
    let mut store: KeyedStore<Observation> = KeyedStore::new();
    assert_eq!(aggregate_prices(&store, 10, 5), None);
    store.insert(s("a"), Observation { price: 7, timestamp: 10, weight: 1 });
    store.insert(s("b"), Observation { price: 8, timestamp: 10, weight: 2 });
    store.insert(s("c"), Observation { price: 100, timestamp: 1, weight: 50 });
    // c is stale: (7 + 16) / 3 = 7, two of three sources
    assert_eq!(
        aggregate_prices(&store, 10, 5),
        Some(PriceData { price: 7, timestamp: 10, source_count: 2, confidence: 66 })
    );
    assert_eq!(aggregate_prices(&store, 100, 5), None);
    store.insert(s("d"), Observation { price: i128::MAX, timestamp: 10, weight: 2 });
    // (7 + 16 + 2*MAX) / 5, three of four sources, with the bonus
    assert_eq!(
        aggregate_prices(&store, 10, 5),
        Some(PriceData {
            price: (i128::MAX / 5) * 2 + 5,
            timestamp: 10,
            source_count: 3,
            confidence: 85,
        })
    );
    assert_eq!(store.remove(&s("d")).map(|o| o.price), Some(i128::MAX));
    assert_eq!(store.remove(&s("d")), None);
    assert_eq!(store.len(), 3);
    assert_eq!(store.get(&s("b")).map(|o| o.price), Some(8));
    assert!(store.contains(&s("a")));
    assert_eq!(store.position(&s("c")), Some(2));
    assert_eq!(store.key_at(1), "b");
    assert_eq!(store.value_at(0).price, 7);
    assert!(!store.contains(&s("d")));
}

#[test]
fn store_is_rebuilt_from_its_records() {
    let breaker = trustbridge_oracle::types::CircuitBreaker {
        is_paused: true,
        pause_timestamp: 9,
        reason: s("drill"),
    };
    let mut oracle =
        TrustBridgeOracle::load(names(&["A", "B", "A"]), 2, config(), breaker.clone()).unwrap();
    assert!(oracle.is_initialized());
    assert_eq!(oracle.min_signatures(), 2);
    assert_eq!(oracle.get_admins(), names(&["A", "B"]));
    assert_eq!(oracle.get_circuit_breaker(), breaker);
    assert_eq!(oracle.load_source(s("S1"), 101), Err(OracleError::InvalidInput));
    assert_eq!(oracle.load_source(s("S1"), 60), Ok(()));
    assert_eq!(oracle.source_weight(&s("S1")), Some(60));
    assert_eq!(oracle.source_weight(&s("S2")), None);
    let observation = Observation { price: 100, timestamp: 5, weight: 60 };
    assert_eq!(oracle.load_observation(usd(), s("S1"), observation), Ok(()));
    assert_eq!(
        oracle.load_observation(usd(), s("S2"), Observation { price: 0, timestamp: 5, weight: 1 }),
        Err(OracleError::InvalidPrice)
    );
    assert_eq!(oracle.get_aggregate(&usd()), None);
    let data = PriceData { price: 100, timestamp: 5, source_count: 2, confidence: 100 };
    oracle.load_aggregate(usd(), data);
    assert_eq!(oracle.get_aggregate(&usd()), Some(data));
    assert_eq!(oracle.lastprice(&usd(), 6), Some(data));
    assert_eq!(
        oracle.get_price_sources(&usd()),
        vec![PriceSource { source_id: s("S1"), price: 100, timestamp: 5, weight: 60 }]
    );
    // the breaker that was stored is still tripped
    assert_eq!(
        oracle.submit_price(usd(), 100, s("S1"), 6),
        Err(OracleError::CircuitBreakerActive)
    );
    assert_eq!(
        TrustBridgeOracle::load(Vec::new(), 1, config(), breaker).err(),
        Some(OracleError::InvalidInput)
    );
    let blank = TrustBridgeOracle::new();
    assert!(!blank.is_initialized());
    assert_eq!(blank.min_signatures(), 0);
    let mut early = TrustBridgeOracle::new();
    assert_eq!(early.load_source(s("S1"), 1), Err(OracleError::InvalidInput));
    assert_eq!(early.submit_price(usd(), 1, s("S1"), 1), Err(OracleError::UnauthorizedSource));
    assert_eq!(early.pause(&Vec::new(), s("x"), 1), Err(OracleError::Unauthorized));
}
