use trustbridge_oracle::guardian::{
    AlertLevel, SecurityError, SecurityGuardian, Threat, ThreatReadings, TransactionRecord,
};
use trustbridge_oracle::oracle::{OracleTrait, TrustBridgeOracle};
use trustbridge_oracle::types::{Asset, OracleConfig};

fn s(text: &str) -> String {
    text.to_string()
}

fn deploy_security_guardian() -> SecurityGuardian {
    SecurityGuardian::new(vec![s("guardian")], vec![s("pool"), s("oracle")])
}

fn record(user: &str, action: &str, amount: i128, timestamp: u64) -> TransactionRecord {
    TransactionRecord {
        contract: s("pool"),
        user: s(user),
        action: s(action),
        amount,
        timestamp,
        gas_used: 1,
        block_number: 1,
    }
}

fn calm() -> ThreatReadings {
    ThreatReadings {
        recent_price_changes: 0,
        liquidation_threshold: 1000,
        voting_power: 0,
        total_voting_power: 300,
    }
}

/// Borrows in a flash loan and pushes a far-off price to the oracle.
fn simulate_flash_loan_attack(guardian: &mut SecurityGuardian) -> Result<(), String> {
    let mut oracle = TrustBridgeOracle::new();
    let signers = vec![s("A")];
    let config = OracleConfig {
        max_price_deviation_bps: 1000,
        max_staleness_seconds: 300,
        min_sources_required: 1,
        heartbeat_interval: 60,
    };
    oracle.init(vec![s("A")], 1, config).map_err(|e| format!("{:?}", e))?;
    oracle.add_source(&signers, s("S1"), 100).map_err(|e| format!("{:?}", e))?;
    oracle.submit_price(Asset::Other(s("XLM")), 100, s("S1"), 10).map_err(|e| format!("{:?}", e))?;
    for i in 0..4 {
        guardian.monitor_transaction(record("attacker", "flash_loan", 1_000, 10 + i), &calm());
    }
    let flagged = guardian
        .check_suspicious_activity(&s("attacker"), &s("flash_loan"), 1_000_000, 20)
        .map_err(|e| format!("{:?}", e))?;
    oracle
        .submit_price(Asset::Other(s("XLM")), 250, s("S1"), 20)
        .map_err(|e| format!("{:?}", e))?;
    if flagged {
        return Err(s("suspicious"));
    }
    Ok(())
}

#[test]
fn test_flash_loan_attack_prevention() {
    let mut guardian = deploy_security_guardian();
    let attack_result = simulate_flash_loan_attack(&mut guardian);
    assert!(attack_result.is_err());
}

#[test]
fn flash_loan_attack_is_stopped_by_the_oracle() {
    let mut guardian = deploy_security_guardian();
    assert_eq!(simulate_flash_loan_attack(&mut guardian), Err(s("PriceDeviationExceeded")));
}

#[test]
fn test_emergency_procedures() {
    let mut guardian = deploy_security_guardian();
    assert!(!guardian.is_paused());
    assert_eq!(guardian.emergency_pause_all(s("guardian"), "test emergency".into(), 77), Ok(()));
    assert!(guardian.is_paused());
    let pause = guardian.pause.as_ref().unwrap();
    assert_eq!(pause.reason, "test emergency");
    assert_eq!(pause.paused_at, 77);
    assert_eq!(pause.paused_by, "guardian");
    assert_eq!(guardian.protocol_contracts, vec![s("pool"), s("oracle")]);
}

#[test]
fn only_guardians_pause() {
    let mut guardian = deploy_security_guardian();
    assert_eq!(
        guardian.emergency_pause_all(s("mallory"), s("mine"), 1),
        Err(SecurityError::Unauthorized)
    );
    assert!(!guardian.is_paused());
}

#[test]
fn alerts_follow_the_metrics() {
    let metrics = SecurityGuardian::collect_metrics(900, 5, 10_000, 150, 1001, 3, 42);
    assert_eq!(metrics.total_value_locked, 900);
    assert_eq!(metrics.active_users_24h, 5);
    assert_eq!(metrics.transaction_volume_24h, 10_000);
    assert_eq!(metrics.health_factor_avg, 150);
    assert_eq!(metrics.oracle_price_deviation, 1001);
    assert_eq!(metrics.gas_price_avg, 3);
    assert_eq!(metrics.timestamp, 42);
    let alerts = SecurityGuardian::check_alert_conditions(&metrics, 1000, 50);
    assert_eq!(alerts.len(), 2);
    assert_eq!(alerts[0].level, AlertLevel::High);
    assert_eq!(alerts[0].message, "TVL dropped below threshold");
    assert_eq!(alerts[0].timestamp, 50);
    assert_eq!(alerts[1].level, AlertLevel::Critical);
    assert_eq!(alerts[1].message, "High oracle price deviation detected");
    let calm = SecurityGuardian::collect_metrics(1000, 5, 10_000, 150, 1000, 3, 42);
    assert!(SecurityGuardian::check_alert_conditions(&calm, 1000, 50).is_empty());
}

#[test]
fn suspicious_patterns() {
    let mut guardian = deploy_security_guardian();
    for i in 0..10 {
        guardian.monitor_transaction(record("busy", "swap", 1, 100 + i), &calm());
    }
    guardian.monitor_transaction(record("whale", "swap", 101, 100), &calm());
    guardian.monitor_transaction(record("old", "swap", 101, 100), &calm());
    assert_eq!(guardian.transactions.len(), 12);
    // ten transactions are not more than ten
    assert_eq!(guardian.check_suspicious_activity(&s("busy"), &s("swap"), 1000, 200), Ok(false));
    guardian.monitor_transaction(record("busy", "swap", 1, 150), &calm());
    assert_eq!(guardian.analyze_transaction_pattern(&s("busy"), &s("swap"), 1000, 200), Ok(true));
    // a volume of 101 against a tenth of 1000 and of 1019
    assert_eq!(guardian.analyze_transaction_pattern(&s("whale"), &s("swap"), 1000, 200), Ok(true));
    assert_eq!(guardian.analyze_transaction_pattern(&s("whale"), &s("swap"), 1019, 200), Ok(false));
    // the window of an hour is inclusive
    assert_eq!(guardian.analyze_transaction_pattern(&s("old"), &s("swap"), 1000, 3700), Ok(true));
    assert_eq!(guardian.analyze_transaction_pattern(&s("old"), &s("swap"), 1000, 3701), Ok(false));
    assert_eq!(guardian.analyze_transaction_pattern(&s("nobody"), &s("swap"), 0, 200), Ok(false));
    assert_eq!(guardian.analyze_transaction_pattern(&s("nobody"), &s("swap"), -10, 200), Ok(true));
    assert_eq!(guardian.analyze_transaction_pattern(&s("nobody"), &s("swap"), -9, 200), Ok(false));
}

#[test]
fn repeated_flash_loans_are_flagged() {
    let mut guardian = deploy_security_guardian();
    for i in 0..4 {
        guardian.monitor_transaction(record("u", "flash_loan", 0, i), &calm());
    }
    assert_eq!(guardian.analyze_transaction_pattern(&s("u"), &s("flash_loan"), 1000, 10), Ok(true));
    assert_eq!(guardian.analyze_transaction_pattern(&s("u"), &s("swap"), 1000, 10), Ok(false));
}

#[test]
fn large_volumes_are_compared_exactly() {
    let mut guardian = deploy_security_guardian();
    guardian.monitor_transaction(record("u", "swap", i128::MAX, 1), &calm());
    guardian.monitor_transaction(record("u", "swap", i128::MAX, 2), &calm());
    guardian.monitor_transaction(record("u", "swap", -5, 3), &calm());
    // 2*MAX - 5 is above any tenth of the reserves
    assert_eq!(guardian.analyze_transaction_pattern(&s("u"), &s("swap"), i128::MAX, 10), Ok(true));
    guardian.monitor_transaction(record("u", "swap", i128::MIN, 4), &calm());
    guardian.monitor_transaction(record("u", "swap", i128::MIN, 5), &calm());
    // now the volume is -7
    assert_eq!(guardian.analyze_transaction_pattern(&s("u"), &s("swap"), -60, 10), Ok(false));
    assert_eq!(guardian.analyze_transaction_pattern(&s("u"), &s("swap"), -70, 10), Ok(false));
    assert_eq!(guardian.analyze_transaction_pattern(&s("u"), &s("swap"), -80, 10), Ok(true));
    assert_eq!(
        guardian.analyze_transaction_pattern(&s("u"), &s("swap"), i128::MIN, 10),
        Ok(true)
    );
}

#[test]
fn immediate_threats() {
    let readings = ThreatReadings {
        recent_price_changes: 6,
        liquidation_threshold: 1000,
        voting_power: 101,
        total_voting_power: 300,
    };
    assert_eq!(
        SecurityGuardian::check_immediate_threats(&s("update_oracle_feed"), 5, &readings),
        vec![Threat::OracleManipulation]
    );
    assert_eq!(
        SecurityGuardian::check_immediate_threats(&s("set_price"), 5, &readings),
        vec![Threat::OracleManipulation]
    );
    assert_eq!(
        SecurityGuardian::check_immediate_threats(&s("oracl"), 5, &readings),
        Vec::new()
    );
    assert_eq!(
        SecurityGuardian::check_immediate_threats(&s("liquidate"), 1001, &readings),
        vec![Threat::LargeLiquidation(1001)]
    );
    assert_eq!(
        SecurityGuardian::check_immediate_threats(&s("liquidate"), 1000, &readings),
        Vec::new()
    );
    assert_eq!(
        SecurityGuardian::check_immediate_threats(&s("liquidate_all"), 1001, &readings),
        Vec::new()
    );
    assert_eq!(
        SecurityGuardian::check_immediate_threats(&s("vote_on_price"), 5, &readings),
        vec![Threat::OracleManipulation, Threat::GovernanceConcentration(101)]
    );
    let mut guardian = deploy_security_guardian();
    let quiet = ThreatReadings { recent_price_changes: 5, voting_power: 100, ..readings };
    assert_eq!(guardian.monitor_transaction(record("u", "propose_price", 1, 1), &quiet), Vec::new());
    assert_eq!(
        guardian.monitor_transaction(record("u", "propose", 1, 1), &readings),
        vec![Threat::GovernanceConcentration(101)]
    );
    assert_eq!(guardian.transactions.len(), 2);
    assert_eq!(guardian.transactions[1].action, "propose");
}
