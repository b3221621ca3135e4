//! The security guardian: it watches the protocol's metrics and
//! transactions, raises alerts and threats, and records an emergency pause.
//! It reads nothing by itself; every reading is an argument.

use vstd::prelude::*;
use crate::pricing::quotient_toward_zero;
use crate::store::{contains_text, texts};

verus! {

/// Length in seconds of the window in which transactions count as recent.
pub const PATTERN_WINDOW_SECONDS: u64 = 3600;

/// How urgent an alert is.
#[derive(Clone, Copy, Debug, PartialEq, Eq, Structural)]
pub enum AlertLevel {
    Low,
    Medium,
    High,
    Critical,
}

/// One raised alert.
#[derive(Clone, Debug)]
pub struct Alert {
    pub level: AlertLevel,
    pub message: String,
    pub timestamp: u64,
}

/// An `Alert` as a plain value.
pub struct AlertView {
    pub level: AlertLevel,
    pub message: Seq<char>,
    pub timestamp: u64,
}

impl View for Alert {
    type V = AlertView;

    open spec fn view(&self) -> AlertView {
        AlertView { level: self.level, message: self.message@, timestamp: self.timestamp }
    }
}

/// The views of a list of alerts.
pub open spec fn alert_views(list: Seq<Alert>) -> Seq<AlertView> {
    Seq::new(list.len(), |i: int| list[i]@)
}

/// The state of the protocol at one moment.
#[derive(Clone, Copy, Debug, PartialEq, Eq, Structural)]
pub struct SystemMetrics {
    pub total_value_locked: i128,
    pub active_users_24h: u32,
    pub transaction_volume_24h: i128,
    pub health_factor_avg: i128,
    pub oracle_price_deviation: u32,
    pub gas_price_avg: u32,
    pub timestamp: u64,
}

/// One observed transaction.
#[derive(Clone, Debug)]
pub struct TransactionRecord {
    pub contract: String,
    pub user: String,
    pub action: String,
    pub amount: i128,
    pub timestamp: u64,
    pub gas_used: u32,
    pub block_number: u32,
}

/// A `TransactionRecord` as a plain value.
pub struct TransactionView {
    pub contract: Seq<char>,
    pub user: Seq<char>,
    pub action: Seq<char>,
    pub amount: i128,
    pub timestamp: u64,
    pub gas_used: u32,
    pub block_number: u32,
}

impl View for TransactionRecord {
    type V = TransactionView;

    open spec fn view(&self) -> TransactionView {
        TransactionView {
            contract: self.contract@,
            user: self.user@,
            action: self.action@,
            amount: self.amount,
            timestamp: self.timestamp,
            gas_used: self.gas_used,
            block_number: self.block_number,
        }
    }
}

/// The views of a list of transactions.
pub open spec fn transaction_views(list: Seq<TransactionRecord>) -> Seq<TransactionView> {
    Seq::new(list.len(), |i: int| list[i]@)
}

/// Why the guardian refused or could not finish.
#[derive(Clone, Copy, Debug, PartialEq, Eq, Structural)]
pub enum SecurityError {
    /// The caller is no guardian.
    Unauthorized,
}

/// A red flag raised by one transaction.
#[derive(Clone, Copy, Debug, PartialEq, Eq, Structural)]
pub enum Threat {
    /// A price-related action amid many recent price changes.
    OracleManipulation,
    /// A liquidation above the threshold, with its amount.
    LargeLiquidation(i128),
    /// A governance action by a holder of more than a third of the voting
    /// power, with that holder's power.
    GovernanceConcentration(i128),
}

/// What the guardian read from the protocol for one transaction.
#[derive(Clone, Copy, Debug, PartialEq, Eq, Structural)]
pub struct ThreatReadings {
    /// Number of price changes in the last five minutes.
    pub recent_price_changes: u32,
    /// Amount from which a liquidation counts as large.
    pub liquidation_threshold: i128,
    /// Voting power of the transaction's sender.
    pub voting_power: i128,
    /// Voting power of all holders together.
    pub total_voting_power: i128,
}

/// The record of an emergency pause.
pub struct PauseRecord {
    pub reason: String,
    pub paused_at: u64,
    pub paused_by: String,
}

/// A `PauseRecord` as a plain value.
pub struct PauseView {
    pub reason: Seq<char>,
    pub paused_at: u64,
    pub paused_by: Seq<char>,
}

impl View for PauseRecord {
    type V = PauseView;

    open spec fn view(&self) -> PauseView {
        PauseView { reason: self.reason@, paused_at: self.paused_at, paused_by: self.paused_by@ }
    }
}

/// Whether `needle` occurs in `haystack` as a contiguous run of characters.
pub open spec fn occurs_in(haystack: Seq<char>, needle: Seq<char>) -> bool {
    exists|i: int|
        0 <= i <= haystack.len() - needle.len() && #[trigger] haystack.subrange(
            i,
            i + needle.len(),
        ) == needle
}

/// `str::contains` of the standard library with a string as the pattern:
/// true exactly when the pattern occurs somewhere in the text.
#[verifier::external_body]
fn text_contains(haystack: &String, needle: &str) -> (found: bool)
    ensures
        found == occurs_in(haystack@, needle@),
{
    haystack.contains(needle)
}

/// Whether `t` is a transaction of `user` no older than the pattern window.
pub open spec fn is_recent(t: TransactionView, user: Seq<char>, now: u64) -> bool {
    t.user == user && now as int - t.timestamp as int <= PATTERN_WINDOW_SECONDS as int
}

/// Number of recent transactions of `user`.
pub open spec fn recent_count(txs: Seq<TransactionView>, user: Seq<char>, now: u64) -> int
    decreases txs.len(),
{
    if txs.len() == 0 {
        0
    } else {
        recent_count(txs.drop_last(), user, now) + if is_recent(txs.last(), user, now) {
            1int
        } else {
            0int
        }
    }
}

/// Sum of the amounts of the recent transactions of `user`.
pub open spec fn recent_volume(txs: Seq<TransactionView>, user: Seq<char>, now: u64) -> int
    decreases txs.len(),
{
    if txs.len() == 0 {
        0
    } else {
        recent_volume(txs.drop_last(), user, now) + if is_recent(txs.last(), user, now) {
            txs.last().amount as int
        } else {
            0
        }
    }
}

/// No prefix of the log holds more recent transactions than the whole.
pub proof fn lemma_recent_count_grows(txs: Seq<TransactionView>, i: int, user: Seq<char>, now: u64)
    requires
        0 <= i <= txs.len(),
    ensures
        0 <= recent_count(txs.take(i), user, now) <= recent_count(txs, user, now),
    decreases txs.len(),
{
    if i == txs.len() {
        assert(txs.take(i) =~= txs);
        if txs.len() > 0 {
            lemma_recent_count_grows(txs.drop_last(), i - 1, user, now);
            assert(txs.drop_last().take(i - 1) =~= txs.drop_last());
        }
    } else {
        lemma_recent_count_grows(txs.drop_last(), i, user, now);
        assert(txs.drop_last().take(i) =~= txs.take(i));
    }
}

/// Two to the power of 64, the base in which large sums are held.
pub const LIMB: i128 = 0x1_0000_0000_0000_0000i128;

/// Splits `a` into a high part and a low part below `LIMB`, so that sums of
/// many such integers can be formed part by part.
pub fn split_limbs(a: i128) -> (out: (i128, i128))
    ensures
        a as int == out.0 as int * LIMB as int + out.1 as int,
        0 <= out.1 < LIMB,
        -0x8000_0000_0000_0000 <= out.0 < 0x8000_0000_0000_0000,
{
    if a >= 0 {
        (a / LIMB, a % LIMB)
    } else {
        let m: i128 = -(a + 1);
        (-(m / LIMB) - 1, LIMB - 1 - (m % LIMB))
    }
}

/// The patterns that make activity suspicious: more than ten transactions
/// in the window, a volume above a tenth of the pool's reserves, or a flash
/// loan after more than three transactions.
pub open spec fn suspicious(count: int, volume: int, pool_reserves: i128, action: Seq<char>) -> bool {
    count > 10 || volume > quotient_toward_zero(pool_reserves as int, 10) || (action
        == "flash_loan"@ && count > 3)
}

/// The alerts that `metrics` call for at `now`.
pub open spec fn alerts_for(metrics: SystemMetrics, tvl_threshold: i128, now: u64) -> Seq<
    AlertView,
> {
    let tvl = if metrics.total_value_locked < tvl_threshold {
        seq![
            AlertView {
                level: AlertLevel::High,
                message: "TVL dropped below threshold"@,
                timestamp: now,
            },
        ]
    } else {
        Seq::<AlertView>::empty()
    };
    let deviation = if metrics.oracle_price_deviation > 1000 {
        seq![
            AlertView {
                level: AlertLevel::Critical,
                message: "High oracle price deviation detected"@,
                timestamp: now,
            },
        ]
    } else {
        Seq::<AlertView>::empty()
    };
    tvl + deviation
}

/// The threats that a transaction raises.
pub open spec fn threats_for(action: Seq<char>, amount: i128, readings: ThreatReadings) -> Seq<
    Threat,
> {
    let oracle = if (occurs_in(action, "oracle"@) || occurs_in(action, "price"@))
        && readings.recent_price_changes > 5 {
        seq![Threat::OracleManipulation]
    } else {
        Seq::<Threat>::empty()
    };
    let liquidation = if action == "liquidate"@ && amount > readings.liquidation_threshold {
        seq![Threat::LargeLiquidation(amount)]
    } else {
        Seq::<Threat>::empty()
    };
    let governance = if (occurs_in(action, "vote"@) || occurs_in(action, "propose"@))
        && readings.voting_power > quotient_toward_zero(readings.total_voting_power as int, 3) {
        seq![Threat::GovernanceConcentration(readings.voting_power)]
    } else {
        Seq::<Threat>::empty()
    };
    oracle + liquidation + governance
}

/// The guardian's own state: who may pause, what is paused, and the log of
/// observed transactions.
pub struct SecurityGuardian {
    pub guardians: Vec<String>,
    pub protocol_contracts: Vec<String>,
    pub pause: Option<PauseRecord>,
    pub transactions: Vec<TransactionRecord>,
}

impl SecurityGuardian {
    /// A guardian for `protocol_contracts`, with nothing paused or logged.
    pub fn new(guardians: Vec<String>, protocol_contracts: Vec<String>) -> (guardian: Self)
        ensures
            guardian.guardians == guardians,
            guardian.protocol_contracts == protocol_contracts,
            guardian.pause.is_none(),
            guardian.transactions@.len() == 0,
    {
        SecurityGuardian { guardians, protocol_contracts, pause: None, transactions: Vec::new() }
    }

    /// Whether an emergency pause is in force.
    pub fn is_paused(&self) -> (paused: bool)
        ensures
            paused == self.pause.is_some(),
    {
        self.pause.is_some()
    }

    /// Puts the readings of one moment together.
    pub fn collect_metrics(
        total_value_locked: i128,
        active_users_24h: u32,
        transaction_volume_24h: i128,
        health_factor_avg: i128,
        oracle_price_deviation: u32,
        gas_price_avg: u32,
        timestamp: u64,
    ) -> (metrics: SystemMetrics)
        ensures
            metrics == (SystemMetrics {
                total_value_locked,
                active_users_24h,
                transaction_volume_24h,
                health_factor_avg,
                oracle_price_deviation,
                gas_price_avg,
                timestamp,
            }),
    {
        SystemMetrics {
            total_value_locked,
            active_users_24h,
            transaction_volume_24h,
            health_factor_avg,
            oracle_price_deviation,
            gas_price_avg,
            timestamp,
        }
    }

    /// The alerts that `metrics` call for: one of level high when the value
    /// locked is below `tvl_threshold`, then one of level critical when the
    /// oracle's deviation is above 10%.
    pub fn check_alert_conditions(metrics: &SystemMetrics, tvl_threshold: i128, now: u64) -> (alerts:
        Vec<Alert>)
        ensures
            alert_views(alerts@) == alerts_for(*metrics, tvl_threshold, now),
    {
        let mut alerts: Vec<Alert> = Vec::new();
        if metrics.total_value_locked < tvl_threshold {
            alerts.push(
                Alert {
                    level: AlertLevel::High,
                    message: "TVL dropped below threshold".to_owned(),
                    timestamp: now,
                },
            );
        }
        if metrics.oracle_price_deviation > 1000 {
            alerts.push(
                Alert {
                    level: AlertLevel::Critical,
                    message: "High oracle price deviation detected".to_owned(),
                    timestamp: now,
                },
            );
        }
        assert(alert_views(alerts@) =~= alerts_for(*metrics, tvl_threshold, now));
        alerts
    }

    /// Records an emergency pause of every protocol contract, asked for by
    /// `guardian` at `now`. Refused, with nothing changed, when `guardian`
    /// is not among the guardians.
    pub fn emergency_pause_all(&mut self, guardian: String, reason: String, now: u64) -> (out:
        Result<(), SecurityError>)
        ensures
            final(self).guardians == old(self).guardians,
            final(self).protocol_contracts == old(self).protocol_contracts,
            final(self).transactions == old(self).transactions,
            match out {
                Ok(()) => texts(old(self).guardians@).contains(guardian@) && final(self).pause.is_some()
                    && final(self).pause.unwrap()@ == (PauseView {
                    reason: reason@,
                    paused_at: now,
                    paused_by: guardian@,
                }),
                Err(e) => e == SecurityError::Unauthorized && !texts(old(self).guardians@).contains(
                    guardian@,
                ) && final(self).pause == old(self).pause,
            },
    {
        if !contains_text(&self.guardians, &guardian) {
            return Err(SecurityError::Unauthorized);
        }
        self.pause = Some(PauseRecord { reason, paused_at: now, paused_by: guardian });
        Ok(())
    }

    /// Whether the recent transactions of `user` in the log show a
    /// suspicious pattern, given the reserves of the pool that `user` now
    /// acts on. The volume is compared exactly, however large the amounts.
    pub fn analyze_transaction_pattern(
        &self,
        user: &String,
        action: &String,
        pool_reserves: i128,
        now: u64,
    ) -> (out: Result<bool, SecurityError>)
        ensures
            out == Ok::<bool, SecurityError>(
                suspicious(
                    recent_count(transaction_views(self.transactions@), user@, now),
                    recent_volume(transaction_views(self.transactions@), user@, now),
                    pool_reserves,
                    action@,
                ),
            ),
    {
        let ghost txs = transaction_views(self.transactions@);
        let n: usize = self.transactions.len();
        let mut count: usize = 0;
        let mut i: usize = 0;
        while i < n
            invariant
                txs == transaction_views(self.transactions@),
                n == self.transactions@.len(),
                i <= n,
                count <= i,
                count as int == recent_count(txs.take(i as int), user@, now),
            decreases n - i,
        {
            proof {
                assert(txs.take(i + 1).drop_last() =~= txs.take(i as int));
                assert(txs.take(i + 1).last() == self.transactions@[i as int]@);
            }
            let t = &self.transactions[i];
            if t.user == *user && (now <= t.timestamp || now - t.timestamp
                <= PATTERN_WINDOW_SECONDS) {
                count = count + 1;
            }
            i += 1;
        }
        proof {
            assert(txs.take(n as int) =~= txs);
        }
        if count > 10 {
            return Ok(true);
        }
        let mut high: i128 = 0;
        let mut low: i128 = 0;
        let mut seen: usize = 0;
        let mut j: usize = 0;
        while j < n
            invariant
                txs == transaction_views(self.transactions@),
                n == self.transactions@.len(),
                j <= n,
                count as int == recent_count(txs, user@, now),
                count <= 10,
                seen as int == recent_count(txs.take(j as int), user@, now),
                seen <= 10,
                high as int * LIMB as int + low as int == recent_volume(
                    txs.take(j as int),
                    user@,
                    now,
                ),
                -(seen as int) * 0x8000_0000_0000_0000 <= high as int <= seen as int
                    * 0x8000_0000_0000_0000,
                0 <= low as int <= seen as int * LIMB as int,
            decreases n - j,
        {
            proof {
                assert(txs.take(j + 1).drop_last() =~= txs.take(j as int));
                assert(txs.take(j + 1).last() == self.transactions@[j as int]@);
                lemma_recent_count_grows(txs, j + 1, user@, now);
            }
            let t = &self.transactions[j];
            if t.user == *user && (now <= t.timestamp || now - t.timestamp
                <= PATTERN_WINDOW_SECONDS) {
                let (h, l) = split_limbs(t.amount);
                high = high + h;
                low = low + l;
                seen = seen + 1;
            }
            j += 1;
        }
        proof {
            assert(txs.take(n as int) =~= txs);
        }
        let carried: i128 = high + low / LIMB;
        let rest: i128 = low % LIMB;
        let (limit_high, limit_low) = split_limbs(pool_reserves / 10);
        let exceeds: bool = carried > limit_high || (carried == limit_high && rest > limit_low);
        let flash: String = "flash_loan".to_owned();
        Ok(exceeds || (*action == flash && count > 3))
    }

    /// Whether the activity of `user` is suspicious; the caller raises the
    /// alert when it is.
    pub fn check_suspicious_activity(
        &self,
        user: &String,
        action: &String,
        pool_reserves: i128,
        now: u64,
    ) -> (out: Result<bool, SecurityError>)
        ensures
            out == Ok::<bool, SecurityError>(
                suspicious(
                    recent_count(transaction_views(self.transactions@), user@, now),
                    recent_volume(transaction_views(self.transactions@), user@, now),
                    pool_reserves,
                    action@,
                ),
            ),
    {
        self.analyze_transaction_pattern(user, action, pool_reserves, now)
    }

    /// The red flags that one transaction raises at once, in this order:
    /// oracle manipulation, large liquidation, governance concentration.
    pub fn check_immediate_threats(action: &String, amount: i128, readings: &ThreatReadings) -> (threats:
        Vec<Threat>)
        ensures
            threats@ == threats_for(action@, amount, *readings),
    {
        let mut threats: Vec<Threat> = Vec::new();
        if (text_contains(action, "oracle") || text_contains(action, "price"))
            && readings.recent_price_changes > 5 {
            threats.push(Threat::OracleManipulation);
        }
        let liquidate: String = "liquidate".to_owned();
        if *action == liquidate && amount > readings.liquidation_threshold {
            threats.push(Threat::LargeLiquidation(amount));
        }
        if (text_contains(action, "vote") || text_contains(action, "propose"))
            && readings.voting_power > readings.total_voting_power / 3 {
            threats.push(Threat::GovernanceConcentration(readings.voting_power));
        }
        assert(threats@ =~= threats_for(action@, amount, *readings));
        threats
    }

    /// Appends the transaction to the log and returns the red flags that it
    /// raises at once.
    pub fn monitor_transaction(&mut self, record: TransactionRecord, readings: &ThreatReadings) -> (threats:
        Vec<Threat>)
        ensures
            final(self).guardians == old(self).guardians,
            final(self).protocol_contracts == old(self).protocol_contracts,
            final(self).pause == old(self).pause,
            final(self).transactions@ == old(self).transactions@.push(record),
            threats@ == threats_for(record.action@, record.amount, *readings),
    {
        let threats = Self::check_immediate_threats(&record.action, record.amount, readings);
        self.transactions.push(record);
        threats
    }
}

} // verus!
