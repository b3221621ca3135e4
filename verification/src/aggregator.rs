//! The pull-based engine: instead of taking submissions it combines what a
//! configured list of external feeds answered, with the same weighted
//! average and the same deviation formula as the push-based oracle.

use vstd::prelude::*;
use crate::feed::{check_fresh, is_fresh};
use vstd::arithmetic::div_mod::lemma_fundamental_div_mod_converse_div;
use crate::pricing::{
    add_scaled,
    calculate_deviation_bps,
    deviation_bps_capped,
    quotient_toward_zero,
    unsigned_magnitude,
    MAGNITUDE_LIMIT,
};
use crate::store::KeyedStore;
use crate::types::OracleError;

verus! {

/// Seconds within which a price change is judged by the breaker.
pub const BREAKER_WINDOW_SECONDS: u64 = 300;

/// Price change in basis points beyond which the breaker triggers.
pub const BREAKER_LIMIT_BPS: u32 = 5000;

/// One external feed configured for an asset.
#[derive(Clone, Debug)]
pub struct OracleSource {
    /// Address of the feed.
    pub oracle: String,
    /// Weight of the feed in the average.
    pub weight: u32,
    /// Time of the last update taken from the feed.
    pub last_update: u64,
    /// Whether the feed is asked at all.
    pub is_active: bool,
}

/// An `OracleSource` as a plain value.
pub struct OracleSourceView {
    pub oracle: Seq<char>,
    pub weight: u32,
    pub last_update: u64,
    pub is_active: bool,
}

impl View for OracleSource {
    type V = OracleSourceView;

    open spec fn view(&self) -> OracleSourceView {
        OracleSourceView {
            oracle: self.oracle@,
            weight: self.weight,
            last_update: self.last_update,
            is_active: self.is_active,
        }
    }
}

/// The views of a list of feeds.
pub open spec fn source_views(list: Seq<OracleSource>) -> Seq<OracleSourceView> {
    Seq::new(list.len(), |i: int| list[i]@)
}

/// A manual price installed by an emergency responder.
#[derive(Clone, Debug)]
pub struct EmergencyPrice {
    pub price: i128,
    pub set_at: u64,
    pub expires_at: u64,
    pub set_by: String,
}

/// An `EmergencyPrice` as a plain value.
pub struct EmergencyPriceView {
    pub price: i128,
    pub set_at: u64,
    pub expires_at: u64,
    pub set_by: Seq<char>,
}

impl View for EmergencyPrice {
    type V = EmergencyPriceView;

    open spec fn view(&self) -> EmergencyPriceView {
        EmergencyPriceView {
            price: self.price,
            set_at: self.set_at,
            expires_at: self.expires_at,
            set_by: self.set_by@,
        }
    }
}

/// What one feed answered in time, with the feed's weight.
#[derive(Clone, Copy, Debug, PartialEq, Eq, Structural)]
pub struct Reading {
    pub price: i128,
    pub weight: u32,
    pub timestamp: u64,
}

/// An aggregated price and the time of the latest answer behind it.
#[derive(Clone, Copy, Debug, PartialEq, Eq, Structural)]
pub struct PricePoint {
    pub price: i128,
    pub timestamp: u64,
}

/// A feed whose price lies further from the aggregate than the threshold.
#[derive(Clone, Copy, Debug, PartialEq, Eq, Structural)]
pub struct DeviationAlert {
    pub price: i128,
    pub deviation_bps: u32,
}

/// The outcome of a successful read.
pub struct PriceReport {
    /// The aggregated price and the latest timestamp among the answers.
    pub point: PricePoint,
    /// Number of feeds that answered in time.
    pub valid_prices: usize,
    /// Sum of their weights.
    pub total_weight: u128,
    /// The answers that deviate from the aggregate beyond the threshold.
    /// They are reported, not refused.
    pub alerts: Vec<DeviationAlert>,
}

/// The answer of the feed at index `i`; a feed without an entry did not
/// answer.
pub open spec fn response_at(responses: Seq<Option<(i128, u64)>>, i: int) -> Option<(i128, u64)> {
    if 0 <= i < responses.len() {
        responses[i]
    } else {
        None
    }
}

/// The answers that count: those of active feeds, no older than `timeout`.
pub open spec fn valid_readings(
    sources: Seq<OracleSourceView>,
    responses: Seq<Option<(i128, u64)>>,
    now: u64,
    timeout: u64,
) -> Seq<Reading>
    decreases sources.len(),
{
    if sources.len() == 0 {
        Seq::<Reading>::empty()
    } else {
        let rest = valid_readings(sources.drop_last(), responses, now, timeout);
        let source = sources.last();
        match response_at(responses, sources.len() - 1) {
            Some(answer) => if source.is_active && is_fresh(now, answer.1, timeout) {
                rest.push(Reading { price: answer.0, weight: source.weight, timestamp: answer.1 })
            } else {
                rest
            },
            None => rest,
        }
    }
}

/// No more answers count than feeds are configured.
pub proof fn lemma_valid_readings_bounded(
    sources: Seq<OracleSourceView>,
    responses: Seq<Option<(i128, u64)>>,
    now: u64,
    timeout: u64,
)
    ensures
        valid_readings(sources, responses, now, timeout).len() <= sources.len(),
    decreases sources.len(),
{
    if sources.len() > 0 {
        lemma_valid_readings_bounded(sources.drop_last(), responses, now, timeout);
    }
}

/// Sum of price times weight over the readings.
pub open spec fn reading_total(readings: Seq<Reading>) -> int
    decreases readings.len(),
{
    if readings.len() == 0 {
        0
    } else {
        reading_total(readings.drop_last()) + readings.last().price as int
            * readings.last().weight as int
    }
}

/// Sum of price times weight over the readings whose price is not negative.
pub open spec fn gains_total(readings: Seq<Reading>) -> int
    decreases readings.len(),
{
    if readings.len() == 0 {
        0
    } else {
        gains_total(readings.drop_last()) + if readings.last().price >= 0 {
            readings.last().price as int * readings.last().weight as int
        } else {
            0
        }
    }
}

/// Sum of magnitude times weight over the readings whose price is negative.
pub open spec fn losses_total(readings: Seq<Reading>) -> int
    decreases readings.len(),
{
    if readings.len() == 0 {
        0
    } else {
        losses_total(readings.drop_last()) + if readings.last().price < 0 {
            -(readings.last().price as int) * readings.last().weight as int
        } else {
            0
        }
    }
}

/// Sum of the weights of the readings.
pub open spec fn reading_weight(readings: Seq<Reading>) -> int
    decreases readings.len(),
{
    if readings.len() == 0 {
        0
    } else {
        reading_weight(readings.drop_last()) + readings.last().weight as int
    }
}

/// The latest timestamp among the readings, 0 without any.
pub open spec fn latest_timestamp(readings: Seq<Reading>) -> u64
    decreases readings.len(),
{
    if readings.len() == 0 {
        0
    } else {
        let before = latest_timestamp(readings.drop_last());
        if readings.last().timestamp > before {
            readings.last().timestamp
        } else {
            before
        }
    }
}

/// The readings that deviate from `aggregated` by more than `threshold`
/// basis points, each with its deviation.
pub open spec fn deviation_alerts(readings: Seq<Reading>, aggregated: i128, threshold: u32) -> Seq<
    DeviationAlert,
>
    decreases readings.len(),
{
    if readings.len() == 0 {
        Seq::<DeviationAlert>::empty()
    } else {
        let rest = deviation_alerts(readings.drop_last(), aggregated, threshold);
        let deviation = deviation_bps_capped(readings.last().price as int, aggregated as int);
        if deviation > threshold {
            rest.push(
                DeviationAlert { price: readings.last().price, deviation_bps: deviation as u32 },
            )
        } else {
            rest
        }
    }
}

/// Why the readings cannot be averaged, if they cannot: their weights add
/// up to zero.
pub open spec fn average_error(readings: Seq<Reading>) -> Option<OracleError> {
    if reading_weight(readings) == 0 {
        Some(OracleError::NoWeight)
    } else {
        None
    }
}

/// The weighted average of the readings, rounded toward zero, with the
/// latest of their timestamps.
pub open spec fn average_of(readings: Seq<Reading>) -> PricePoint {
    PricePoint {
        price: quotient_toward_zero(reading_total(readings), reading_weight(readings)) as i128,
        timestamp: latest_timestamp(readings),
    }
}

/// The sums over a prefix: the total is gains less losses, each part is
/// bounded by the largest magnitude times the weight, and the weight of a
/// prefix never exceeds that of the whole.
pub proof fn lemma_reading_parts(readings: Seq<Reading>, i: int)
    requires
        0 <= i <= readings.len(),
    ensures
        0 <= reading_weight(readings.take(i)) <= reading_weight(readings),
        reading_weight(readings.take(i)) <= i * 0xFFFF_FFFF,
        reading_total(readings.take(i)) == gains_total(readings.take(i)) - losses_total(
            readings.take(i),
        ),
        0 <= gains_total(readings.take(i)) <= i128::MAX * reading_weight(readings.take(i)),
        0 <= losses_total(readings.take(i)) <= MAGNITUDE_LIMIT * reading_weight(
            readings.take(i),
        ),
    decreases readings.len(),
{
    if i == readings.len() {
        assert(readings.take(i) =~= readings);
        if readings.len() > 0 {
            lemma_reading_parts(readings.drop_last(), i - 1);
            assert(readings.drop_last().take(i - 1) =~= readings.drop_last());
            let p = readings.last().price as int;
            let w = readings.last().weight as int;
            assert(p >= 0 ==> 0 <= p * w <= i128::MAX * w) by (nonlinear_arith)
                requires
                    p <= i128::MAX,
                    w >= 0,
            ;
            assert(p < 0 ==> 0 <= -p * w <= MAGNITUDE_LIMIT * w && p * w == -(-p * w))
                by (nonlinear_arith)
                requires
                    -p <= MAGNITUDE_LIMIT,
                    w >= 0,
            ;
        }
    } else {
        lemma_reading_parts(readings.drop_last(), i);
        assert(readings.drop_last().take(i) =~= readings.take(i));
    }
}

/// Collects the answers that count: `responses` holds, at the index of each
/// feed, what the feed answered, or nothing where it failed.
pub fn collect_readings(
    sources: &Vec<OracleSource>,
    responses: &Vec<Option<(i128, u64)>>,
    now: u64,
    timeout: u64,
) -> (readings: Vec<Reading>)
    ensures
        readings@ == valid_readings(source_views(sources@), responses@, now, timeout),
        readings@.len() <= sources@.len(),
{
    let ghost all = source_views(sources@);
    let mut readings: Vec<Reading> = Vec::new();
    let mut i: usize = 0;
    while i < sources.len()
        invariant
            all == source_views(sources@),
            i <= sources.len(),
            readings@.len() <= i,
            readings@ == valid_readings(all.take(i as int), responses@, now, timeout),
        decreases sources.len() - i,
    {
        proof {
            assert(all.take(i + 1).drop_last() =~= all.take(i as int));
            assert(all.take(i + 1).last() == sources@[i as int]@);
        }
        if sources[i].is_active && i < responses.len() {
            match responses[i] {
                Some(answer) => {
                    if check_fresh(now, answer.1, timeout) {
                        readings.push(
                            Reading {
                                price: answer.0,
                                weight: sources[i].weight,
                                timestamp: answer.1,
                            },
                        );
                    }
                },
                None => {},
            }
        }
        i += 1;
    }
    proof {
        assert(all.take(sources.len() as int) =~= all);
    }
    readings
}

/// The weighted average of the readings, exact whatever the prices, and the
/// latest of their timestamps, together with the total weight.
///
/// Fails with `NoWeight` when the weights add up to zero.
pub fn average_readings(readings: &Vec<Reading>) -> (out: Result<(PricePoint, u128), OracleError>)
    ensures
        match out {
            Ok(found) => average_error(readings@).is_none() && found.0 == average_of(readings@)
                && found.1 == reading_weight(readings@),
            Err(e) => average_error(readings@) == Some(e),
        },
{
    let n: usize = readings.len();
    let mut weight: u128 = 0;
    let mut latest: u64 = 0;
    let mut i: usize = 0;
    while i < n
        invariant
            n == readings@.len(),
            i <= n,
            weight as int == reading_weight(readings@.take(i as int)),
            weight <= i * 0xFFFF_FFFF,
            latest == latest_timestamp(readings@.take(i as int)),
        decreases n - i,
    {
        proof {
            assert(readings@.take(i + 1).drop_last() =~= readings@.take(i as int));
            assert(readings@.take(i + 1).last() == readings@[i as int]);
        }
        let r: Reading = readings[i];
        weight = weight + r.weight as u128;
        if r.timestamp > latest {
            latest = r.timestamp;
        }
        i += 1;
    }
    proof {
        assert(readings@.take(n as int) =~= readings@);
    }
    if weight == 0 {
        return Err(OracleError::NoWeight);
    }
    let mut gains: (u128, u128) = (0, 0);
    let mut losses: (u128, u128) = (0, 0);
    let mut j: usize = 0;
    proof {
        assert(readings@.take(0).len() == 0);
        assert(0 * weight as int == 0) by (nonlinear_arith);
    }
    while j < n
        invariant
            n == readings@.len(),
            j <= n,
            weight as int == reading_weight(readings@),
            0 < weight <= n * 0xFFFF_FFFF,
            gains.0 as int * weight as int + gains.1 as int == gains_total(
                readings@.take(j as int),
            ),
            losses.0 as int * weight as int + losses.1 as int == losses_total(
                readings@.take(j as int),
            ),
            gains.1 < weight,
            losses.1 < weight,
        decreases n - j,
    {
        proof {
            assert(readings@.take(j + 1).drop_last() =~= readings@.take(j as int));
            assert(readings@.take(j + 1).last() == readings@[j as int]);
            lemma_reading_parts(readings@, j as int);
            lemma_reading_parts(readings@, j + 1);
        }
        let r: Reading = readings[j];
        let m: u128 = unsigned_magnitude(r.price);
        if r.price >= 0 {
            gains = add_scaled(gains.0, gains.1, m, r.weight, weight);
        } else {
            losses = add_scaled(losses.0, losses.1, m, r.weight, weight);
        }
        j += 1;
    }
    let ghost total = reading_total(readings@);
    let ghost big = weight as int;
    proof {
        assert(readings@.take(n as int) =~= readings@);
        lemma_reading_parts(readings@, n as int);
        assert(gains.0 <= i128::MAX) by (nonlinear_arith)
            requires
                gains.0 as int * big + gains.1 as int <= i128::MAX * big,
                0 <= gains.1 as int,
                big > 0,
        ;
        assert(losses.0 <= MAGNITUDE_LIMIT) by (nonlinear_arith)
            requires
                losses.0 as int * big + losses.1 as int <= MAGNITUDE_LIMIT as int * big,
                0 <= losses.1 as int,
                big > 0,
        ;
    }
    let price: i128 = if gains.0 > losses.0 || (gains.0 == losses.0 && gains.1 >= losses.1) {
        let d: u128 = if gains.1 >= losses.1 {
            gains.0 - losses.0
        } else {
            gains.0 - losses.0 - 1
        };
        proof {
            let rest = if gains.1 >= losses.1 {
                gains.1 as int - losses.1 as int
            } else {
                big + gains.1 as int - losses.1 as int
            };
            assert(total == d as int * big + rest) by (nonlinear_arith)
                requires
                    total == (gains.0 as int * big + gains.1 as int) - (losses.0 as int * big
                        + losses.1 as int),
                    (d as int == gains.0 as int - losses.0 as int && rest == gains.1 as int
                        - losses.1 as int) || (d as int == gains.0 as int - losses.0 as int - 1
                        && rest == big + gains.1 as int - losses.1 as int),
            ;
            assert(total >= 0) by (nonlinear_arith)
                requires
                    total == d as int * big + rest,
                    d as int >= 0,
                    big > 0,
                    rest >= 0,
            ;
            lemma_fundamental_div_mod_converse_div(total, big, d as int, rest);
        }
        d as i128
    } else {
        let d: u128 = if losses.1 >= gains.1 {
            losses.0 - gains.0
        } else {
            losses.0 - gains.0 - 1
        };
        proof {
            let rest = if losses.1 >= gains.1 {
                losses.1 as int - gains.1 as int
            } else {
                big + losses.1 as int - gains.1 as int
            };
            assert(-total == d as int * big + rest) by (nonlinear_arith)
                requires
                    total == (gains.0 as int * big + gains.1 as int) - (losses.0 as int * big
                        + losses.1 as int),
                    (d as int == losses.0 as int - gains.0 as int && rest == losses.1 as int
                        - gains.1 as int) || (d as int == losses.0 as int - gains.0 as int - 1
                        && rest == big + losses.1 as int - gains.1 as int),
            ;
            assert(-total > 0) by (nonlinear_arith)
                requires
                    -total == d as int * big + rest,
                    d as int >= 0,
                    big > 0,
                    rest >= 0,
                    d as int > 0 || rest > 0,
            ;
            lemma_fundamental_div_mod_converse_div(-total, big, d as int, rest);
        }
        if d == MAGNITUDE_LIMIT {
            i128::MIN
        } else {
            -(d as i128)
        }
    };
    Ok((PricePoint { price, timestamp: latest }, weight))
}

/// Lists the readings that deviate from `aggregated` by more than
/// `threshold` basis points. Nothing is refused on their account.
pub fn validate_price_deviation(aggregated: i128, readings: &Vec<Reading>, threshold: u32) -> (alerts:
    Vec<DeviationAlert>)
    ensures
        alerts@ == deviation_alerts(readings@, aggregated, threshold),
{
    let mut alerts: Vec<DeviationAlert> = Vec::new();
    let mut i: usize = 0;
    while i < readings.len()
        invariant
            i <= readings.len(),
            alerts@ == deviation_alerts(readings@.take(i as int), aggregated, threshold),
        decreases readings.len() - i,
    {
        proof {
            assert(readings@.take(i + 1).drop_last() =~= readings@.take(i as int));
            assert(readings@.take(i + 1).last() == readings@[i as int]);
        }
        let deviation: u32 = calculate_deviation_bps(readings[i].price, aggregated);
        if deviation > threshold {
            alerts.push(DeviationAlert { price: readings[i].price, deviation_bps: deviation });
        }
        i += 1;
    }
    proof {
        assert(readings@.take(readings.len() as int) =~= readings@);
    }
    alerts
}

/// Whether a move from `last` to `new_price`, seen at `now`, triggers the
/// breaker: a change of more than 50% within five minutes of the last
/// aggregate.
pub open spec fn breaker_triggers(last: Option<PricePoint>, new_price: i128, now: u64) -> bool {
    match last {
        Some(point) => (now as int - point.timestamp as int) < (BREAKER_WINDOW_SECONDS as int)
            && deviation_bps_capped(new_price as int, point.price as int) > BREAKER_LIMIT_BPS,
        None => false,
    }
}

/// The pull-based aggregator: its settings and, for each asset, the
/// configured feeds, the last aggregate and the emergency price.
pub struct OracleAggregator {
    pub initialized: bool,
    pub admin: String,
    pub price_deviation_threshold: u32,
    pub heartbeat_timeout: u64,
    pub min_oracles_required: u32,
    pub sources: KeyedStore<Vec<OracleSource>>,
    pub aggregated: KeyedStore<PricePoint>,
    pub emergency: KeyedStore<EmergencyPrice>,
}

impl OracleAggregator {
    /// The invariant of the stores.
    pub open spec fn wf(&self) -> bool {
        self.sources.wf() && self.aggregated.wf() && self.emergency.wf()
    }

    /// The feeds configured for `asset`.
    pub open spec fn sources_of(&self, asset: Seq<char>) -> Seq<OracleSourceView> {
        if self.sources@.contains_key(asset) {
            source_views(self.sources@[asset]@)
        } else {
            Seq::<OracleSourceView>::empty()
        }
    }

    /// The last aggregate of `asset`.
    pub open spec fn last_aggregate(&self, asset: Seq<char>) -> Option<PricePoint> {
        if self.aggregated@.contains_key(asset) {
            Some(self.aggregated@[asset])
        } else {
            None
        }
    }

    /// Everything but the store of aggregates is the same in both.
    pub open spec fn same_settings(&self, other: &Self) -> bool {
        &&& self.initialized == other.initialized
        &&& self.admin@ == other.admin@
        &&& self.price_deviation_threshold == other.price_deviation_threshold
        &&& self.heartbeat_timeout == other.heartbeat_timeout
        &&& self.min_oracles_required == other.min_oracles_required
    }

    /// Whether `oracle` is among `sources`.
    pub open spec fn has_oracle(sources: Seq<OracleSourceView>, oracle: Seq<char>) -> bool {
        exists|i: int| 0 <= i < sources.len() && (#[trigger] sources[i]).oracle == oracle
    }

    /// An aggregator that awaits `initialize`: no admin, zero settings, no records.
    pub fn new() -> (aggregator: Self)
        ensures
            aggregator.wf(),
            !aggregator.initialized,
            aggregator.admin@ == Seq::<char>::empty(),
            aggregator.price_deviation_threshold == 0,
            aggregator.heartbeat_timeout == 0,
            aggregator.min_oracles_required == 0,
            aggregator.sources@ == Map::<Seq<char>, Vec<OracleSource>>::empty(),
            aggregator.aggregated@ == Map::<Seq<char>, PricePoint>::empty(),
            aggregator.emergency@ == Map::<Seq<char>, EmergencyPrice>::empty(),
    {
        OracleAggregator {
            initialized: false,
            admin: String::new(),
            price_deviation_threshold: 0,
            heartbeat_timeout: 0,
            min_oracles_required: 0,
            sources: KeyedStore::new(),
            aggregated: KeyedStore::new(),
            emergency: KeyedStore::new(),
        }
    }

    /// Sets the admin and the settings, once.
    pub fn initialize(
        &mut self,
        admin: String,
        price_deviation_threshold: u32,
        heartbeat_timeout: u64,
        min_oracles_required: u32,
    ) -> (out: Result<(), OracleError>)
        ensures
            final(self).sources == old(self).sources,
            final(self).aggregated == old(self).aggregated,
            final(self).emergency == old(self).emergency,
            match out {
                Ok(()) => {
                    &&& !old(self).initialized
                    &&& final(self).initialized
                    &&& final(self).admin@ == admin@
                    &&& final(self).price_deviation_threshold == price_deviation_threshold
                    &&& final(self).heartbeat_timeout == heartbeat_timeout
                    &&& final(self).min_oracles_required == min_oracles_required
                },
                Err(e) => e == OracleError::AlreadyInitialized && old(self).initialized
                    && *final(self) == *old(self),
            },
    {
        if self.initialized {
            return Err(OracleError::AlreadyInitialized);
        }
        self.admin = admin;
        self.price_deviation_threshold = price_deviation_threshold;
        self.heartbeat_timeout = heartbeat_timeout;
        self.min_oracles_required = min_oracles_required;
        self.initialized = true;
        Ok(())
    }

    /// Why `add_oracle_source` is refused, if it is.
    pub open spec fn add_source_error(&self, caller: Seq<char>, asset: Seq<char>, oracle: Seq<char>) -> Option<
        OracleError,
    > {
        if !self.initialized || caller != self.admin@ {
            Some(OracleError::Unauthorized)
        } else if Self::has_oracle(self.sources_of(asset), oracle) {
            Some(OracleError::OracleAlreadyExists)
        } else {
            None
        }
    }

    /// Adds `oracle` as the last feed of `asset`, active, with `weight`.
    /// Only the admin may, and no feed twice.
    pub fn add_oracle_source(&mut self, caller: &String, asset: String, oracle: String, weight: u32) -> (out:
        Result<(), OracleError>)
        requires
            old(self).wf(),
        ensures
            final(self).wf(),
            final(self).same_settings(old(self)),
            final(self).aggregated == old(self).aggregated,
            final(self).emergency == old(self).emergency,
            match out {
                Ok(()) => {
                    &&& old(self).add_source_error(caller@, asset@, oracle@).is_none()
                    &&& final(self).sources_of(asset@) == old(self).sources_of(asset@).push(
                        OracleSourceView { oracle: oracle@, weight, last_update: 0, is_active: true },
                    )
                    &&& forall|other: Seq<char>|
                        other != asset@ ==> final(self).sources_of(other) == old(self).sources_of(
                            other,
                        )
                },
                Err(e) => old(self).add_source_error(caller@, asset@, oracle@) == Some(e)
                    && final(self).sources@ == old(self).sources@,
            },
    {
        if !self.initialized || *caller != self.admin {
            return Err(OracleError::Unauthorized);
        }
        let ghost before = *self;
        let mut list: Vec<OracleSource> = match self.sources.remove(&asset) {
            Some(list) => list,
            None => Vec::new(),
        };
        assert(source_views(list@) =~= before.sources_of(asset@));
        let mut i: usize = 0;
        let mut exists: bool = false;
        while i < list.len()
            invariant
                i <= list.len(),
                exists == Self::has_oracle(source_views(list@).take(i as int), oracle@),
            decreases list.len() - i,
        {
            let ghost views = source_views(list@);
            if list[i].oracle == oracle {
                exists = true;
                assert(views.take(i + 1)[i as int].oracle == oracle@);
            } else {
                proof {
                    if Self::has_oracle(views.take(i + 1), oracle@) {
                        let j = choose|j: int|
                            0 <= j < views.take(i + 1).len() && (#[trigger] views.take(
                                i + 1,
                            )[j]).oracle == oracle@;
                        assert(views.take(i as int)[j].oracle == oracle@);
                    }
                    if Self::has_oracle(views.take(i as int), oracle@) {
                        let j = choose|j: int|
                            0 <= j < views.take(i as int).len() && (#[trigger] views.take(
                                i as int,
                            )[j]).oracle == oracle@;
                        assert(views.take(i + 1)[j].oracle == oracle@);
                    }
                }
            }
            i += 1;
        }
        proof {
            assert(source_views(list@).take(list.len() as int) =~= source_views(list@));
        }
        if exists {
            if list.len() > 0 {
                self.sources.insert(asset, list);
                assert(self.sources@ =~= before.sources@);
            } else {
                assert(self.sources@ =~= before.sources@);
            }
            return Err(OracleError::OracleAlreadyExists);
        }
        list.push(OracleSource { oracle, weight, last_update: 0, is_active: true });
        self.sources.insert(asset, list);
        proof {
            assert(self.sources_of(asset@) =~= before.sources_of(asset@).push(
                OracleSourceView { oracle: oracle@, weight, last_update: 0, is_active: true },
            ));
        }
        Ok(())
    }

    /// Why a read of `asset` fails, if it does: fewer feeds answered in
    /// time than are required, or those that did carry no weight.
    pub open spec fn get_price_error(
        &self,
        asset: Seq<char>,
        responses: Seq<Option<(i128, u64)>>,
        now: u64,
    ) -> Option<OracleError> {
        let readings = valid_readings(
            self.sources_of(asset),
            responses,
            now,
            self.heartbeat_timeout,
        );
        if readings.len() < self.min_oracles_required {
            Some(OracleError::InsufficientValidPrices)
        } else {
            average_error(readings)
        }
    }

    /// Where fewer feeds are configured for an asset than are required, too
    /// few can answer in time, whatever they answer: the read fails with
    /// `InsufficientValidPrices`.
    pub proof fn lemma_too_few_feeds(
        &self,
        asset: Seq<char>,
        responses: Seq<Option<(i128, u64)>>,
        now: u64,
    )
        requires
            self.sources_of(asset).len() < self.min_oracles_required,
        ensures
            self.get_price_error(asset, responses, now) == Some(
                OracleError::InsufficientValidPrices,
            ),
    {
        lemma_valid_readings_bounded(
            self.sources_of(asset),
            responses,
            now,
            self.heartbeat_timeout,
        );
    }

    /// Aggregates what the feeds of `asset` answered: `responses` holds, at
    /// the index of each feed, its price and timestamp, or nothing where the
    /// feed failed. The aggregate is stored and returned, together with the
    /// answers that deviate from it beyond the threshold.
    pub fn get_price(&mut self, asset: String, responses: &Vec<Option<(i128, u64)>>, now: u64) -> (out:
        Result<PriceReport, OracleError>)
        requires
            old(self).wf(),
        ensures
            final(self).wf(),
            final(self).same_settings(old(self)),
            final(self).sources == old(self).sources,
            final(self).emergency == old(self).emergency,
            match out {
                Ok(report) => {
                    let readings = valid_readings(
                        old(self).sources_of(asset@),
                        responses@,
                        now,
                        old(self).heartbeat_timeout,
                    );
                    &&& old(self).get_price_error(asset@, responses@, now).is_none()
                    &&& report.point == average_of(readings)
                    &&& report.valid_prices == readings.len()
                    &&& report.total_weight == reading_weight(readings)
                    &&& report.alerts@ == deviation_alerts(
                        readings,
                        report.point.price,
                        old(self).price_deviation_threshold,
                    )
                    &&& final(self).aggregated@ == old(self).aggregated@.insert(asset@, report.point)
                },
                Err(e) => old(self).get_price_error(asset@, responses@, now) == Some(e)
                    && final(self).aggregated == old(self).aggregated,
            },
    {
        let readings: Vec<Reading> = match self.sources.get(&asset) {
            Some(list) => collect_readings(list, responses, now, self.heartbeat_timeout),
            None => Vec::new(),
        };
        if readings.len() < self.min_oracles_required as usize {
            return Err(OracleError::InsufficientValidPrices);
        }
        let (point, total_weight) = match average_readings(&readings) {
            Ok(found) => found,
            Err(e) => {
                return Err(e);
            },
        };
        let alerts = validate_price_deviation(
            point.price,
            &readings,
            self.price_deviation_threshold,
        );
        self.aggregated.insert(asset, point);
        Ok(PriceReport { point, valid_prices: readings.len(), total_weight, alerts })
    }

    /// Installs a manual price for `asset` that expires `duration` seconds
    /// after `now`. Only a holder of the emergency-responder role may; the
    /// caller says whether `guardian` holds it.
    pub fn emergency_set_price(
        &mut self,
        guardian: String,
        holds_emergency_role: bool,
        asset: String,
        price: i128,
        duration: u64,
        now: u64,
    ) -> (out: Result<(), OracleError>)
        requires
            old(self).wf(),
        ensures
            final(self).wf(),
            final(self).same_settings(old(self)),
            final(self).sources == old(self).sources,
            final(self).aggregated == old(self).aggregated,
            match out {
                Ok(()) => {
                    &&& holds_emergency_role
                    &&& now + duration <= u64::MAX
                    &&& final(self).emergency@.contains_key(asset@)
                    &&& final(self).emergency@[asset@]@ == (EmergencyPriceView {
                        price,
                        set_at: now,
                        expires_at: (now + duration) as u64,
                        set_by: guardian@,
                    })
                    &&& forall|other: Seq<char>|
                        other != asset@ ==> (final(self).emergency@.contains_key(other) == old(
                            self,
                        ).emergency@.contains_key(other) && final(self).emergency@[other] == old(
                            self,
                        ).emergency@[other])
                },
                Err(e) => {
                    &&& final(self).emergency == old(self).emergency
                    &&& e == if !holds_emergency_role {
                        OracleError::Unauthorized
                    } else {
                        OracleError::Overflow
                    }
                    &&& !holds_emergency_role || now + duration > u64::MAX
                },
            },
    {
        if !holds_emergency_role {
            return Err(OracleError::Unauthorized);
        }
        let expires_at: u64 = match now.checked_add(duration) {
            Some(t) => t,
            None => {
                return Err(OracleError::Overflow);
            },
        };
        self.emergency.insert(asset, EmergencyPrice { price, set_at: now, expires_at, set_by: guardian });
        Ok(())
    }

    /// The emergency price of `asset` while it has not expired: from the
    /// moment it was set until just before `expires_at`.
    pub fn emergency_price(&self, asset: &String, now: u64) -> (price: Option<i128>)
        requires
            self.wf(),
        ensures
            price == if self.emergency@.contains_key(asset@) && now < self.emergency@[asset@].expires_at {
                Some(self.emergency@[asset@].price)
            } else {
                None
            },
    {
        match self.emergency.get(asset) {
            Some(manual) => if now < manual.expires_at {
                Some(manual.price)
            } else {
                None
            },
            None => None,
        }
    }

    /// Whether `new_price` for `asset` at `now` is an extreme move: more than
    /// 50% away from the last aggregate, less than five minutes after it.
    pub fn check_circuit_breaker(&self, asset: &String, new_price: i128, now: u64) -> (triggered:
        bool)
        requires
            self.wf(),
        ensures
            triggered == breaker_triggers(self.last_aggregate(asset@), new_price, now),
    {
        match self.aggregated.get(asset) {
            Some(point) => {
                (now <= point.timestamp || now - point.timestamp < BREAKER_WINDOW_SECONDS)
                    && calculate_deviation_bps(new_price, point.price) > BREAKER_LIMIT_BPS
            },
            None => false,
        }
    }
}

} // verus!
