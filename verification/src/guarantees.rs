//! What holds of the oracle across operations, proved over its model.

use vstd::prelude::*;
use crate::feed::{
    aggregate_of,
    fresh_count,
    is_fresh,
    total_weight,
    weighted_sum,
};
use crate::governance::{approvals, lemma_approvals_bounds};
use crate::model::OracleView;
use crate::pricing::{abs_diff, confidence_score, deviation_bps};
use crate::types::{AssetView, Observation, OracleConfig, OracleError, PriceData};

verus! {

/// Sum of price times weight over all observations, fresh or not.
pub open spec fn sum_of_products(obs: Seq<Observation>) -> int
    decreases obs.len(),
{
    if obs.len() == 0 {
        0
    } else {
        sum_of_products(obs.drop_last()) + obs.last().price as int * obs.last().weight as int
    }
}

/// Sum of the weights of all observations, fresh or not.
pub open spec fn sum_of_weights(obs: Seq<Observation>) -> int
    decreases obs.len(),
{
    if obs.len() == 0 {
        0
    } else {
        sum_of_weights(obs.drop_last()) + obs.last().weight as int
    }
}

/// Where every observation is fresh, the sums over the fresh ones are the
/// sums over all.
pub proof fn lemma_sums_without_staleness(obs: Seq<Observation>, now: u64, max_staleness: u64)
    requires
        forall|i: int| 0 <= i < obs.len() ==> is_fresh(now, (#[trigger] obs[i]).timestamp, max_staleness),
    ensures
        weighted_sum(obs, now, max_staleness) == sum_of_products(obs),
        total_weight(obs, now, max_staleness) == sum_of_weights(obs),
        fresh_count(obs, now, max_staleness) == obs.len(),
    decreases obs.len(),
{
    if obs.len() > 0 {
        assert(is_fresh(now, obs[obs.len() - 1].timestamp, max_staleness));
        lemma_sums_without_staleness(obs.drop_last(), now, max_staleness);
    }
}

/// Without staleness the aggregated price of any set of sources is the sum
/// of price times weight, divided by the sum of the weights and rounded
/// down; every source counts (a `u32` holds at most `u32::MAX` of them), and
/// the confidence is that of full coverage.
pub proof fn lemma_aggregate_is_weighted_average(
    obs: Seq<Observation>,
    now: u64,
    max_staleness: u64,
)
    requires
        obs.len() > 0,
        sum_of_weights(obs) > 0,
        forall|i: int| 0 <= i < obs.len() ==> is_fresh(now, (#[trigger] obs[i]).timestamp, max_staleness),
    ensures
        aggregate_of(obs, now, max_staleness) == Some(
            PriceData {
                price: (sum_of_products(obs) / sum_of_weights(obs)) as i128,
                timestamp: now,
                source_count: if obs.len() > u32::MAX {
                    u32::MAX
                } else {
                    obs.len() as u32
                },
                confidence: confidence_score(obs.len() as int, obs.len() as int) as u32,
            },
        ),
{
    lemma_sums_without_staleness(obs, now, max_staleness);
}

/// The first accepted submission for an asset, from a source of positive
/// weight, makes that source's price the aggregated price, whatever the
/// weight is: one source contributed, with full confidence.
pub proof fn lemma_first_submission_sets_price(
    s: OracleView,
    asset: AssetView,
    price: i128,
    source_id: Seq<char>,
    now: u64,
)
    requires
        s.valid(),
        !s.feeds.contains_key(asset),
        s.submit_error(asset, price, source_id, now).is_none(),
        s.registry[source_id] > 0,
    ensures
        s.after_submit(asset, price, source_id, now).feed(asset).aggregate == Some(
            PriceData { price, timestamp: now, source_count: 1, confidence: 100 },
        ),
{
    let w = s.registry[source_id];
    let o = Observation { price, timestamp: now, weight: w };
    let obs = s.submitted_feed(asset, price, source_id, now).observations;
    let max = s.config.max_staleness_seconds;
    assert(obs =~= seq![o]);
    assert(obs.drop_last() =~= Seq::<Observation>::empty());
    assert(is_fresh(now, o.timestamp, max));
    assert(obs.last() == o);
    assert(weighted_sum(obs.drop_last(), now, max) == 0);
    assert(total_weight(obs.drop_last(), now, max) == 0);
    assert(fresh_count(obs.drop_last(), now, max) == 0);
    assert(weighted_sum(obs, now, max) == price as int * w as int);
    assert(total_weight(obs, now, max) == w as int);
    assert(fresh_count(obs, now, max) == 1);
    assert((price as int * w as int) / (w as int) == price as int) by (nonlinear_arith)
        requires
            w > 0,
    ;
    assert(1 * 100 / 1 == 100int) by (nonlinear_arith);
}

/// A submission that passes the earlier checks trips the breaker exactly
/// when its deviation from the previous aggregate exceeds the configured
/// bound; it is then refused with `PriceDeviationExceeded`. Against a
/// positive baseline `b` the deviation of `p` is `|p - b| * 10000 / b`,
/// rounded down.
pub proof fn lemma_deviation_trips_breaker(
    s: OracleView,
    asset: AssetView,
    price: i128,
    source_id: Seq<char>,
    now: u64,
    previous: PriceData,
)
    requires
        s.valid(),
        !s.breaker.is_paused,
        s.registry.contains_key(source_id),
        price > 0,
        s.feed(asset).aggregate == Some(previous),
    ensures
        s.after_submit(asset, price, source_id, now).breaker.is_paused <==> deviation_bps(
            price as int,
            previous.price as int,
        ) > s.config.max_price_deviation_bps,
        s.submit_error(asset, price, source_id, now) == Some(OracleError::PriceDeviationExceeded)
            <==> deviation_bps(price as int, previous.price as int)
            > s.config.max_price_deviation_bps,
        previous.price > 0 ==> deviation_bps(price as int, previous.price as int) == abs_diff(
            price as int,
            previous.price as int,
        ) * 10000 / (previous.price as int),
{
}

/// Against a baseline of zero every submission trips the breaker, as long
/// as the configured bound is below 100%.
pub proof fn lemma_zero_baseline_trips(
    s: OracleView,
    asset: AssetView,
    price: i128,
    source_id: Seq<char>,
    now: u64,
    previous: PriceData,
)
    requires
        s.valid(),
        !s.breaker.is_paused,
        s.registry.contains_key(source_id),
        price > 0,
        s.feed(asset).aggregate == Some(previous),
        previous.price == 0,
        s.config.max_price_deviation_bps < 10000,
    ensures
        s.submit_error(asset, price, source_id, now) == Some(OracleError::PriceDeviationExceeded),
        s.after_submit(asset, price, source_id, now).breaker.is_paused,
{
}

/// The staleness bound is inclusive: a record whose age equals the bound is
/// fresh, one a second older is stale.
pub proof fn lemma_staleness_boundary(now: u64, timestamp: u64, max_staleness: u64)
    ensures
        now as int - timestamp as int == max_staleness as int ==> is_fresh(
            now,
            timestamp,
            max_staleness,
        ),
        now as int - timestamp as int == max_staleness as int + 1 ==> !is_fresh(
            now,
            timestamp,
            max_staleness,
        ),
{
}

/// An aggregate whose age equals the staleness bound is still served, given
/// enough sources; one a second older is not.
pub proof fn lemma_quote_boundary(s: OracleView, asset: AssetView, now: u64, data: PriceData)
    requires
        s.feed(asset).aggregate == Some(data),
        data.source_count >= s.config.min_sources_required,
    ensures
        now as int - data.timestamp as int == s.config.max_staleness_seconds as int ==> s.quote(
            asset,
            now,
        ) == Some(data),
        now as int - data.timestamp as int == s.config.max_staleness_seconds as int + 1
            ==> s.quote(asset, now).is_none() && s.stale_age(asset, now) == Some(
            (now - data.timestamp) as u64,
        ),
{
}

/// While the breaker is tripped every submission is refused with
/// `CircuitBreakerActive` and changes nothing.
pub proof fn lemma_paused_refuses_submissions(
    s: OracleView,
    asset: AssetView,
    price: i128,
    source_id: Seq<char>,
    now: u64,
)
    requires
        s.breaker.is_paused,
    ensures
        s.submit_error(asset, price, source_id, now) == Some(OracleError::CircuitBreakerActive),
        s.after_submit(asset, price, source_id, now) == s,
{
}

/// A refused call changes nothing, with one exception: the submission that
/// is refused for its deviation trips the breaker, and changes nothing else.
pub proof fn lemma_refusals_change_nothing(
    s: OracleView,
    signers: Seq<Seq<char>>,
    names: Seq<Seq<char>>,
    name: Seq<char>,
    number: u32,
    config: OracleConfig,
    asset: AssetView,
    price: i128,
    now: u64,
)
    ensures
        s.init_error(names, number, config).is_some() ==> s.after_init(names, number, config)
            == s,
        s.submit_error(asset, price, name, now).is_some() && s.submit_error(
            asset,
            price,
            name,
            now,
        ) != Some(OracleError::PriceDeviationExceeded) ==> s.after_submit(asset, price, name, now)
            == s,
        s.submit_error(asset, price, name, now) == Some(OracleError::PriceDeviationExceeded)
            ==> s.after_submit(asset, price, name, now) == (OracleView {
            breaker: s.after_submit(asset, price, name, now).breaker,
            ..s
        }),
        !s.authorizes(signers) ==> {
            &&& s.after_pause(signers, name, now) == s
            &&& s.after_resume(signers) == s
            &&& s.after_update_config(signers, config) == s
            &&& s.after_add_source(signers, name, number) == s
            &&& s.after_remove_source(signers, name) == s
            &&& s.after_add_admin(signers, name) == s
            &&& s.after_remove_admin(signers, name) == s
        },
        s.update_config_error(signers, config).is_some() ==> s.after_update_config(
            signers,
            config,
        ) == s,
        s.add_source_error(signers, number).is_some() ==> s.after_add_source(
            signers,
            name,
            number,
        ) == s,
        s.remove_admin_error(signers).is_some() ==> s.after_remove_admin(signers, name) == s,
{
}

/// Reading the price is a function of the stored state, the asset and the
/// time alone: between two reads with nothing written in between, the
/// answer is the same, and the aggregate is served unchanged or not at all.
pub proof fn lemma_reads_are_repeatable(s: OracleView, t: OracleView, asset: AssetView, now: u64)
    requires
        s.feed(asset).aggregate == t.feed(asset).aggregate,
        s.config == t.config,
    ensures
        s.quote(asset, now) == t.quote(asset, now),
        s.quote(asset, now).is_some() ==> s.quote(asset, now) == s.feed(asset).aggregate,
{
}

/// The breaker is tripped by an authorized `pause` and by a deviation shock.
pub proof fn lemma_breaker_trips(
    s: OracleView,
    signers: Seq<Seq<char>>,
    reason: Seq<char>,
    asset: AssetView,
    price: i128,
    source_id: Seq<char>,
    now: u64,
)
    ensures
        s.authorizes(signers) ==> s.after_pause(signers, reason, now).breaker.is_paused,
        s.submit_error(asset, price, source_id, now) == Some(OracleError::PriceDeviationExceeded)
            ==> s.after_submit(asset, price, source_id, now).breaker.is_paused,
{
}

/// Once tripped, the breaker stays tripped through every operation but an
/// authorized `resume`; a `resume` without quorum changes nothing.
pub proof fn lemma_only_resume_resets(
    s: OracleView,
    signers: Seq<Seq<char>>,
    names: Seq<Seq<char>>,
    name: Seq<char>,
    number: u32,
    config: OracleConfig,
    asset: AssetView,
    price: i128,
    now: u64,
)
    requires
        s.valid(),
        s.breaker.is_paused,
    ensures
        s.after_init(names, number, config).breaker.is_paused,
        s.after_submit(asset, price, name, now).breaker.is_paused,
        s.after_pause(signers, name, now).breaker.is_paused,
        s.after_update_config(signers, config).breaker.is_paused,
        s.after_add_source(signers, name, number).breaker.is_paused,
        s.after_remove_source(signers, name).breaker.is_paused,
        s.after_add_admin(signers, name).breaker.is_paused,
        s.after_remove_admin(signers, name).breaker.is_paused,
        s.after_resume(signers).breaker.is_paused <==> !s.authorizes(signers),
        !s.authorizes(signers) ==> s.after_resume(signers) == s,
{
}

/// Nobody passes the governance gate of an initialized oracle without
/// signers, and fewer signers than the quorum never pass.
pub proof fn lemma_governance_needs_quorum(s: OracleView, signers: Seq<Seq<char>>)
    requires
        s.valid(),
    ensures
        signers.len() == 0 ==> !s.authorizes(signers),
        s.authorizes(signers) ==> approvals(s.admins, signers) >= s.min_signatures >= 1,
{
    lemma_approvals_bounds(s.admins, signers);
}

} // verus!
