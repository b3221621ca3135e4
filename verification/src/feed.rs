//! The observations of one asset and the aggregate computed from them.

use vstd::prelude::*;
use vstd::arithmetic::div_mod::lemma_fundamental_div_mod_converse_div;
use crate::pricing::{add_scaled, confidence_of, confidence_score};
use crate::store::KeyedStore;
use crate::types::{Observation, PriceData};

verus! {

/// A record of time `timestamp` is fresh at `now` while its age is at most
/// `max_staleness`: the bound itself is still fresh.
pub open spec fn is_fresh(now: u64, timestamp: u64, max_staleness: u64) -> bool {
    now as int - timestamp as int <= max_staleness as int
}

/// Whether a record of time `timestamp` is fresh at `now`.
pub fn check_fresh(now: u64, timestamp: u64, max_staleness: u64) -> (fresh: bool)
    ensures
        fresh == is_fresh(now, timestamp, max_staleness),
{
    now <= timestamp || now - timestamp <= max_staleness
}

/// Sum of price times weight over the fresh observations.
pub open spec fn weighted_sum(obs: Seq<Observation>, now: u64, max_staleness: u64) -> int
    decreases obs.len(),
{
    if obs.len() == 0 {
        0
    } else {
        let o = obs.last();
        weighted_sum(obs.drop_last(), now, max_staleness) + if is_fresh(
            now,
            o.timestamp,
            max_staleness,
        ) {
            o.price as int * o.weight as int
        } else {
            0
        }
    }
}

/// Sum of the weights of the fresh observations.
pub open spec fn total_weight(obs: Seq<Observation>, now: u64, max_staleness: u64) -> int
    decreases obs.len(),
{
    if obs.len() == 0 {
        0
    } else {
        let o = obs.last();
        total_weight(obs.drop_last(), now, max_staleness) + if is_fresh(
            now,
            o.timestamp,
            max_staleness,
        ) {
            o.weight as int
        } else {
            0
        }
    }
}

/// Number of fresh observations.
pub open spec fn fresh_count(obs: Seq<Observation>, now: u64, max_staleness: u64) -> int
    decreases obs.len(),
{
    if obs.len() == 0 {
        0
    } else {
        fresh_count(obs.drop_last(), now, max_staleness) + if is_fresh(
            now,
            obs.last().timestamp,
            max_staleness,
        ) {
            1int
        } else {
            0int
        }
    }
}

/// Every stored price is positive.
pub open spec fn prices_positive(obs: Seq<Observation>) -> bool {
    forall|i: int| 0 <= i < obs.len() ==> (#[trigger] obs[i]).price > 0
}

/// The aggregate of `obs` at `now`: none when no observation is fresh or the
/// fresh ones carry no weight, else the weighted average of the fresh
/// prices, rounded down, their number and the confidence score. A number
/// beyond the range of `u32` is recorded as `u32::MAX`.
pub open spec fn aggregate_of(obs: Seq<Observation>, now: u64, max_staleness: u64) -> Option<
    PriceData,
> {
    let count = fresh_count(obs, now, max_staleness);
    let weight = total_weight(obs, now, max_staleness);
    if count == 0 || weight == 0 {
        None
    } else {
        Some(
            PriceData {
                price: (weighted_sum(obs, now, max_staleness) / weight) as i128,
                timestamp: now,
                source_count: if count > u32::MAX {
                    u32::MAX
                } else {
                    count as u32
                },
                confidence: confidence_score(count, obs.len() as int) as u32,
            },
        )
    }
}

/// The sums over a prefix never exceed those over the whole, and the
/// weighted sum stays within the largest price times the weight.
pub proof fn lemma_sums_grow(obs: Seq<Observation>, i: int, now: u64, max_staleness: u64)
    requires
        prices_positive(obs),
        0 <= i <= obs.len(),
    ensures
        0 <= total_weight(obs.take(i), now, max_staleness) <= total_weight(
            obs,
            now,
            max_staleness,
        ),
        0 <= fresh_count(obs.take(i), now, max_staleness) <= i,
        total_weight(obs.take(i), now, max_staleness) <= i * 0xFFFF_FFFF,
        0 <= weighted_sum(obs.take(i), now, max_staleness) <= i128::MAX * total_weight(
            obs.take(i),
            now,
            max_staleness,
        ),
    decreases obs.len(),
{
    if i == obs.len() {
        assert(obs.take(i) =~= obs);
        if obs.len() > 0 {
            lemma_sums_grow(obs.drop_last(), i - 1, now, max_staleness);
            assert(obs.drop_last().take(i - 1) =~= obs.drop_last());
            let o = obs.last();
            assert(0 <= o.price as int * o.weight as int <= i128::MAX * o.weight as int)
                by (nonlinear_arith)
                requires
                    0 < o.price <= i128::MAX,
                    o.weight >= 0,
            ;
        }
    } else {
        lemma_sums_grow(obs.drop_last(), i, now, max_staleness);
        assert(obs.drop_last().take(i) =~= obs.take(i));
    }
}

/// Computes the aggregate of `store` at `now`, exactly, whatever the prices:
/// the weighted sum is kept as quotient and remainder by the total weight,
/// so that nothing leaves 128 bits.
pub fn aggregate_prices(store: &KeyedStore<Observation>, now: u64, max_staleness: u64) -> (out:
    Option<PriceData>)
    requires
        store.wf(),
        prices_positive(store.values()),
    ensures
        out == aggregate_of(store.values(), now, max_staleness),
{
    let n: usize = store.len();
    let ghost obs = store.values();
    let mut weight: u128 = 0;
    let mut count: usize = 0;
    let mut i: usize = 0;
    while i < n
        invariant
            store.wf(),
            prices_positive(obs),
            obs == store.values(),
            n == obs.len(),
            i <= n,
            weight as int == total_weight(obs.take(i as int), now, max_staleness),
            count as int == fresh_count(obs.take(i as int), now, max_staleness),
            count <= i,
            weight <= i * 0xFFFF_FFFF,
        decreases n - i,
    {
        let o: Observation = *store.value_at(i);
        proof {
            assert(obs.take(i + 1).drop_last() =~= obs.take(i as int));
            assert(obs.take(i + 1).last() == obs[i as int]);
        }
        if check_fresh(now, o.timestamp, max_staleness) {
            weight = weight + o.weight as u128;
            count = count + 1;
        }
        i += 1;
    }
    proof {
        assert(obs.take(n as int) =~= obs);
    }
    if count == 0 || weight == 0 {
        return None;
    }
    let mut quotient: u128 = 0;
    let mut rest: u128 = 0;
    let mut j: usize = 0;
    while j < n
        invariant
            store.wf(),
            prices_positive(obs),
            obs == store.values(),
            n == obs.len(),
            j <= n,
            weight as int == total_weight(obs, now, max_staleness),
            0 < weight <= n * 0xFFFF_FFFF,
            quotient as int * weight as int + rest as int == weighted_sum(
                obs.take(j as int),
                now,
                max_staleness,
            ),
            rest < weight,
        decreases n - j,
    {
        let o: Observation = *store.value_at(j);
        proof {
            assert(obs.take(j + 1).drop_last() =~= obs.take(j as int));
            assert(obs.take(j + 1).last() == obs[j as int]);
            assert(o.price > 0);
            lemma_sums_grow(obs, j as int, now, max_staleness);
            lemma_sums_grow(obs, j + 1, now, max_staleness);
        }
        if check_fresh(now, o.timestamp, max_staleness) {
            let (q, r) = add_scaled(quotient, rest, o.price as u128, o.weight, weight);
            quotient = q;
            rest = r;
        }
        j += 1;
    }
    proof {
        assert(obs.take(n as int) =~= obs);
        lemma_sums_grow(obs, n as int, now, max_staleness);
        lemma_fundamental_div_mod_converse_div(
            weighted_sum(obs, now, max_staleness),
            weight as int,
            quotient as int,
            rest as int,
        );
        assert(quotient <= i128::MAX) by (nonlinear_arith)
            requires
                quotient as int * weight as int + rest as int <= i128::MAX * weight as int,
                0 <= rest as int,
                weight > 0,
        ;
    }
    Some(
        PriceData {
            price: quotient as i128,
            timestamp: now,
            source_count: if count > 0xFFFF_FFFF {
                0xFFFF_FFFFu32
            } else {
                count as u32
            },
            confidence: confidence_of(count, n),
        },
    )
}

/// One asset's observations, one per source, and its latest aggregate.
pub struct AssetFeed {
    /// Latest observation of each source, by the source's name.
    pub observations: KeyedStore<Observation>,
    /// The authoritative price, once one was computed.
    pub aggregate: Option<PriceData>,
}

/// An `AssetFeed` as a plain value.
#[verifier::ext_equal]
pub struct FeedView {
    /// Names of the sources, in order of their first submission.
    pub sources: Seq<Seq<char>>,
    /// Latest observation of each source, at the index of its name.
    pub observations: Seq<Observation>,
    /// The authoritative price, once one was computed.
    pub aggregate: Option<PriceData>,
}

/// The feed of an asset that nobody reported on.
pub open spec fn empty_feed() -> FeedView {
    FeedView {
        sources: Seq::<Seq<char>>::empty(),
        observations: Seq::<Observation>::empty(),
        aggregate: None,
    }
}

impl View for AssetFeed {
    type V = FeedView;

    open spec fn view(&self) -> FeedView {
        FeedView {
            sources: self.observations.keys(),
            observations: self.observations.values(),
            aggregate: self.aggregate,
        }
    }
}

impl AssetFeed {
    /// One observation per source, each with a positive price.
    pub open spec fn wf(&self) -> bool {
        &&& self.observations.wf()
        &&& prices_positive(self.observations.values())
    }

    /// A feed without observations.
    pub fn new() -> (feed: Self)
        ensures
            feed.wf(),
            feed@ == empty_feed(),
    {
        AssetFeed { observations: KeyedStore::new(), aggregate: None }
    }
}

} // verus!
