//! The oracle itself: an explicit store, and the operations on it. Each
//! operation takes the current time, and each administrative one the names
//! of those who authorized the call.

use vstd::prelude::*;
use crate::feed::{aggregate_prices, check_fresh, prices_positive, AssetFeed, FeedView};
use crate::governance::{admin_set, check_quorum};
use crate::model::OracleView;
use crate::pricing::calculate_deviation_bps;
use crate::store::{texts, upsert_keys, upsert_values, KeyedStore};
use crate::types::{
    Asset,
    AssetView,
    CircuitBreaker,
    Observation,
    OracleConfig,
    OracleError,
    PriceData,
    PriceSource,
    PriceSourceView,
    price_source_of,
};

verus! {

/// What an accepted submission brought about.
#[derive(Clone, Copy, Debug, PartialEq, Eq, Structural)]
pub struct SubmitReceipt {
    /// The aggregate of the asset after the submission.
    pub aggregate: Option<PriceData>,
    /// Seconds since the previous aggregate, if a heartbeat was missed.
    pub heartbeat_gap: Option<u64>,
}

/// The views of a list of records.
pub open spec fn records(list: Seq<PriceSource>) -> Seq<PriceSourceView> {
    Seq::new(list.len(), |i: int| list[i]@)
}

/// A multi-source price oracle with deviation protection, staleness checks,
/// a circuit breaker and multi-party administration.
pub struct TrustBridgeOracle {
    initialized: bool,
    admins: KeyedStore<()>,
    min_signatures: u32,
    config: OracleConfig,
    breaker: CircuitBreaker,
    registry: KeyedStore<u32>,
    stellar_feeds: KeyedStore<AssetFeed>,
    other_feeds: KeyedStore<AssetFeed>,
}

impl TrustBridgeOracle {
    /// The stored state as a plain value.
    pub closed spec fn view(&self) -> OracleView {
        OracleView {
            initialized: self.initialized,
            admins: self.admins.keys(),
            min_signatures: self.min_signatures,
            config: self.config,
            breaker: self.breaker@,
            registry: self.registry@,
            feeds: Map::new(
                |a: AssetView|
                    match a {
                        AssetView::Stellar(k) => self.stellar_feeds@.contains_key(k),
                        AssetView::Other(k) => self.other_feeds@.contains_key(k),
                    },
                |a: AssetView|
                    match a {
                        AssetView::Stellar(k) => self.stellar_feeds@[k]@,
                        AssetView::Other(k) => self.other_feeds@[k]@,
                    },
            ),
        }
    }

    /// The invariant of the store.
    pub closed spec fn wf(&self) -> bool {
        &&& self.admins.wf()
        &&& self.registry.wf()
        &&& self.stellar_feeds.wf()
        &&& self.other_feeds.wf()
        &&& forall|k: Seq<char>| #[trigger]
            self.stellar_feeds@.contains_key(k) ==> self.stellar_feeds@[k].wf()
        &&& forall|k: Seq<char>| #[trigger]
            self.other_feeds@.contains_key(k) ==> self.other_feeds@[k].wf()
        &&& self.config.valid()
        &&& self.initialized ==> 1 <= self.min_signatures <= self.admins.keys().len()
        &&& self.breaker.is_paused ==> self.initialized
        &&& forall|k: Seq<char>| #[trigger] self.registry@.contains_key(k) ==> self.initialized
    }

    /// A well-formed store is a valid state.
    pub proof fn lemma_wf_valid(&self)
        requires
            self.wf(),
        ensures
            self@.valid(),
    {
        assert forall|a: AssetView| #[trigger] self@.feeds.contains_key(a) implies {
            &&& self@.feeds[a].sources.len() == self@.feeds[a].observations.len()
            &&& self@.feeds[a].sources.no_duplicates()
            &&& prices_positive(self@.feeds[a].observations)
        } by {
            match a {
                AssetView::Stellar(k) => {
                    assert(self.stellar_feeds@.contains_key(k));
                },
                AssetView::Other(k) => {
                    assert(self.other_feeds@.contains_key(k));
                },
            }
        }
    }

    /// An oracle that awaits `init`: no admins, no sources, no prices, the
    /// breaker active.
    pub fn new() -> (oracle: Self)
        ensures
            oracle.wf(),
            oracle@ == OracleView::blank(),
    {
        let oracle = TrustBridgeOracle {
            initialized: false,
            admins: KeyedStore::new(),
            min_signatures: 0,
            config: OracleConfig {
                max_price_deviation_bps: 0,
                max_staleness_seconds: 0,
                min_sources_required: 0,
                heartbeat_interval: 0,
            },
            breaker: CircuitBreaker { is_paused: false, pause_timestamp: 0, reason: String::new() },
            registry: KeyedStore::new(),
            stellar_feeds: KeyedStore::new(),
            other_feeds: KeyedStore::new(),
        };
        assert(oracle@ =~~= OracleView::blank());
        oracle
    }

    /// Whether the governance gate lets a call through that `signers`
    /// authorized: at least `min_signatures` distinct admins are among them.
    pub fn authorize(&self, signers: &Vec<String>) -> (ok: bool)
        requires
            self.wf(),
        ensures
            ok == self@.authorizes(texts(signers@)),
    {
        self.initialized && check_quorum(&self.admins, self.min_signatures, signers)
    }

    fn feed_ref(&self, asset: &Asset) -> (found: Option<&AssetFeed>)
        requires
            self.wf(),
        ensures
            match found {
                Some(feed) => self@.feeds.contains_key(asset@) && feed@ == self@.feeds[asset@]
                    && feed.wf(),
                None => !self@.feeds.contains_key(asset@),
            },
    {
        match asset {
            Asset::Stellar(address) => self.stellar_feeds.get(address),
            Asset::Other(symbol) => self.other_feeds.get(symbol),
        }
    }

    /// Takes the feed of `asset` out of the store, or starts an empty one.
    fn take_feed(&mut self, asset: &Asset) -> (feed: AssetFeed)
        requires
            old(self).wf(),
        ensures
            final(self).wf(),
            feed.wf(),
            feed@ == old(self)@.feed(asset@),
            final(self)@ == (OracleView { feeds: old(self)@.feeds.remove(asset@), ..old(self)@ }),
    {
        let ghost before = self@;
        let taken = match asset {
            Asset::Stellar(address) => self.stellar_feeds.remove(address),
            Asset::Other(symbol) => self.other_feeds.remove(symbol),
        };
        assert(self@.feeds =~= before.feeds.remove(asset@));
        assert(self@ =~~= (OracleView { feeds: before.feeds.remove(asset@), ..before }));
        match taken {
            Some(feed) => feed,
            None => AssetFeed::new(),
        }
    }

    /// Puts `feed` into the store as the feed of `asset`.
    fn put_feed(&mut self, asset: Asset, feed: AssetFeed)
        requires
            old(self).wf(),
            feed.wf(),
        ensures
            final(self).wf(),
            final(self)@ == (OracleView {
                feeds: old(self)@.feeds.insert(asset@, feed@),
                ..old(self)@
            }),
    {
        let ghost before = self@;
        match asset {
            Asset::Stellar(address) => {
                self.stellar_feeds.insert(address, feed);
            },
            Asset::Other(symbol) => {
                self.other_feeds.insert(symbol, feed);
            },
        }
        assert(self@.feeds =~= before.feeds.insert(asset@, feed@));
        assert(self@ =~~= (OracleView { feeds: before.feeds.insert(asset@, feed@), ..before }));
    }

    fn aggregate_ref(&self, asset: &Asset) -> (found: Option<PriceData>)
        requires
            self.wf(),
        ensures
            found == self@.feed(asset@).aggregate,
    {
        match self.feed_ref(asset) {
            Some(feed) => feed.aggregate,
            None => None,
        }
    }

    /// The age of the aggregate of `asset` at `now`, if staleness is what
    /// keeps `lastprice` from serving it.
    pub fn stale_age(&self, asset: &Asset, now: u64) -> (age: Option<u64>)
        requires
            self.wf(),
        ensures
            age == self@.stale_age(asset@, now),
    {
        match self.aggregate_ref(asset) {
            Some(data) => {
                if check_fresh(now, data.timestamp, self.config.max_staleness_seconds) {
                    None
                } else {
                    Some(now - data.timestamp)
                }
            },
            None => None,
        }
    }

    /// Whether `init` has succeeded.
    pub fn is_initialized(&self) -> (initialized: bool)
        ensures
            initialized == self@.initialized,
    {
        self.initialized
    }

    /// Number of admins that must authorize an administrative call.
    pub fn min_signatures(&self) -> (quorum: u32)
        ensures
            quorum == self@.min_signatures,
    {
        self.min_signatures
    }

    /// The weight of `source_id`, if it is a trusted source.
    pub fn source_weight(&self, source_id: &String) -> (weight: Option<u32>)
        requires
            self.wf(),
        ensures
            weight == if self@.registry.contains_key(source_id@) {
                Some(self@.registry[source_id@])
            } else {
                None
            },
    {
        match self.registry.get(source_id) {
            Some(w) => Some(*w),
            None => None,
        }
    }

    /// The stored aggregate of `asset`, whatever its age.
    pub fn get_aggregate(&self, asset: &Asset) -> (aggregate: Option<PriceData>)
        requires
            self.wf(),
        ensures
            aggregate == self@.feed(asset@).aggregate,
    {
        self.aggregate_ref(asset)
    }

    /// Rebuilds an initialized oracle from its persisted settings, with no
    /// sources and no prices yet. The settings must be such as `init`
    /// accepts.
    pub fn load(
        admins: Vec<String>,
        min_signatures: u32,
        config: OracleConfig,
        breaker: CircuitBreaker,
    ) -> (out: Result<Self, OracleError>)
        ensures
            match out {
                Ok(oracle) => {
                    &&& oracle.wf()
                    &&& OracleView::blank().init_error(texts(admins@), min_signatures, config).is_none()
                    &&& oracle@ == (OracleView {
                        breaker: breaker@,
                        ..OracleView::blank().after_init(texts(admins@), min_signatures, config)
                    })
                },
                Err(e) => OracleView::blank().init_error(texts(admins@), min_signatures, config) == Some(
                    e,
                ),
            },
    {
        let mut oracle = Self::new();
        let ghost fresh = oracle@;
        match oracle.init(admins, min_signatures, config) {
            Ok(()) => {},
            Err(e) => {
                return Err(e);
            },
        }
        let ghost ready = oracle@;
        oracle.breaker = breaker;
        assert(oracle@ =~~= (OracleView { breaker: breaker@, ..ready }));
        Ok(oracle)
    }

    /// Puts a persisted source back into the registry. Refused with
    /// `InvalidInput` before `init` and for a weight above 100.
    pub fn load_source(&mut self, source_id: String, weight: u32) -> (out: Result<(), OracleError>)
        requires
            old(self).wf(),
        ensures
            final(self).wf(),
            match out {
                Ok(()) => old(self)@.initialized && weight <= 100 && final(self)@ == (OracleView {
                    registry: old(self)@.registry.insert(source_id@, weight),
                    ..old(self)@
                }),
                Err(e) => e == OracleError::InvalidInput && !(old(self)@.initialized && weight
                    <= 100) && final(self)@ == old(self)@,
            },
    {
        if !self.initialized || weight > 100 {
            return Err(OracleError::InvalidInput);
        }
        let ghost before = self@;
        self.registry.insert(source_id, weight);
        assert(self@ =~~= (OracleView {
            registry: before.registry.insert(source_id@, weight),
            ..before
        }));
        Ok(())
    }

    /// Puts a persisted observation back into the feed of `asset`, without
    /// recomputing the aggregate. Refused with `InvalidPrice` for a price
    /// that is not positive.
    pub fn load_observation(&mut self, asset: Asset, source_id: String, observation: Observation) -> (out:
        Result<(), OracleError>)
        requires
            old(self).wf(),
        ensures
            final(self).wf(),
            match out {
                Ok(()) => observation.price > 0 && final(self)@ == (OracleView {
                    feeds: old(self)@.feeds.insert(
                        asset@,
                        FeedView {
                            sources: upsert_keys(
                                old(self)@.feed(asset@).sources,
                                source_id@,
                            ),
                            observations: upsert_values(
                                old(self)@.feed(asset@).sources,
                                old(self)@.feed(asset@).observations,
                                source_id@,
                                observation,
                            ),
                            aggregate: old(self)@.feed(asset@).aggregate,
                        },
                    ),
                    ..old(self)@
                }),
                Err(e) => e == OracleError::InvalidPrice && observation.price <= 0 && final(self)@
                    == old(self)@,
            },
    {
        if observation.price <= 0 {
            return Err(OracleError::InvalidPrice);
        }
        let ghost before = self@;
        let mut feed = self.take_feed(&asset);
        feed.observations.insert(source_id, observation);
        let ghost written = feed@;
        self.put_feed(asset, feed);
        assert(self@.feeds =~= before.feeds.insert(asset@, written));
        assert(self@ =~~= (OracleView { feeds: before.feeds.insert(asset@, written), ..before }));
        Ok(())
    }

    /// Puts the persisted aggregate of `asset` back.
    pub fn load_aggregate(&mut self, asset: Asset, data: PriceData)
        requires
            old(self).wf(),
        ensures
            final(self).wf(),
            final(self)@ == (OracleView {
                feeds: old(self)@.feeds.insert(
                    asset@,
                    FeedView { aggregate: Some(data), ..old(self)@.feed(asset@) },
                ),
                ..old(self)@
            }),
    {
        let ghost before = self@;
        let mut feed = self.take_feed(&asset);
        feed.aggregate = Some(data);
        let ghost written = feed@;
        self.put_feed(asset, feed);
        assert(self@.feeds =~= before.feeds.insert(asset@, written));
        assert(self@ =~~= (OracleView { feeds: before.feeds.insert(asset@, written), ..before }));
    }

}

/// The operations of the oracle, each with what it owes its caller.
pub trait OracleTrait: Sized {
    /// The stored state as a plain value.
    spec fn state(&self) -> OracleView;

    /// The invariant of the store.
    spec fn well_formed(&self) -> bool;

    /// Sets the admins, the quorum and the configuration, once.
    fn init(&mut self, admins: Vec<String>, min_signatures: u32, config: OracleConfig) -> (out:
        Result<(), OracleError>)
        requires
            old(self).well_formed(),
        ensures
            final(self).well_formed(),
            final(self).state() == old(self).state().after_init(
                texts(admins@),
                min_signatures,
                config,
            ),
            match out {
                Ok(()) => old(self).state().init_error(
                    texts(admins@),
                    min_signatures,
                    config,
                ).is_none(),
                Err(e) => old(self).state().init_error(
                    texts(admins@),
                    min_signatures,
                    config,
                ) == Some(e),
            },
    ;

    /// Records the price that `source_id` reports for `asset` at `now` and
    /// recomputes the aggregate of the asset.
    ///
    /// Refused while the breaker is tripped, from a source outside the
    /// registry, for a price that is not positive, and for a price that
    /// deviates too far from the previous aggregate: that refusal trips the
    /// breaker. Every other refusal leaves the store as it was.
    fn submit_price(&mut self, asset: Asset, price: i128, source_id: String, now: u64) -> (out:
        Result<SubmitReceipt, OracleError>)
        requires
            old(self).well_formed(),
        ensures
            final(self).well_formed(),
            final(self).state() == old(self).state().after_submit(asset@, price, source_id@, now),
            match out {
                Ok(receipt) => {
                    &&& old(self).state().submit_error(asset@, price, source_id@, now).is_none()
                    &&& receipt.aggregate == old(self).state().submitted_feed(
                        asset@,
                        price,
                        source_id@,
                        now,
                    ).aggregate
                    &&& receipt.heartbeat_gap == old(self).state().heartbeat_gap(asset@, now)
                },
                Err(e) => old(self).state().submit_error(asset@, price, source_id@, now) == Some(e),
            },
    ;

    /// The price of `asset` at `now`: the aggregate while it is no older
    /// than the staleness bound and enough sources contributed to it, and
    /// nothing otherwise. Never fails and never changes the store.
    fn lastprice(&self, asset: &Asset, now: u64) -> (quote: Option<PriceData>)
        requires
            self.well_formed(),
        ensures
            quote == self.state().quote(asset@, now),
    ;

    /// Number of decimals of every price.
    fn decimals(&self) -> (d: u32)
        ensures
            d == 7,
    ;

    /// Trips the breaker by hand.
    fn pause(&mut self, signers: &Vec<String>, reason: String, now: u64) -> (out: Result<
        (),
        OracleError,
    >)
        requires
            old(self).well_formed(),
        ensures
            final(self).well_formed(),
            final(self).state() == old(self).state().after_pause(texts(signers@), reason@, now),
            match out {
                Ok(()) => old(self).state().authorizes(texts(signers@)),
                Err(e) => e == OracleError::Unauthorized && !old(self).state().authorizes(
                    texts(signers@),
                ),
            },
    ;

    /// Resets the breaker. Nothing else does.
    fn resume(&mut self, signers: &Vec<String>) -> (out: Result<(), OracleError>)
        requires
            old(self).well_formed(),
        ensures
            final(self).well_formed(),
            final(self).state() == old(self).state().after_resume(texts(signers@)),
            match out {
                Ok(()) => old(self).state().authorizes(texts(signers@)),
                Err(e) => e == OracleError::Unauthorized && !old(self).state().authorizes(
                    texts(signers@),
                ),
            },
    ;

    /// Replaces the configuration.
    fn update_config(&mut self, signers: &Vec<String>, config: OracleConfig) -> (out: Result<
        (),
        OracleError,
    >)
        requires
            old(self).well_formed(),
        ensures
            final(self).well_formed(),
            final(self).state() == old(self).state().after_update_config(texts(signers@), config),
            match out {
                Ok(()) => old(self).state().update_config_error(texts(signers@), config).is_none(),
                Err(e) => old(self).state().update_config_error(texts(signers@), config) == Some(e),
            },
    ;

    /// Registers a trusted source with its weight, or gives a registered one
    /// a new weight.
    fn add_source(&mut self, signers: &Vec<String>, source_id: String, weight: u32) -> (out:
        Result<(), OracleError>)
        requires
            old(self).well_formed(),
        ensures
            final(self).well_formed(),
            final(self).state() == old(self).state().after_add_source(texts(signers@), source_id@, weight),
            match out {
                Ok(()) => old(self).state().add_source_error(texts(signers@), weight).is_none(),
                Err(e) => old(self).state().add_source_error(texts(signers@), weight) == Some(e),
            },
    ;

    /// Takes a source out of the registry. Its stored observations stay.
    fn remove_source(&mut self, signers: &Vec<String>, source_id: &String) -> (out: Result<
        (),
        OracleError,
    >)
        requires
            old(self).well_formed(),
        ensures
            final(self).well_formed(),
            final(self).state() == old(self).state().after_remove_source(texts(signers@), source_id@),
            match out {
                Ok(()) => old(self).state().authorizes(texts(signers@)),
                Err(e) => e == OracleError::Unauthorized && !old(self).state().authorizes(
                    texts(signers@),
                ),
            },
    ;

    /// The breaker as it stands.
    fn get_circuit_breaker(&self) -> (breaker: CircuitBreaker)
        ensures
            breaker@ == self.state().breaker,
    ;

    /// The configuration in force.
    fn get_config(&self) -> (config: OracleConfig)
        ensures
            config == self.state().config,
    ;

    /// Adds an admin. Adding one that is there changes nothing.
    fn add_admin(&mut self, signers: &Vec<String>, new_admin: String) -> (out: Result<
        (),
        OracleError,
    >)
        requires
            old(self).well_formed(),
        ensures
            final(self).well_formed(),
            final(self).state() == old(self).state().after_add_admin(texts(signers@), new_admin@),
            match out {
                Ok(()) => old(self).state().authorizes(texts(signers@)),
                Err(e) => e == OracleError::Unauthorized && !old(self).state().authorizes(
                    texts(signers@),
                ),
            },
    ;

    /// Removes an admin, unless no more admins than the quorum asks for are
    /// left.
    fn remove_admin(&mut self, signers: &Vec<String>, admin: &String) -> (out: Result<
        (),
        OracleError,
    >)
        requires
            old(self).well_formed(),
        ensures
            final(self).well_formed(),
            final(self).state() == old(self).state().after_remove_admin(texts(signers@), admin@),
            match out {
                Ok(()) => old(self).state().remove_admin_error(texts(signers@)).is_none(),
                Err(e) => old(self).state().remove_admin_error(texts(signers@)) == Some(e),
            },
    ;

    /// The admins.
    fn get_admins(&self) -> (admins: Vec<String>)
        requires
            self.well_formed(),
        ensures
            texts(admins@) == self.state().admins,
    ;

    /// Every stored observation of `asset`, stale ones included, in order of
    /// each source's first submission.
    fn get_price_sources(&self, asset: &Asset) -> (sources: Vec<PriceSource>)
        requires
            self.well_formed(),
        ensures
            records(sources@) == Seq::new(
                self.state().feed(asset@).sources.len(),
                |i: int|
                    price_source_of(
                        self.state().feed(asset@).sources[i],
                        self.state().feed(asset@).observations[i],
                    ),
            ),
    ;
}

impl OracleTrait for TrustBridgeOracle {
    open spec fn state(&self) -> OracleView {
        self@
    }

    open spec fn well_formed(&self) -> bool {
        self.wf()
    }

    fn init(&mut self, admins: Vec<String>, min_signatures: u32, config: OracleConfig) -> (out:
        Result<(), OracleError>)
    {
        if self.initialized {
            return Err(OracleError::AlreadyInitialized);
        }
        if admins.len() == 0 || min_signatures == 0 {
            return Err(OracleError::InvalidInput);
        }
        let set = admin_set(&admins);
        if min_signatures as usize > set.len() || !config.is_valid() {
            return Err(OracleError::InvalidInput);
        }
        let ghost before = self@;
        self.admins = set;
        self.min_signatures = min_signatures;
        self.config = config;
        self.breaker = CircuitBreaker { is_paused: false, pause_timestamp: 0, reason: String::new() };
        self.initialized = true;
        assert(self@ =~~= before.after_init(texts(admins@), min_signatures, config));
        Ok(())
    }

    fn submit_price(&mut self, asset: Asset, price: i128, source_id: String, now: u64) -> (out:
        Result<SubmitReceipt, OracleError>)
    {
        let ghost before = self@;
        if self.breaker.is_paused {
            return Err(OracleError::CircuitBreakerActive);
        }
        let weight: u32 = match self.registry.get(&source_id) {
            Some(w) => *w,
            None => {
                return Err(OracleError::UnauthorizedSource);
            },
        };
        if price <= 0 {
            return Err(OracleError::InvalidPrice);
        }
        let mut heartbeat_gap: Option<u64> = None;
        let previous = self.aggregate_ref(&asset);
        if let Some(data) = previous {
            let deviation = calculate_deviation_bps(price, data.price);
            if deviation > self.config.max_price_deviation_bps {
                self.breaker = CircuitBreaker {
                    is_paused: true,
                    pause_timestamp: now,
                    reason: "deviation".to_owned(),
                };
                assert(self@ =~~= before.after_submit(asset@, price, source_id@, now));
                return Err(OracleError::PriceDeviationExceeded);
            }
            if now > data.timestamp {
                let elapsed: u64 = now - data.timestamp;
                if elapsed as u128 > 2 * (self.config.heartbeat_interval as u128) {
                    heartbeat_gap = Some(elapsed);
                }
            }
        }
        let mut feed = self.take_feed(&asset);
        feed.observations.insert(source_id, Observation { price, timestamp: now, weight });
        let computed = aggregate_prices(&feed.observations, now, self.config.max_staleness_seconds);
        if computed.is_some() {
            feed.aggregate = computed;
        }
        let aggregate = feed.aggregate;
        assert(feed@ =~~= before.submitted_feed(asset@, price, source_id@, now));
        self.put_feed(asset, feed);
        assert(self@.feeds =~= before.feeds.insert(
            asset@,
            before.submitted_feed(asset@, price, source_id@, now),
        ));
        assert(self@ =~~= before.after_submit(asset@, price, source_id@, now));
        Ok(SubmitReceipt { aggregate, heartbeat_gap })
    }

    fn lastprice(&self, asset: &Asset, now: u64) -> (quote: Option<PriceData>)
    {
        match self.aggregate_ref(asset) {
            Some(data) => {
                if !check_fresh(now, data.timestamp, self.config.max_staleness_seconds) {
                    None
                } else if data.source_count < self.config.min_sources_required {
                    None
                } else {
                    Some(data)
                }
            },
            None => None,
        }
    }

    fn decimals(&self) -> (d: u32)
    {
        7
    }

    fn pause(&mut self, signers: &Vec<String>, reason: String, now: u64) -> (out: Result<
        (),
        OracleError,
    >)
    {
        if !self.authorize(signers) {
            return Err(OracleError::Unauthorized);
        }
        let ghost before = self@;
        self.breaker = CircuitBreaker { is_paused: true, pause_timestamp: now, reason };
        assert(self@ =~~= before.after_pause(texts(signers@), reason@, now));
        Ok(())
    }

    fn resume(&mut self, signers: &Vec<String>) -> (out: Result<(), OracleError>)
    {
        if !self.authorize(signers) {
            return Err(OracleError::Unauthorized);
        }
        let ghost before = self@;
        self.breaker = CircuitBreaker { is_paused: false, pause_timestamp: 0, reason: String::new() };
        assert(self@ =~~= before.after_resume(texts(signers@)));
        Ok(())
    }

    fn update_config(&mut self, signers: &Vec<String>, config: OracleConfig) -> (out: Result<
        (),
        OracleError,
    >)
    {
        if !self.authorize(signers) {
            return Err(OracleError::Unauthorized);
        }
        if !config.is_valid() {
            return Err(OracleError::InvalidInput);
        }
        let ghost before = self@;
        self.config = config;
        assert(self@ =~~= before.after_update_config(texts(signers@), config));
        Ok(())
    }

    fn add_source(&mut self, signers: &Vec<String>, source_id: String, weight: u32) -> (out:
        Result<(), OracleError>)
    {
        if !self.authorize(signers) {
            return Err(OracleError::Unauthorized);
        }
        if weight > 100 {
            return Err(OracleError::InvalidInput);
        }
        let ghost before = self@;
        self.registry.insert(source_id, weight);
        assert(self@ =~~= before.after_add_source(texts(signers@), source_id@, weight));
        Ok(())
    }

    fn remove_source(&mut self, signers: &Vec<String>, source_id: &String) -> (out: Result<
        (),
        OracleError,
    >)
    {
        if !self.authorize(signers) {
            return Err(OracleError::Unauthorized);
        }
        let ghost before = self@;
        self.registry.remove(source_id);
        assert(self@ =~~= before.after_remove_source(texts(signers@), source_id@));
        Ok(())
    }

    fn get_circuit_breaker(&self) -> (breaker: CircuitBreaker)
    {
        CircuitBreaker {
            is_paused: self.breaker.is_paused,
            pause_timestamp: self.breaker.pause_timestamp,
            reason: self.breaker.reason.clone(),
        }
    }

    fn get_config(&self) -> (config: OracleConfig)
    {
        self.config
    }

    fn add_admin(&mut self, signers: &Vec<String>, new_admin: String) -> (out: Result<
        (),
        OracleError,
    >)
    {
        if !self.authorize(signers) {
            return Err(OracleError::Unauthorized);
        }
        let ghost before = self@;
        self.admins.insert(new_admin, ());
        assert(self@ =~~= before.after_add_admin(texts(signers@), new_admin@));
        Ok(())
    }

    fn remove_admin(&mut self, signers: &Vec<String>, admin: &String) -> (out: Result<
        (),
        OracleError,
    >)
    {
        if !self.authorize(signers) {
            return Err(OracleError::Unauthorized);
        }
        if self.admins.len() <= self.min_signatures as usize {
            return Err(OracleError::InsufficientAdmins);
        }
        let ghost before = self@;
        self.admins.remove(admin);
        assert(self@ =~~= before.after_remove_admin(texts(signers@), admin@));
        Ok(())
    }

    fn get_admins(&self) -> (admins: Vec<String>)
    {
        let n: usize = self.admins.len();
        let mut admins: Vec<String> = Vec::new();
        let mut i: usize = 0;
        while i < n
            invariant
                self.wf(),
                n == self.admins.keys().len(),
                i <= n,
                admins@.len() == i,
                forall|j: int| 0 <= j < i ==> admins@[j]@ == self.admins.keys()[j],
            decreases n - i,
        {
            admins.push(self.admins.key_at(i).clone());
            i += 1;
        }
        assert(texts(admins@) =~= self@.admins);
        admins
    }

    fn get_price_sources(&self, asset: &Asset) -> (sources: Vec<PriceSource>)
    {
        let mut sources: Vec<PriceSource> = Vec::new();
        match self.feed_ref(asset) {
            Some(feed) => {
                let n: usize = feed.observations.len();
                let mut i: usize = 0;
                while i < n
                    invariant
                        feed.wf(),
                        n == feed.observations.keys().len(),
                        i <= n,
                        sources@.len() == i,
                        forall|j: int|
                            0 <= j < i ==> sources@[j]@ == price_source_of(
                                feed.observations.keys()[j],
                                feed.observations.values()[j],
                            ),
                    decreases n - i,
                {
                    let o: Observation = *feed.observations.value_at(i);
                    sources.push(
                        PriceSource {
                            source_id: feed.observations.key_at(i).clone(),
                            price: o.price,
                            timestamp: o.timestamp,
                            weight: o.weight,
                        },
                    );
                    i += 1;
                }
                assert(records(sources@) =~= Seq::new(
                    self@.feed(asset@).sources.len(),
                    |i: int|
                        price_source_of(
                            self@.feed(asset@).sources[i],
                            self@.feed(asset@).observations[i],
                        ),
                ));
            },
            None => {
                assert(records(sources@) =~= Seq::new(
                    self@.feed(asset@).sources.len(),
                    |i: int|
                        price_source_of(
                            self@.feed(asset@).sources[i],
                            self@.feed(asset@).observations[i],
                        ),
                ));
            },
        }
        sources
    }
}

} // verus!
