//! The oracle as a mathematical state, and each operation as a function
//! from the state before to the state after.

use vstd::prelude::*;
use crate::feed::{aggregate_of, empty_feed, is_fresh, prices_positive, FeedView};
use crate::governance::{approvals, distinct};
use crate::pricing::deviation_bps_capped;
use crate::store::{upsert_keys, upsert_values};
use crate::types::{AssetView, CircuitBreakerView, Observation, OracleConfig, OracleError, PriceData};

verus! {

/// The breaker while submissions are accepted.
pub open spec fn breaker_active() -> CircuitBreakerView {
    CircuitBreakerView { is_paused: false, pause_timestamp: 0, reason: Seq::<char>::empty() }
}

/// The breaker after it was tripped at `now` for `reason`.
pub open spec fn breaker_paused(now: u64, reason: Seq<char>) -> CircuitBreakerView {
    CircuitBreakerView { is_paused: true, pause_timestamp: now, reason }
}

/// The reason recorded when a deviation shock trips the breaker.
pub open spec fn deviation_reason() -> Seq<char> {
    "deviation"@
}

/// Everything the oracle stores.
#[verifier::ext_equal]
pub struct OracleView {
    /// Whether `init` has succeeded.
    pub initialized: bool,
    /// The admins, each once.
    pub admins: Seq<Seq<char>>,
    /// Number of admins that must authorize an administrative call.
    pub min_signatures: u32,
    /// The limits in force.
    pub config: OracleConfig,
    /// The one, global circuit breaker.
    pub breaker: CircuitBreakerView,
    /// Weight of each trusted source.
    pub registry: Map<Seq<char>, u32>,
    /// Observations and aggregate of each asset that was reported on.
    pub feeds: Map<AssetView, FeedView>,
}

impl OracleView {
    /// The state before `init`: no admins, no sources, no prices, the
    /// breaker active.
    pub open spec fn blank() -> OracleView {
        OracleView {
            initialized: false,
            admins: Seq::<Seq<char>>::empty(),
            min_signatures: 0,
            config: OracleConfig {
                max_price_deviation_bps: 0,
                max_staleness_seconds: 0,
                min_sources_required: 0,
                heartbeat_interval: 0,
            },
            breaker: breaker_active(),
            registry: Map::<Seq<char>, u32>::empty(),
            feeds: Map::<AssetView, FeedView>::empty(),
        }
    }

    /// What holds of every state that the operations reach.
    pub open spec fn valid(self) -> bool {
        &&& self.config.valid()
        &&& self.admins.no_duplicates()
        &&& self.initialized ==> 1 <= self.min_signatures <= self.admins.len()
        &&& self.breaker.is_paused ==> self.initialized
        &&& forall|k: Seq<char>| #[trigger] self.registry.contains_key(k) ==> self.initialized
        &&& forall|a: AssetView| #[trigger]
            self.feeds.contains_key(a) ==> {
                &&& self.feeds[a].sources.len() == self.feeds[a].observations.len()
                &&& self.feeds[a].sources.no_duplicates()
                &&& prices_positive(self.feeds[a].observations)
            }
    }

    /// Whether the governance gate lets a call through that `signers`
    /// authorized.
    pub open spec fn authorizes(self, signers: Seq<Seq<char>>) -> bool {
        self.initialized && approvals(self.admins, signers) >= self.min_signatures
    }

    /// The feed of `asset`, empty if nobody reported on it.
    pub open spec fn feed(self, asset: AssetView) -> FeedView {
        if self.feeds.contains_key(asset) {
            self.feeds[asset]
        } else {
            empty_feed()
        }
    }

    /// The price served for `asset` at `now`: the aggregate, while it is
    /// fresh and enough sources contributed to it.
    pub open spec fn quote(self, asset: AssetView, now: u64) -> Option<PriceData> {
        match self.feed(asset).aggregate {
            Some(data) => if is_fresh(now, data.timestamp, self.config.max_staleness_seconds)
                && data.source_count >= self.config.min_sources_required {
                Some(data)
            } else {
                None
            },
            None => None,
        }
    }

    /// The age of the aggregate of `asset`, if staleness keeps it from being
    /// served at `now`.
    pub open spec fn stale_age(self, asset: AssetView, now: u64) -> Option<u64> {
        match self.feed(asset).aggregate {
            Some(data) => if is_fresh(now, data.timestamp, self.config.max_staleness_seconds) {
                None
            } else {
                Some((now - data.timestamp) as u64)
            },
            None => None,
        }
    }

    /// Why `init` is refused, if it is.
    pub open spec fn init_error(
        self,
        admins: Seq<Seq<char>>,
        min_signatures: u32,
        config: OracleConfig,
    ) -> Option<OracleError> {
        if self.initialized {
            Some(OracleError::AlreadyInitialized)
        } else if admins.len() == 0 || min_signatures == 0 || min_signatures > distinct(
            admins,
        ).len() || !config.valid() {
            Some(OracleError::InvalidInput)
        } else {
            None
        }
    }

    /// The state after `init`.
    pub open spec fn after_init(
        self,
        admins: Seq<Seq<char>>,
        min_signatures: u32,
        config: OracleConfig,
    ) -> OracleView {
        if self.init_error(admins, min_signatures, config).is_some() {
            self
        } else {
            OracleView {
                initialized: true,
                admins: distinct(admins),
                min_signatures,
                config,
                breaker: breaker_active(),
                ..self
            }
        }
    }

    /// Whether `price` moves further from the previous aggregate of `asset`
    /// than the configuration allows. Without a previous aggregate nothing
    /// is compared.
    pub open spec fn deviation_trips(self, asset: AssetView, price: i128) -> bool {
        match self.feed(asset).aggregate {
            Some(previous) => deviation_bps_capped(price as int, previous.price as int)
                > self.config.max_price_deviation_bps,
            None => false,
        }
    }

    /// The feed of `asset` once `source_id` has reported `price` at `now` and
    /// the aggregate was recomputed. When no observation is fresh, or the
    /// fresh ones carry no weight, the previous aggregate stays.
    pub open spec fn submitted_feed(
        self,
        asset: AssetView,
        price: i128,
        source_id: Seq<char>,
        now: u64,
    ) -> FeedView {
        let feed = self.feed(asset);
        let written = Observation { price, timestamp: now, weight: self.registry[source_id] };
        let observations = upsert_values(feed.sources, feed.observations, source_id, written);
        FeedView {
            sources: upsert_keys(feed.sources, source_id),
            observations,
            aggregate: match aggregate_of(observations, now, self.config.max_staleness_seconds) {
                Some(data) => Some(data),
                None => feed.aggregate,
            },
        }
    }

    /// Why a submission is refused, if it is. The checks come in this order.
    pub open spec fn submit_error(
        self,
        asset: AssetView,
        price: i128,
        source_id: Seq<char>,
        now: u64,
    ) -> Option<OracleError> {
        if self.breaker.is_paused {
            Some(OracleError::CircuitBreakerActive)
        } else if !self.registry.contains_key(source_id) {
            Some(OracleError::UnauthorizedSource)
        } else if price <= 0 {
            Some(OracleError::InvalidPrice)
        } else if self.deviation_trips(asset, price) {
            Some(OracleError::PriceDeviationExceeded)
        } else {
            None
        }
    }

    /// The state after a submission. A deviation shock is refused and still
    /// trips the breaker; every other refusal leaves the state as it was.
    pub open spec fn after_submit(
        self,
        asset: AssetView,
        price: i128,
        source_id: Seq<char>,
        now: u64,
    ) -> OracleView {
        match self.submit_error(asset, price, source_id, now) {
            None => OracleView {
                feeds: self.feeds.insert(
                    asset,
                    self.submitted_feed(asset, price, source_id, now),
                ),
                ..self
            },
            Some(OracleError::PriceDeviationExceeded) => OracleView {
                breaker: breaker_paused(now, deviation_reason()),
                ..self
            },
            Some(_) => self,
        }
    }

    /// Seconds since the previous aggregate of `asset`, if they are more than
    /// twice the heartbeat interval.
    pub open spec fn heartbeat_gap(self, asset: AssetView, now: u64) -> Option<u64> {
        match self.feed(asset).aggregate {
            Some(previous) => if now as int - previous.timestamp as int > 2
                * self.config.heartbeat_interval as int {
                Some((now - previous.timestamp) as u64)
            } else {
                None
            },
            None => None,
        }
    }

    /// The state after `pause`.
    pub open spec fn after_pause(self, signers: Seq<Seq<char>>, reason: Seq<char>, now: u64) -> OracleView {
        if self.authorizes(signers) {
            OracleView { breaker: breaker_paused(now, reason), ..self }
        } else {
            self
        }
    }

    /// The state after `resume`.
    pub open spec fn after_resume(self, signers: Seq<Seq<char>>) -> OracleView {
        if self.authorizes(signers) {
            OracleView { breaker: breaker_active(), ..self }
        } else {
            self
        }
    }

    /// Why `update_config` is refused, if it is.
    pub open spec fn update_config_error(
        self,
        signers: Seq<Seq<char>>,
        config: OracleConfig,
    ) -> Option<OracleError> {
        if !self.authorizes(signers) {
            Some(OracleError::Unauthorized)
        } else if !config.valid() {
            Some(OracleError::InvalidInput)
        } else {
            None
        }
    }

    /// The state after `update_config`.
    pub open spec fn after_update_config(
        self,
        signers: Seq<Seq<char>>,
        config: OracleConfig,
    ) -> OracleView {
        if self.update_config_error(signers, config).is_some() {
            self
        } else {
            OracleView { config, ..self }
        }
    }

    /// Why `add_source` is refused, if it is.
    pub open spec fn add_source_error(self, signers: Seq<Seq<char>>, weight: u32) -> Option<
        OracleError,
    > {
        if !self.authorizes(signers) {
            Some(OracleError::Unauthorized)
        } else if weight > 100 {
            Some(OracleError::InvalidInput)
        } else {
            None
        }
    }

    /// The state after `add_source`.
    pub open spec fn after_add_source(
        self,
        signers: Seq<Seq<char>>,
        source_id: Seq<char>,
        weight: u32,
    ) -> OracleView {
        if self.add_source_error(signers, weight).is_some() {
            self
        } else {
            OracleView { registry: self.registry.insert(source_id, weight), ..self }
        }
    }

    /// The state after `remove_source`.
    pub open spec fn after_remove_source(
        self,
        signers: Seq<Seq<char>>,
        source_id: Seq<char>,
    ) -> OracleView {
        if self.authorizes(signers) {
            OracleView { registry: self.registry.remove(source_id), ..self }
        } else {
            self
        }
    }

    /// The state after `add_admin`.
    pub open spec fn after_add_admin(self, signers: Seq<Seq<char>>, admin: Seq<char>) -> OracleView {
        if self.authorizes(signers) {
            OracleView { admins: upsert_keys(self.admins, admin), ..self }
        } else {
            self
        }
    }

    /// Why `remove_admin` is refused, if it is.
    pub open spec fn remove_admin_error(self, signers: Seq<Seq<char>>) -> Option<OracleError> {
        if !self.authorizes(signers) {
            Some(OracleError::Unauthorized)
        } else if self.admins.len() <= self.min_signatures {
            Some(OracleError::InsufficientAdmins)
        } else {
            None
        }
    }

    /// The state after `remove_admin`.
    pub open spec fn after_remove_admin(
        self,
        signers: Seq<Seq<char>>,
        admin: Seq<char>,
    ) -> OracleView {
        if self.remove_admin_error(signers).is_some() || !self.admins.contains(admin) {
            self
        } else {
            OracleView { admins: self.admins.remove(self.admins.index_of(admin)), ..self }
        }
    }
}

} // verus!
