//! The records that the oracle stores and hands out, and their views.

use vstd::prelude::*;

verus! {

/// The authoritative price of one asset.
#[derive(Clone, Copy, Debug, PartialEq, Eq, Structural)]
pub struct PriceData {
    /// Weighted average of the fresh observations.
    pub price: i128,
    /// Time of the computation.
    pub timestamp: u64,
    /// Number of sources that contributed to this computation.
    pub source_count: u32,
    /// Confidence score, 0 to 100.
    pub confidence: u32,
}

/// Limits under which the oracle accepts and serves prices.
#[derive(Clone, Copy, Debug, PartialEq, Eq, Structural)]
pub struct OracleConfig {
    /// Largest accepted move against the previous aggregate, in basis points.
    pub max_price_deviation_bps: u32,
    /// Age in seconds beyond which a record counts as stale.
    pub max_staleness_seconds: u64,
    /// Number of contributing sources below which no price is served.
    pub min_sources_required: u32,
    /// Expected update frequency in seconds.
    pub heartbeat_interval: u64,
}

impl OracleConfig {
    /// The deviation bound is at most 100%.
    pub open spec fn valid(&self) -> bool {
        self.max_price_deviation_bps <= 10000
    }

    /// Whether the deviation bound is at most 100%.
    pub fn is_valid(&self) -> (ok: bool)
        ensures
            ok == self.valid(),
    {
        self.max_price_deviation_bps <= 10000
    }
}

/// What one source last reported for one asset, as stored.
#[derive(Clone, Copy, Debug, PartialEq, Eq, Structural)]
pub struct Observation {
    /// Reported price.
    pub price: i128,
    /// Time of the report.
    pub timestamp: u64,
    /// Weight of the source at the time of the report.
    pub weight: u32,
}

/// What one source last reported for one asset, with the source's name.
#[derive(Clone, Debug, PartialEq, Eq)]
pub struct PriceSource {
    /// Name of the source.
    pub source_id: String,
    /// Reported price.
    pub price: i128,
    /// Time of the report.
    pub timestamp: u64,
    /// Weight of the source at the time of the report.
    pub weight: u32,
}

/// A `PriceSource` as a plain value.
pub struct PriceSourceView {
    pub source_id: Seq<char>,
    pub price: i128,
    pub timestamp: u64,
    pub weight: u32,
}

impl View for PriceSource {
    type V = PriceSourceView;

    open spec fn view(&self) -> PriceSourceView {
        PriceSourceView {
            source_id: self.source_id@,
            price: self.price,
            timestamp: self.timestamp,
            weight: self.weight,
        }
    }
}

/// The record that `source_id` holds with observation `o`.
pub open spec fn price_source_of(source_id: Seq<char>, o: Observation) -> PriceSourceView {
    PriceSourceView { source_id, price: o.price, timestamp: o.timestamp, weight: o.weight }
}

/// State of the circuit breaker.
#[derive(Clone, Debug, PartialEq, Eq)]
pub struct CircuitBreaker {
    /// Whether submissions are blocked.
    pub is_paused: bool,
    /// Time of the pause, 0 while active.
    pub pause_timestamp: u64,
    /// Why the breaker was tripped, empty while active.
    pub reason: String,
}

/// A `CircuitBreaker` as a plain value.
pub struct CircuitBreakerView {
    pub is_paused: bool,
    pub pause_timestamp: u64,
    pub reason: Seq<char>,
}

impl View for CircuitBreaker {
    type V = CircuitBreakerView;

    open spec fn view(&self) -> CircuitBreakerView {
        CircuitBreakerView {
            is_paused: self.is_paused,
            pause_timestamp: self.pause_timestamp,
            reason: self.reason@,
        }
    }
}

/// A priced instrument: an asset of the ledger, named by its contract
/// address, or any other instrument, named by a symbol.
#[derive(Clone, Debug, PartialEq, Eq)]
pub enum Asset {
    Stellar(String),
    Other(String),
}

/// An `Asset` as a plain value.
pub enum AssetView {
    Stellar(Seq<char>),
    Other(Seq<char>),
}

impl View for Asset {
    type V = AssetView;

    open spec fn view(&self) -> AssetView {
        match self {
            Asset::Stellar(address) => AssetView::Stellar(address@),
            Asset::Other(symbol) => AssetView::Other(symbol@),
        }
    }
}

/// Why an operation of the oracle was refused.
#[derive(Clone, Copy, Debug, PartialEq, Eq, Structural)]
pub enum OracleError {
    /// `init` on an oracle that was initialized before.
    AlreadyInitialized,
    /// A malformed argument: an empty admin set, a quorum of zero or beyond
    /// the admin set, a deviation bound beyond 100%, a weight beyond 100.
    InvalidInput,
    /// The governance quorum did not authorize the call.
    Unauthorized,
    /// The circuit breaker is tripped.
    CircuitBreakerActive,
    /// The submitting source is not in the registry.
    UnauthorizedSource,
    /// The submitted price is not positive.
    InvalidPrice,
    /// The submitted price moved too far from the previous aggregate.
    PriceDeviationExceeded,
    /// Removing an admin would leave fewer admins than the quorum.
    InsufficientAdmins,
    /// A sum or a product of the pull-based computation, or the expiry of
    /// an emergency price, does not fit its integer type.
    Overflow,
    /// The feed is already among the sources of the asset.
    OracleAlreadyExists,
    /// Fewer feeds answered in time than are required.
    InsufficientValidPrices,
    /// The feeds that answered in time carry no weight.
    NoWeight,
}

} // verus!
