//! A multi-source price oracle with manipulation resistance.
//!
//! Independent reporters submit price observations; the engine combines the
//! fresh ones into one weighted price per asset, trips a circuit breaker on a
//! deviation shock, and serves the price only while it is fresh and
//! sufficiently corroborated. Every operation works on an explicit store and
//! takes the current time as an argument.
//!
//! - `types`: the records that are stored and handed out.
//! - `pricing`: deviation, confidence and exact weighted sums.
//! - `store`: the keyed store behind the registry and the feeds.
//! - `feed`: the observations of one asset and their aggregate.
//! - `governance`: the quorum of admins.
//! - `model`: the oracle as a mathematical state machine.
//! - `oracle`: the push-based oracle, which refines the model.
//! - `guarantees`: what is proved of the model across operations.
//! - `aggregator`: the pull-based engine over external feeds.
//! - `guardian`: the security guardian that watches the protocol.

pub mod aggregator;
pub mod feed;
pub mod governance;
pub mod guarantees;
pub mod guardian;
pub mod model;
pub mod oracle;
pub mod pricing;
pub mod store;
pub mod types;
