//! Core of a time-series storage node: a region engine that owns on-disk
//! regions (horizontally-partitioned table shards), serializes mutating
//! operations per region through a fixed pool of workers, and exposes a
//! lifecycle API (create, open, close, drop, alter, stop) to the layer above.
//!
//! The engine routes every region-scoped request to exactly one worker by a
//! deterministic sharding function of the region identity, so that no two
//! operations on the same region ever run concurrently, while operations on
//! regions owned by different workers proceed independently. A one-way
//! running flag gates all mutations: after `stop`, every mutating call fails
//! fast with `WorkerStopped`.
//!
//! Beside the engine stands the node's telemetry bookkeeping: the
//! retry-with-cache state machine that resolves the installation identifier,
//! and the assembly of the statistics record that a periodic reporter sends.

pub mod engine;
pub mod error;
pub mod laws;
pub mod model;
pub mod region_id;
pub mod request;
pub mod store_util;
pub mod telemetry;
pub mod worker;

pub use engine::{Engine, EngineConfig};
pub use error::EngineError;
pub use region_id::RegionId;
pub use request::{CreateRequestBuilder, Region, RegionConfig, RegionCreateRequest, RegionRequest};
pub use telemetry::Mode;
pub use worker::Worker;
