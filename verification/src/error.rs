//! Failure taxonomy of the engine. Every operation returns one of these to
//! its immediate caller; none is swallowed and none crashes the engine.

use vstd::prelude::*;
use crate::region_id::RegionId;

verus! {

/// What the durable-storage collaborator reported when it failed. The engine
/// surfaces it verbatim and never retries internally.
#[derive(Clone, Copy, Debug, PartialEq, Eq, Structural)]
pub struct StorageFault {
    pub code: i32,
}

/// The errors a caller of the engine can observe.
#[derive(Clone, Copy, Debug, PartialEq, Eq, Structural)]
pub enum EngineError {
    /// The engine (or the owning worker) no longer accepts work. Observed by
    /// every mutating call after `stop`; recoverable only by recreating the
    /// engine.
    WorkerStopped,
    /// A create hit an already-present region without the if-not-exists
    /// relaxation. The existing region is left untouched.
    RegionExists { region_id: RegionId },
    /// An open, close, drop or alter aimed at a region that does not exist.
    RegionNotFound { region_id: RegionId },
    /// The durable-storage collaborator failed while working on this region;
    /// the engine state is left exactly as it was.
    StorageFailure { region_id: RegionId, fault: StorageFault },
}

impl EngineError {
    pub fn is_worker_stopped(&self) -> (r: bool)
        ensures
            r == (*self is WorkerStopped),
    {
        matches!(self, EngineError::WorkerStopped)
    }

    pub fn is_region_exists(&self) -> (r: bool)
        ensures
            r == (*self is RegionExists),
    {
        matches!(self, EngineError::RegionExists { .. })
    }

    pub fn is_region_not_found(&self) -> (r: bool)
        ensures
            r == (*self is RegionNotFound),
    {
        matches!(self, EngineError::RegionNotFound { .. })
    }

    pub fn is_storage_failure(&self) -> (r: bool)
        ensures
            r == (*self is StorageFailure),
    {
        matches!(self, EngineError::StorageFailure { .. })
    }
}

} // verus!
