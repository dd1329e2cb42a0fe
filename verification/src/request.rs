//! Regions, their configuration, and the requests a caller hands to the
//! engine. A region exists once successfully created, carries the
//! configuration supplied at creation, an open/closed sub-state toggled by
//! open and close, and a generation counter bumped on alter.

use vstd::prelude::*;
use crate::region_id::RegionId;

verus! {

/// Configuration supplied when a region is created: where its durable data
/// lives. Opaque to the engine; stored with the region and never silently
/// overwritten.
#[derive(Debug, PartialEq, Eq)]
pub struct RegionConfig {
    pub region_dir: String,
}

impl RegionConfig {
    pub fn new(region_dir: String) -> (r: Self)
        ensures
            r.region_dir == region_dir,
    {
        RegionConfig { region_dir }
    }

    /// A fresh copy, equal to this one.
    pub fn duplicate(&self) -> (r: Self)
        ensures
            r == *self,
    {
        RegionConfig { region_dir: self.region_dir.clone() }
    }
}

impl Default for RegionConfig {
    fn default() -> (r: Self)
        ensures
            r.region_dir@ == Seq::<char>::empty(),
    {
        RegionConfig { region_dir: String::new() }
    }
}

/// A region as its owning worker sees it: identity, the configuration it was
/// created with, whether it is currently open, and the generation counter.
#[derive(Debug, PartialEq, Eq)]
pub struct Region {
    pub region_id: RegionId,
    pub config: RegionConfig,
    pub opened: bool,
    pub version: u64,
}

/// A request to create a region.
#[derive(Debug, PartialEq, Eq)]
pub struct RegionCreateRequest {
    pub region_id: RegionId,
    pub config: RegionConfig,
    /// When true, a create against an already-present region is a no-op
    /// success instead of a RegionExists failure.
    pub create_if_not_exists: bool,
}

/// Builds create requests; reusable, so the same request can be issued twice.
#[derive(Debug)]
pub struct CreateRequestBuilder {
    pub region_id: RegionId,
    pub config: RegionConfig,
    pub create_if_not_exists: bool,
}

impl CreateRequestBuilder {
    pub fn new(region_id: RegionId) -> (r: Self)
        ensures
            r.region_id == region_id,
            r.config.region_dir@ == Seq::<char>::empty(),
            !r.create_if_not_exists,
    {
        CreateRequestBuilder { region_id, config: RegionConfig::default(), create_if_not_exists: false }
    }

    pub fn create_if_not_exists(self, value: bool) -> (r: Self)
        ensures
            r.region_id == self.region_id,
            r.config == self.config,
            r.create_if_not_exists == value,
    {
        CreateRequestBuilder { region_id: self.region_id, config: self.config, create_if_not_exists: value }
    }

    pub fn config(self, config: RegionConfig) -> (r: Self)
        ensures
            r.region_id == self.region_id,
            r.config == config,
            r.create_if_not_exists == self.create_if_not_exists,
    {
        CreateRequestBuilder { region_id: self.region_id, config, create_if_not_exists: self.create_if_not_exists }
    }

    pub fn build(&self) -> (r: RegionCreateRequest)
        ensures
            r.region_id == self.region_id,
            r.config == self.config,
            r.create_if_not_exists == self.create_if_not_exists,
    {
        RegionCreateRequest {
            region_id: self.region_id,
            config: self.config.duplicate(),
            create_if_not_exists: self.create_if_not_exists,
        }
    }
}

/// One unit of work for a worker: the lifecycle operations, each scoped to a
/// single region.
#[derive(Debug)]
pub enum RegionRequest {
    Create(RegionCreateRequest),
    Open { region_id: RegionId },
    Close { region_id: RegionId },
    Drop { region_id: RegionId },
    Alter { region_id: RegionId, new_config: RegionConfig },
}

impl RegionRequest {
    /// The region this request is scoped to; what the engine routes by.
    pub open spec fn spec_region_id(&self) -> RegionId {
        match *self {
            RegionRequest::Create(ref c) => c.region_id,
            RegionRequest::Open { region_id } => region_id,
            RegionRequest::Close { region_id } => region_id,
            RegionRequest::Drop { region_id } => region_id,
            RegionRequest::Alter { region_id, .. } => region_id,
        }
    }

    pub fn region_id(&self) -> (r: RegionId)
        ensures
            r == self.spec_region_id(),
    {
        match self {
            RegionRequest::Create(c) => c.region_id,
            RegionRequest::Open { region_id } => *region_id,
            RegionRequest::Close { region_id } => *region_id,
            RegionRequest::Drop { region_id } => *region_id,
            RegionRequest::Alter { region_id, .. } => *region_id,
        }
    }
}

} // verus!
