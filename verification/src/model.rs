//! The mathematical model of the engine: its abstract state (the running
//! flag and the map from packed region keys to regions) and the transition
//! each lifecycle operation makes on it. The executable engine and workers
//! are specified against exactly these functions, and the engine's laws are
//! proved about them.

use vstd::prelude::*;
use crate::error::EngineError;
use crate::region_id::RegionId;
use crate::request::{Region, RegionCreateRequest, RegionRequest};

verus! {

/// The abstract state of the engine (and, in miniature, of a single worker):
/// whether it still accepts work, and which regions exist, keyed by the
/// packed form of their identity.
pub struct StateView {
    pub running: bool,
    pub regions: Map<u64, Region>,
}

/// The sharding function: which worker, out of `n`, owns a packed region
/// key. A pure function of the key and the worker count alone, so it is
/// stable for the whole life of an engine.
pub open spec fn route_key(key: u64, n: int) -> int
    recommends
        n > 0,
{
    key as int % n
}

/// The generation counter after one alter: bumped, saturating at the top of
/// the counter's range.
pub open spec fn bump_version(v: u64) -> u64 {
    if v < u64::MAX {
        (v + 1) as u64
    } else {
        v
    }
}

/// The region a successful create installs: the requested identity and
/// configuration, open, at generation zero.
pub open spec fn region_of_create(req: RegionCreateRequest) -> Region {
    Region { region_id: req.region_id, config: req.config, opened: true, version: 0 }
}

/// What one request does to a region map, assuming the owner is running:
/// the new map and the reply. No transition is partial — either the whole
/// effect is applied and the reply is Ok, or the map is unchanged and the
/// reply says why.
pub open spec fn apply_request(m: Map<u64, Region>, req: RegionRequest) -> (Map<
    u64,
    Region,
>, Result<(), EngineError>) {
    match req {
        RegionRequest::Create(c) => {
            let key = c.region_id.packed();
            if m.contains_key(key) {
                if c.create_if_not_exists {
                    (m, Ok(()))
                } else {
                    (m, Err(EngineError::RegionExists { region_id: c.region_id }))
                }
            } else {
                (m.insert(key, region_of_create(c)), Ok(()))
            }
        },
        RegionRequest::Open { region_id } => {
            let key = region_id.packed();
            if m.contains_key(key) {
                let r = m[key];
                (
                    m.insert(
                        key,
                        Region {
                            region_id: r.region_id,
                            config: r.config,
                            opened: true,
                            version: r.version,
                        },
                    ),
                    Ok(()),
                )
            } else {
                (m, Err(EngineError::RegionNotFound { region_id }))
            }
        },
        RegionRequest::Close { region_id } => {
            let key = region_id.packed();
            if m.contains_key(key) {
                let r = m[key];
                (
                    m.insert(
                        key,
                        Region {
                            region_id: r.region_id,
                            config: r.config,
                            opened: false,
                            version: r.version,
                        },
                    ),
                    Ok(()),
                )
            } else {
                (m, Err(EngineError::RegionNotFound { region_id }))
            }
        },
        RegionRequest::Drop { region_id } => {
            let key = region_id.packed();
            if m.contains_key(key) {
                (m.remove(key), Ok(()))
            } else {
                (m, Err(EngineError::RegionNotFound { region_id }))
            }
        },
        RegionRequest::Alter { region_id, new_config } => {
            let key = region_id.packed();
            if m.contains_key(key) {
                let r = m[key];
                (
                    m.insert(
                        key,
                        Region {
                            region_id: r.region_id,
                            config: new_config,
                            opened: r.opened,
                            version: bump_version(r.version),
                        },
                    ),
                    Ok(()),
                )
            } else {
                (m, Err(EngineError::RegionNotFound { region_id }))
            }
        },
    }
}

/// One submission through the running-flag gate: a stopped engine or worker
/// rejects the request untouched with WorkerStopped; a running one applies it.
pub open spec fn spec_submit(v: StateView, req: RegionRequest) -> (StateView, Result<
    (),
    EngineError,
>) {
    if !v.running {
        (v, Err(EngineError::WorkerStopped))
    } else {
        let (m, r) = apply_request(v.regions, req);
        (StateView { running: v.running, regions: m }, r)
    }
}

/// The transition of `create_region`.
pub open spec fn spec_create(v: StateView, req: RegionCreateRequest) -> (StateView, Result<
    (),
    EngineError,
>) {
    spec_submit(v, RegionRequest::Create(req))
}

/// The transition of `open_region`.
pub open spec fn spec_open(v: StateView, region_id: RegionId) -> (StateView, Result<
    (),
    EngineError,
>) {
    spec_submit(v, RegionRequest::Open { region_id })
}

/// The transition of `close_region`.
pub open spec fn spec_close(v: StateView, region_id: RegionId) -> (StateView, Result<
    (),
    EngineError,
>) {
    spec_submit(v, RegionRequest::Close { region_id })
}

/// The transition of `drop_region`.
pub open spec fn spec_drop(v: StateView, region_id: RegionId) -> (StateView, Result<
    (),
    EngineError,
>) {
    spec_submit(v, RegionRequest::Drop { region_id })
}

/// The transition of `alter_region`.
pub open spec fn spec_alter(
    v: StateView,
    region_id: RegionId,
    new_config: crate::request::RegionConfig,
) -> (StateView, Result<(), EngineError>) {
    spec_submit(v, RegionRequest::Alter { region_id, new_config })
}

/// The transition of `stop`: a one-way flip of the running flag. Regions are
/// kept; it always succeeds, so a second stop is a no-op success.
pub open spec fn spec_stop(v: StateView) -> (StateView, Result<(), EngineError>) {
    (StateView { running: false, regions: v.regions }, Ok(()))
}

/// What `is_region_exists` answers: a stopped engine answers false rather
/// than erroring, since this is a query, not a mutation.
pub open spec fn spec_is_region_exists(v: StateView, region_id: RegionId) -> bool {
    v.running && v.regions.contains_key(region_id.packed())
}

/// The sharding function always lands inside the worker pool.
pub proof fn lemma_route_in_range(key: u64, n: int)
    requires
        n > 0,
    ensures
        0 <= route_key(key, n) < n,
{
    vstd::arithmetic::div_mod::lemma_mod_bound(key as int, n);
}

/// A request only ever touches the region it is scoped to: at every other
/// key the map is left exactly as it was.
pub proof fn lemma_apply_frame(m: Map<u64, Region>, req: RegionRequest, k: u64)
    requires
        k != req.spec_region_id().packed(),
    ensures
        apply_request(m, req).0.contains_key(k) == m.contains_key(k),
        apply_request(m, req).0.contains_key(k) ==> apply_request(m, req).0[k] == m[k],
{
}

/// Two maps that agree at the key a request is scoped to produce the same
/// reply, and agree at that key afterwards. This is why a worker that holds
/// exactly the engine's regions for its shard answers for the whole engine.
pub proof fn lemma_apply_agree(
    m1: Map<u64, Region>,
    m2: Map<u64, Region>,
    req: RegionRequest,
    key: u64,
)
    requires
        key == req.spec_region_id().packed(),
        m1.contains_key(key) == m2.contains_key(key),
        m1.contains_key(key) ==> m1[key] == m2[key],
    ensures
        apply_request(m1, req).1 == apply_request(m2, req).1,
        apply_request(m1, req).0.contains_key(key) == apply_request(m2, req).0.contains_key(key),
        apply_request(m1, req).0.contains_key(key) ==> apply_request(m1, req).0[key]
            == apply_request(m2, req).0[key],
{
}

} // verus!
