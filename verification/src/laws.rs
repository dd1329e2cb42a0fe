//! The engine's laws: what holds of every state and every input, proved once
//! and for all over the abstract transitions in `model`. Each law is phrased
//! exactly against the spec functions the executable engine is specified by,
//! so it carries over to any sequence of engine calls.

use vstd::prelude::*;
use crate::error::EngineError;
use crate::model::{
    lemma_route_in_range, route_key, spec_create, spec_is_region_exists, spec_stop, StateView,
};
use crate::region_id::RegionId;
use crate::request::RegionCreateRequest;

verus! {

/// Routing is deterministic and stable: it is a pure function of the packed
/// identity and the (fixed) worker count alone, two equal identifiers always
/// land on the same worker, and the result is always inside the pool. With
/// the engine invariant — worker `i` only holds keys routing to `i` — this is
/// why at most one worker ever owns a given region.
pub proof fn lemma_route_deterministic(a: RegionId, b: RegionId, n: int)
    requires
        n > 0,
        a == b,
    ensures
        route_key(a.packed(), n) == route_key(b.packed(), n),
        0 <= route_key(a.packed(), n) < n,
{
    lemma_route_in_range(a.packed(), n);
}

/// A successful strict create makes the region visible, and a second strict
/// create of the same region fails with RegionExists, leaving the state
/// exactly as the first create left it.
pub proof fn lemma_create_then_recreate(
    v: StateView,
    req1: RegionCreateRequest,
    req2: RegionCreateRequest,
)
    requires
        v.running,
        !v.regions.contains_key(req1.region_id.packed()),
        req2.region_id == req1.region_id,
        !req1.create_if_not_exists,
        !req2.create_if_not_exists,
    ensures
        spec_create(v, req1).1 == Ok::<(), EngineError>(()),
        spec_is_region_exists(spec_create(v, req1).0, req1.region_id),
        spec_create(spec_create(v, req1).0, req2).1 == Err::<(), EngineError>(
            EngineError::RegionExists { region_id: req2.region_id },
        ),
        spec_create(spec_create(v, req1).0, req2).0 == spec_create(v, req1).0,
{
}

/// Two creates of the same region with the if-not-exists relaxation both
/// succeed, and the second one mutates nothing: the configuration stored by
/// the first call is never silently overwritten, whatever configuration the
/// second call carries.
pub proof fn lemma_create_if_not_exists_idempotent(
    v: StateView,
    req1: RegionCreateRequest,
    req2: RegionCreateRequest,
)
    requires
        v.running,
        req2.region_id == req1.region_id,
        req1.create_if_not_exists,
        req2.create_if_not_exists,
    ensures
        spec_create(v, req1).1 == Ok::<(), EngineError>(()),
        spec_create(spec_create(v, req1).0, req2).1 == Ok::<(), EngineError>(()),
        spec_create(spec_create(v, req1).0, req2).0 == spec_create(v, req1).0,
        !v.regions.contains_key(req1.region_id.packed()) ==> spec_create(
            spec_create(v, req1).0,
            req2,
        ).0.regions[req1.region_id.packed()].config == req1.config,
{
}

/// After a stop, every create — on any identifier, existing or never used
/// before — fails with WorkerStopped and changes nothing.
pub proof fn lemma_stopped_rejects_create(v: StateView, req: RegionCreateRequest)
    ensures
        spec_create(spec_stop(v).0, req).1 == Err::<(), EngineError>(EngineError::WorkerStopped),
        spec_create(spec_stop(v).0, req).0 == spec_stop(v).0,
{
}

/// Stop is idempotent: it always reports success, and stopping a stopped
/// engine changes nothing and raises no error.
pub proof fn lemma_stop_idempotent(v: StateView)
    ensures
        spec_stop(v).1 == Ok::<(), EngineError>(()),
        spec_stop(spec_stop(v).0).1 == Ok::<(), EngineError>(()),
        spec_stop(spec_stop(v).0).0 == spec_stop(v).0,
{
}

/// Two strict creates race on the same (absent) region. The owning worker
/// serializes them in some order; whichever order that is, exactly one
/// succeeds and the other fails with RegionExists — never both, never
/// neither — and the final state is the one the winner installed.
pub proof fn lemma_same_region_create_race(
    v: StateView,
    req1: RegionCreateRequest,
    req2: RegionCreateRequest,
)
    requires
        v.running,
        !v.regions.contains_key(req1.region_id.packed()),
        req2.region_id == req1.region_id,
        !req1.create_if_not_exists,
        !req2.create_if_not_exists,
    ensures
        spec_create(v, req1).1 == Ok::<(), EngineError>(()),
        spec_create(spec_create(v, req1).0, req2).1 == Err::<(), EngineError>(
            EngineError::RegionExists { region_id: req2.region_id },
        ),
        spec_create(spec_create(v, req1).0, req2).0 == spec_create(v, req1).0,
        spec_create(v, req2).1 == Ok::<(), EngineError>(()),
        spec_create(spec_create(v, req2).0, req1).1 == Err::<(), EngineError>(
            EngineError::RegionExists { region_id: req1.region_id },
        ),
        spec_create(spec_create(v, req2).0, req1).0 == spec_create(v, req2).0,
{
}

/// Creates for two regions owned by different workers are independent: in
/// either order both succeed, and the final state is the same — neither can
/// block or disturb the other, since each touches only its own worker's
/// shard.
pub proof fn lemma_distinct_region_creates_commute(
    v: StateView,
    req1: RegionCreateRequest,
    req2: RegionCreateRequest,
    n: int,
)
    requires
        v.running,
        n > 0,
        !v.regions.contains_key(req1.region_id.packed()),
        !v.regions.contains_key(req2.region_id.packed()),
        route_key(req1.region_id.packed(), n) != route_key(req2.region_id.packed(), n),
    ensures
        spec_create(v, req1).1 == Ok::<(), EngineError>(()),
        spec_create(spec_create(v, req1).0, req2).1 == Ok::<(), EngineError>(()),
        spec_create(v, req2).1 == Ok::<(), EngineError>(()),
        spec_create(spec_create(v, req2).0, req1).1 == Ok::<(), EngineError>(()),
        spec_create(spec_create(v, req1).0, req2).0 == spec_create(spec_create(v, req2).0, req1).0,
{
    let k1 = req1.region_id.packed();
    let k2 = req2.region_id.packed();
    assert(k1 != k2);
    let m12 = spec_create(spec_create(v, req1).0, req2).0.regions;
    let m21 = spec_create(spec_create(v, req2).0, req1).0.regions;
    assert(m12 =~= m21);
}

} // verus!
