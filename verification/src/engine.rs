//! The engine: the single public entry point. It owns the worker pool and
//! the one-way running flag, routes every region-scoped request to the one
//! worker that owns the region, and translates worker replies back to the
//! caller. Every operation is specified against the abstract transitions in
//! `model`, so callers reason about one flat map of regions even though the
//! regions are partitioned across workers.

use vstd::assert_seqs_equal;
use vstd::map::*;
use vstd::prelude::*;
use crate::error::EngineError;
use crate::model::{
    apply_request, lemma_apply_agree, lemma_apply_frame, lemma_route_in_range, route_key,
    spec_alter, spec_close, spec_create, spec_drop, spec_is_region_exists, spec_open, spec_stop,
    spec_submit, StateView,
};
use crate::region_id::RegionId;
use crate::request::{Region, RegionConfig, RegionCreateRequest, RegionRequest};
use crate::worker::Worker;

verus! {

/// How the engine is built: the size of its worker pool. The pool size is
/// fixed at startup; a value of zero is treated as one.
#[derive(Clone, Copy, Debug, PartialEq, Eq, Structural)]
pub struct EngineConfig {
    pub num_workers: usize,
}

impl EngineConfig {
    pub fn new(num_workers: usize) -> (r: Self)
        ensures
            r.num_workers == num_workers,
    {
        EngineConfig { num_workers }
    }
}

impl Default for EngineConfig {
    fn default() -> (r: Self)
        ensures
            r.num_workers == 4,
    {
        EngineConfig { num_workers: 4 }
    }
}

pub struct Engine {
    running: bool,
    workers: Vec<Worker>,
}

impl View for Engine {
    type V = StateView;

    open spec fn view(&self) -> StateView {
        StateView { running: self.spec_running(), regions: self.regions() }
    }
}

impl Engine {
    pub closed spec fn workers(&self) -> Seq<Worker> {
        self.workers@
    }

    pub closed spec fn spec_running(&self) -> bool {
        self.running
    }

    pub open spec fn num_workers(&self) -> int {
        self.workers().len() as int
    }

    /// The engine's invariant: a non-empty pool; every worker well-formed,
    /// idle, and in step with the engine's running flag; and every region
    /// held by exactly the worker its key routes to.
    pub open spec fn wf(&self) -> bool {
        &&& self.num_workers() > 0
        &&& forall|i: int| 0 <= i < self.num_workers() ==> (#[trigger] self.workers()[i]).wf()
        &&& forall|i: int|
            0 <= i < self.num_workers() ==> (#[trigger] self.workers()[i]).is_running()
                == self.spec_running()
        &&& forall|i: int|
            0 <= i < self.num_workers() ==> (#[trigger] self.workers()[i]).queue().len() == 0
        &&& forall|i: int, k: u64|
            0 <= i < self.num_workers() && #[trigger] self.workers()[i].regions().contains_key(k)
                ==> route_key(k, self.num_workers()) == i
    }

    /// All the engine's regions as one flat map: each key is answered by the
    /// worker it routes to.
    pub open spec fn regions(&self) -> Map<u64, Region> {
        Map::new(
            |k: u64| self.workers()[route_key(k, self.num_workers())].regions().contains_key(k),
            |k: u64| self.workers()[route_key(k, self.num_workers())].regions()[k],
        )
    }

    /// Builds a running engine with an empty region map over a pool of
    /// `config.num_workers` workers (at least one).
    pub fn new(config: EngineConfig) -> (e: Self)
        ensures
            e.wf(),
            e@.running,
            e@.regions == Map::<u64, Region>::empty(),
            e.num_workers() == if config.num_workers == 0 {
                1int
            } else {
                config.num_workers as int
            },
    {
        let n: usize = if config.num_workers == 0 {
            1
        } else {
            config.num_workers
        };
        let mut workers: Vec<Worker> = Vec::new();
        while workers.len() < n
            invariant
                workers@.len() <= n,
                forall|i: int|
                    0 <= i < workers@.len() ==> {
                        &&& (#[trigger] workers@[i]).wf()
                        &&& workers@[i].is_running()
                        &&& workers@[i].regions() == Map::<u64, Region>::empty()
                        &&& workers@[i].queue().len() == 0
                    },
            decreases n - workers@.len(),
        {
            workers.push(Worker::new());
        }
        let e = Engine { running: true, workers };
        proof {
            assert_maps_equal!(e.regions(), Map::<u64, Region>::empty(), k => {
                lemma_route_in_range(k, e.num_workers());
            });
        }
        e
    }

    pub fn is_running(&self) -> (r: bool)
        ensures
            r == self@.running,
    {
        self.running
    }

    pub fn worker_count(&self) -> (n: usize)
        ensures
            n as int == self.num_workers(),
    {
        self.workers.len()
    }

    /// Which worker owns this region: the sharding function, a pure, stable
    /// function of the identity and the pool size alone.
    pub fn route(&self, region_id: RegionId) -> (i: usize)
        requires
            self.wf(),
        ensures
            i as int == route_key(region_id.packed(), self.num_workers()),
            i < self.workers().len(),
    {
        let key = region_id.as_u64();
        let n = self.workers.len();
        proof {
            lemma_route_in_range(key, n as int);
        }
        (key % (n as u64)) as usize
    }

    /// Routes one request to the worker that owns its region and executes it
    /// there. The running-flag gate comes first: a stopped engine rejects
    /// every request without touching any worker.
    fn dispatch(&mut self, req: RegionRequest) -> (r: Result<(), EngineError>)
        requires
            old(self).wf(),
        ensures
            final(self).wf(),
            final(self).num_workers() == old(self).num_workers(),
            (final(self)@, r) == spec_submit(old(self)@, req),
    {
        if !self.running {
            return Err(EngineError::WorkerStopped);
        }
        let rid = req.region_id();
        let key = rid.as_u64();
        let n = self.workers.len();
        proof {
            lemma_route_in_range(key, n as int);
        }
        let idx = (key % (n as u64)) as usize;
        let ghost ws0 = self.workers@;
        let ghost nn = n as int;
        let ghost i = idx as int;
        let mut w = self.workers.remove(idx);
        let r = w.execute(req);
        self.workers.insert(idx, w);
        proof {
            assert_seqs_equal!(self.workers@ == ws0.update(i, w));
            let m0 = old(self)@.regions;
            let mw0 = ws0[i].regions();
            assert(m0.contains_key(key) == mw0.contains_key(key));
            assert(m0.contains_key(key) ==> m0[key] == mw0[key]);
            lemma_apply_agree(m0, mw0, req, key);
            let m1 = apply_request(m0, req).0;
            assert_maps_equal!(self.regions(), m1, k => {
                lemma_route_in_range(k, nn);
                let j = route_key(k, nn);
                if k == key {
                    assert(j == i);
                    assert(self.workers()[j] == w);
                } else {
                    lemma_apply_frame(m0, req, k);
                    lemma_apply_frame(mw0, req, k);
                    if j == i {
                        assert(self.workers()[j] == w);
                    } else {
                        assert(self.workers()[j] == ws0[j]);
                    }
                }
            });
            assert forall|ii: int| 0 <= ii < nn implies {
                &&& (#[trigger] self.workers()[ii]).wf()
                &&& self.workers()[ii].is_running() == self.spec_running()
                &&& self.workers()[ii].queue().len() == 0
            } by {
                if ii != i {
                    assert(self.workers()[ii] == ws0[ii]);
                }
            }
            assert forall|ii: int, k: u64|
                0 <= ii < nn && #[trigger] self.workers()[ii].regions().contains_key(k)
                    implies route_key(k, nn) == ii by {
                if ii == i {
                    if k != key {
                        lemma_apply_frame(mw0, req, k);
                        assert(ws0[ii].regions().contains_key(k));
                    }
                } else {
                    assert(self.workers()[ii] == ws0[ii]);
                }
            }
        }
        r
    }

    /// Creates a region. Fails with WorkerStopped on a stopped engine; with
    /// RegionExists when the region is already present and the request does
    /// not carry the if-not-exists relaxation; succeeds as a strict no-op —
    /// never overwriting the stored configuration — when it does; and
    /// otherwise installs the region, open and at generation zero.
    pub fn create_region(&mut self, req: RegionCreateRequest) -> (r: Result<(), EngineError>)
        requires
            old(self).wf(),
        ensures
            final(self).wf(),
            final(self).num_workers() == old(self).num_workers(),
            (final(self)@, r) == spec_create(old(self)@, req),
    {
        self.dispatch(RegionRequest::Create(req))
    }

    /// Opens an existing region; RegionNotFound if it does not exist,
    /// WorkerStopped on a stopped engine.
    pub fn open_region(&mut self, region_id: RegionId) -> (r: Result<(), EngineError>)
        requires
            old(self).wf(),
        ensures
            final(self).wf(),
            final(self).num_workers() == old(self).num_workers(),
            (final(self)@, r) == spec_open(old(self)@, region_id),
    {
        self.dispatch(RegionRequest::Open { region_id })
    }

    /// Closes an existing region without losing its existence, configuration
    /// or generation; RegionNotFound if it does not exist, WorkerStopped on a
    /// stopped engine.
    pub fn close_region(&mut self, region_id: RegionId) -> (r: Result<(), EngineError>)
        requires
            old(self).wf(),
        ensures
            final(self).wf(),
            final(self).num_workers() == old(self).num_workers(),
            (final(self)@, r) == spec_close(old(self)@, region_id),
    {
        self.dispatch(RegionRequest::Close { region_id })
    }

    /// Drops an existing region, removing it from the engine; RegionNotFound
    /// if it does not exist, WorkerStopped on a stopped engine.
    pub fn drop_region(&mut self, region_id: RegionId) -> (r: Result<(), EngineError>)
        requires
            old(self).wf(),
        ensures
            final(self).wf(),
            final(self).num_workers() == old(self).num_workers(),
            (final(self)@, r) == spec_drop(old(self)@, region_id),
    {
        self.dispatch(RegionRequest::Drop { region_id })
    }

    /// Replaces the configuration of an existing region and bumps its
    /// generation counter; RegionNotFound if it does not exist, WorkerStopped
    /// on a stopped engine.
    pub fn alter_region(&mut self, region_id: RegionId, new_config: RegionConfig) -> (r: Result<
        (),
        EngineError,
    >)
        requires
            old(self).wf(),
        ensures
            final(self).wf(),
            final(self).num_workers() == old(self).num_workers(),
            (final(self)@, r) == spec_alter(old(self)@, region_id, new_config),
    {
        self.dispatch(RegionRequest::Alter { region_id, new_config })
    }

    /// Whether the region exists. A query, not a mutation: on a stopped
    /// engine it answers false instead of erroring.
    pub fn is_region_exists(&self, region_id: RegionId) -> (r: bool)
        requires
            self.wf(),
        ensures
            r == spec_is_region_exists(self@, region_id),
    {
        if !self.running {
            return false;
        }
        let idx = self.route(region_id);
        let w = &self.workers[idx];
        w.owns_region(region_id)
    }

    /// A copy of the region's current configuration, if the engine is
    /// running and the region exists.
    pub fn region_config(&self, region_id: RegionId) -> (r: Option<RegionConfig>)
        requires
            self.wf(),
        ensures
            match r {
                Some(c) => spec_is_region_exists(self@, region_id) && c == self@.regions[
                    region_id.packed()
                ].config,
                None => !spec_is_region_exists(self@, region_id),
            },
    {
        if !self.running {
            return None;
        }
        let idx = self.route(region_id);
        let w = &self.workers[idx];
        w.region_config(region_id)
    }

    /// The region's generation counter, if the engine is running and the
    /// region exists.
    pub fn region_version(&self, region_id: RegionId) -> (r: Option<u64>)
        requires
            self.wf(),
        ensures
            match r {
                Some(v) => spec_is_region_exists(self@, region_id) && v == self@.regions[
                    region_id.packed()
                ].version,
                None => !spec_is_region_exists(self@, region_id),
            },
    {
        if !self.running {
            return None;
        }
        let idx = self.route(region_id);
        let w = &self.workers[idx];
        w.region_version(region_id)
    }

    /// Stops the engine: a one-way transition. The flag flips first, so
    /// every later submission fails fast; then every worker is stopped in
    /// turn. Regions are kept, and stopping an already-stopped engine is a
    /// no-op success.
    pub fn stop(&mut self) -> (r: Result<(), EngineError>)
        requires
            old(self).wf(),
        ensures
            final(self).wf(),
            final(self).num_workers() == old(self).num_workers(),
            (final(self)@, r) == spec_stop(old(self)@),
    {
        self.running = false;
        let n = self.workers.len();
        let mut done: usize = 0;
        while done < n
            invariant
                old(self).wf(),
                !self.running,
                n == self.workers@.len(),
                n == old(self).workers().len(),
                done <= n,
                forall|j: int|
                    0 <= j < done ==> {
                        &&& (#[trigger] self.workers()[j]).wf()
                        &&& !self.workers()[j].is_running()
                        &&& self.workers()[j].queue().len() == 0
                        &&& self.workers()[j].regions() == old(self).workers()[j].regions()
                    },
                forall|j: int|
                    done <= j < n ==> #[trigger] self.workers()[j] == old(self).workers()[j],
            decreases n - done,
        {
            let ghost ws0 = self.workers@;
            let ghost d = done as int;
            proof {
                assert(self.workers()[d] == old(self).workers()[d]);
                assert(old(self).workers()[d].wf());
            }
            let mut w = self.workers.remove(done);
            w.stop();
            self.workers.insert(done, w);
            proof {
                assert_seqs_equal!(self.workers@ == ws0.update(d, w));
                assert(ws0[d] == old(self).workers()[d]);
                assert forall|k: u64| #[trigger]
                    w.regions().contains_key(k) implies w.regions()[k].region_id.packed()
                    == k by {
                    assert(old(self).workers()[d].regions().contains_key(k));
                }
                assert forall|j: int| 0 <= j < d + 1 implies {
                    &&& (#[trigger] self.workers()[j]).wf()
                    &&& !self.workers()[j].is_running()
                    &&& self.workers()[j].queue().len() == 0
                    &&& self.workers()[j].regions() == old(self).workers()[j].regions()
                } by {
                    if j < d {
                        assert(self.workers()[j] == ws0[j]);
                    } else {
                        assert(self.workers()[j] == w);
                    }
                }
                assert forall|j: int|
                    d + 1 <= j < n implies #[trigger] self.workers()[j] == old(
                    self,
                ).workers()[j] by {
                    assert(self.workers()[j] == ws0[j]);
                }
            }
            done += 1;
        }
        proof {
            assert forall|ii: int, k: u64|
                0 <= ii < self.num_workers() && #[trigger] self.workers()[ii].regions().contains_key(
                    k,
                ) implies route_key(k, self.num_workers()) == ii by {
                assert(old(self).workers()[ii].regions().contains_key(k));
            }
            assert_maps_equal!(self.regions(), old(self)@.regions, k => {
                lemma_route_in_range(k, self.num_workers());
            });
        }
        Ok(())
    }
}

} // verus!
