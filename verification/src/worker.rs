//! A worker: the exclusive custodian of a disjoint subset of regions. All
//! operations on a region it owns go through it one at a time, in receipt
//! order, which is what serializes access to a region without any per-region
//! lock. A worker also carries the request queue that models the channel the
//! engine hands work over; stopping drains the queue, failing every pending
//! request with WorkerStopped while the regions themselves stay intact.

use std::collections::HashMap;
use vstd::assert_seqs_equal;
use vstd::prelude::*;
use crate::error::{EngineError, StorageFault};
use crate::model::{apply_request, spec_submit, StateView};
use crate::region_id::RegionId;
use crate::request::{Region, RegionConfig, RegionRequest};

verus! {

broadcast use vstd::std_specs::hash::group_hash_axioms;

/// What the durable-storage collaborator has to do before a request can
/// commit. The worker decides this from its state; the surrounding runtime
/// performs it and hands the outcome back.
#[derive(Clone, Copy, Debug, PartialEq, Eq, Structural)]
pub enum StorageAction {
    /// Persist the on-disk representation of a region about to be created.
    PersistNew,
    /// Open the on-disk representation of an existing region.
    OpenExisting,
    /// Close the on-disk representation of an existing region.
    CloseExisting,
    /// Remove the on-disk representation of a region about to be dropped.
    RemoveExisting,
    /// Rewrite the stored metadata of a region about to be altered.
    UpdateMeta,
    /// Nothing to do on disk: a create that is a no-op because the region
    /// already exists and the request carries the if-not-exists relaxation.
    NoStorageWork,
}

pub struct Worker {
    running: bool,
    regions: HashMap<u64, Region>,
    queue: Vec<RegionRequest>,
}

impl View for Worker {
    type V = StateView;

    /// A worker is a miniature engine: a running flag over its own region map.
    closed spec fn view(&self) -> StateView {
        StateView { running: self.running, regions: self.regions@ }
    }
}

/// Inserting a region under the packed form of its own identity keeps every
/// region of the map under its own key.
proof fn lemma_wf_insert(m0: Map<u64, Region>, key: u64, region: Region)
    requires
        forall|k: u64| #[trigger] m0.contains_key(k) ==> m0[k].region_id.packed() == k,
        region.region_id.packed() == key,
    ensures
        forall|k: u64| #[trigger]
            m0.insert(key, region).contains_key(k) ==> m0.insert(key, region)[k].region_id.packed()
                == k,
{
    assert forall|k: u64| #[trigger]
        m0.insert(key, region).contains_key(k) implies m0.insert(
        key,
        region,
    )[k].region_id.packed() == k by {
        if k != key {
            assert(m0.contains_key(k));
        }
    }
}

/// Removing a region keeps every remaining region under its own key.
proof fn lemma_wf_remove(m0: Map<u64, Region>, key: u64)
    requires
        forall|k: u64| #[trigger] m0.contains_key(k) ==> m0[k].region_id.packed() == k,
    ensures
        forall|k: u64| #[trigger]
            m0.remove(key).contains_key(k) ==> m0.remove(key)[k].region_id.packed() == k,
{
    assert forall|k: u64| #[trigger]
        m0.remove(key).contains_key(k) implies m0.remove(key)[k].region_id.packed() == k by {
        assert(m0.contains_key(k));
    }
}

impl Worker {
    /// The regions this worker owns, by packed key.
    pub open spec fn regions(&self) -> Map<u64, Region> {
        self@.regions
    }

    pub open spec fn is_running(&self) -> bool {
        self@.running
    }

    /// The requests handed over and not yet processed, oldest first.
    pub closed spec fn queue(&self) -> Seq<RegionRequest> {
        self.queue@
    }

    /// Every region sits under the packed form of its own identity.
    pub open spec fn wf(&self) -> bool {
        forall|k: u64| #[trigger]
            self.regions().contains_key(k) ==> self.regions()[k].region_id.packed() == k
    }

    pub fn new() -> (w: Self)
        ensures
            w.is_running(),
            w.regions() == Map::<u64, Region>::empty(),
            w.queue() == Seq::<RegionRequest>::empty(),
            w.wf(),
    {
        Worker { running: true, regions: HashMap::new(), queue: Vec::new() }
    }

    /// Whether this worker's map holds the region. The engine, not the
    /// worker, gates queries on the running flag.
    pub fn owns_region(&self, region_id: RegionId) -> (r: bool)
        ensures
            r == self.regions().contains_key(region_id.packed()),
    {
        let key = region_id.as_u64();
        self.regions.contains_key(&key)
    }

    /// A copy of the configuration the region was created with (or last
    /// altered to), if the region exists here.
    pub fn region_config(&self, region_id: RegionId) -> (r: Option<RegionConfig>)
        ensures
            match r {
                Some(c) => self.regions().contains_key(region_id.packed()) && c
                    == self.regions()[region_id.packed()].config,
                None => !self.regions().contains_key(region_id.packed()),
            },
    {
        let key = region_id.as_u64();
        match self.regions.get(&key) {
            Some(region) => Some(region.config.duplicate()),
            None => None,
        }
    }

    /// The generation counter of the region, if it exists here.
    pub fn region_version(&self, region_id: RegionId) -> (r: Option<u64>)
        ensures
            match r {
                Some(v) => self.regions().contains_key(region_id.packed()) && v
                    == self.regions()[region_id.packed()].version,
                None => !self.regions().contains_key(region_id.packed()),
            },
    {
        let key = region_id.as_u64();
        match self.regions.get(&key) {
            Some(region) => Some(region.version),
            None => None,
        }
    }

    /// Applies one request against the region map, with the whole effect or
    /// none of it: exactly the transition `apply_request` describes.
    fn apply(&mut self, req: RegionRequest) -> (r: Result<(), EngineError>)
        requires
            old(self).wf(),
        ensures
            final(self).wf(),
            final(self).is_running() == old(self).is_running(),
            final(self).queue() == old(self).queue(),
            (final(self).regions(), r) == apply_request(old(self).regions(), req),
    {
        match req {
            RegionRequest::Create(c) => {
                let key = c.region_id.as_u64();
                if self.regions.contains_key(&key) {
                    if c.create_if_not_exists {
                        Ok(())
                    } else {
                        Err(EngineError::RegionExists { region_id: c.region_id })
                    }
                } else {
                    let region = Region {
                        region_id: c.region_id,
                        config: c.config,
                        opened: true,
                        version: 0,
                    };
                    proof {
                        lemma_wf_insert(old(self).regions(), key, region);
                    }
                    self.regions.insert(key, region);
                    Ok(())
                }
            },
            RegionRequest::Open { region_id } => {
                let key = region_id.as_u64();
                let found = match self.regions.get(&key) {
                    Some(region) => Some((region.region_id, region.config.duplicate(), region.version)),
                    None => None,
                };
                match found {
                    Some((rid, config, version)) => {
                        let region = Region { region_id: rid, config, opened: true, version };
                        proof {
                            lemma_wf_insert(old(self).regions(), key, region);
                        }
                        self.regions.insert(key, region);
                        Ok(())
                    },
                    None => Err(EngineError::RegionNotFound { region_id }),
                }
            },
            RegionRequest::Close { region_id } => {
                let key = region_id.as_u64();
                let found = match self.regions.get(&key) {
                    Some(region) => Some((region.region_id, region.config.duplicate(), region.version)),
                    None => None,
                };
                match found {
                    Some((rid, config, version)) => {
                        let region = Region { region_id: rid, config, opened: false, version };
                        proof {
                            lemma_wf_insert(old(self).regions(), key, region);
                        }
                        self.regions.insert(key, region);
                        Ok(())
                    },
                    None => Err(EngineError::RegionNotFound { region_id }),
                }
            },
            RegionRequest::Drop { region_id } => {
                let key = region_id.as_u64();
                if self.regions.contains_key(&key) {
                    proof {
                        lemma_wf_remove(old(self).regions(), key);
                    }
                    self.regions.remove(&key);
                    Ok(())
                } else {
                    Err(EngineError::RegionNotFound { region_id })
                }
            },
            RegionRequest::Alter { region_id, new_config } => {
                let key = region_id.as_u64();
                let found = match self.regions.get(&key) {
                    Some(region) => Some((region.region_id, region.opened, region.version)),
                    None => None,
                };
                match found {
                    Some((rid, opened, version)) => {
                        let bumped: u64 = if version < u64::MAX {
                            version + 1
                        } else {
                            version
                        };
                        let region = Region {
                            region_id: rid,
                            config: new_config,
                            opened,
                            version: bumped,
                        };
                        proof {
                            lemma_wf_insert(old(self).regions(), key, region);
                        }
                        self.regions.insert(key, region);
                        Ok(())
                    },
                    None => Err(EngineError::RegionNotFound { region_id }),
                }
            },
        }
    }

    /// Executes one request right away: rejected untouched with WorkerStopped
    /// if this worker was stopped, applied in full otherwise.
    pub fn execute(&mut self, req: RegionRequest) -> (r: Result<(), EngineError>)
        requires
            old(self).wf(),
        ensures
            final(self).wf(),
            final(self).queue() == old(self).queue(),
            final(self).is_running() == old(self).is_running(),
            (final(self)@, r) == spec_submit(old(self)@, req),
    {
        if !self.running {
            return Err(EngineError::WorkerStopped);
        }
        self.apply(req)
    }

    /// The storage work this request needs before it can commit, or the
    /// reason it is rejected without ever reaching the collaborator. Pure
    /// decision: nothing is mutated.
    pub fn storage_action(&self, req: &RegionRequest) -> (r: Result<StorageAction, EngineError>)
        ensures
            r == spec_storage_action(self@, *req),
    {
        if !self.running {
            return Err(EngineError::WorkerStopped);
        }
        let exists = self.owns_region(req.region_id());
        match req {
            RegionRequest::Create(c) => {
                if exists {
                    if c.create_if_not_exists {
                        Ok(StorageAction::NoStorageWork)
                    } else {
                        Err(EngineError::RegionExists { region_id: c.region_id })
                    }
                } else {
                    Ok(StorageAction::PersistNew)
                }
            },
            RegionRequest::Open { region_id } => {
                if exists {
                    Ok(StorageAction::OpenExisting)
                } else {
                    Err(EngineError::RegionNotFound { region_id: *region_id })
                }
            },
            RegionRequest::Close { region_id } => {
                if exists {
                    Ok(StorageAction::CloseExisting)
                } else {
                    Err(EngineError::RegionNotFound { region_id: *region_id })
                }
            },
            RegionRequest::Drop { region_id } => {
                if exists {
                    Ok(StorageAction::RemoveExisting)
                } else {
                    Err(EngineError::RegionNotFound { region_id: *region_id })
                }
            },
            RegionRequest::Alter { region_id, .. } => {
                if exists {
                    Ok(StorageAction::UpdateMeta)
                } else {
                    Err(EngineError::RegionNotFound { region_id: *region_id })
                }
            },
        }
    }

    /// Executes one request whose storage work the collaborator has already
    /// attempted. A request the worker would reject never needed storage
    /// work; one whose storage work failed leaves the region map exactly as
    /// it was — a create failing mid-way is never partially visible — and
    /// surfaces the fault verbatim.
    pub fn execute_with_storage(
        &mut self,
        req: RegionRequest,
        storage: Result<(), StorageFault>,
    ) -> (r: Result<(), EngineError>)
        requires
            old(self).wf(),
        ensures
            final(self).wf(),
            final(self).queue() == old(self).queue(),
            final(self).is_running() == old(self).is_running(),
            (spec_storage_action(old(self)@, req) matches Err(e) ==> {
                &&& r == Err::<(), EngineError>(e)
                &&& final(self)@ == old(self)@
            }),
            (spec_storage_action(old(self)@, req) is Ok && storage is Err ==> {
                &&& r == Err::<(), EngineError>(
                    EngineError::StorageFailure {
                        region_id: req.spec_region_id(),
                        fault: storage->Err_0,
                    },
                )
                &&& final(self)@ == old(self)@
            }),
            spec_storage_action(old(self)@, req) is Ok && storage is Ok ==> (final(self)@, r)
                == spec_submit(old(self)@, req),
    {
        let decision = self.storage_action(&req);
        if let Err(e) = decision {
            return Err(e);
        }
        if let Err(fault) = storage {
            return Err(EngineError::StorageFailure { region_id: req.region_id(), fault });
        }
        self.execute(req)
    }

    /// Hands one request over to this worker's queue. A stopped worker
    /// rejects it immediately, without enqueuing.
    pub fn enqueue(&mut self, req: RegionRequest) -> (r: Result<(), EngineError>)
        ensures
            !old(self).is_running() ==> r == Err::<(), EngineError>(EngineError::WorkerStopped)
                && final(self)@ == old(self)@ && final(self).queue() == old(self).queue(),
            old(self).is_running() ==> r == Ok::<(), EngineError>(()) && final(self)@ == old(
                self,
            )@ && final(self).queue() == old(self).queue().push(req),
    {
        if !self.running {
            return Err(EngineError::WorkerStopped);
        }
        self.queue.push(req);
        Ok(())
    }

    /// One turn of the worker loop: takes the oldest queued request and
    /// produces its reply. Requests are applied strictly in receipt order; a
    /// stopped worker still drains its queue, but answers WorkerStopped
    /// without touching any region.
    pub fn process_next(&mut self) -> (r: Option<Result<(), EngineError>>)
        requires
            old(self).wf(),
        ensures
            final(self).wf(),
            final(self).is_running() == old(self).is_running(),
            old(self).queue().len() == 0 ==> {
                &&& r is None
                &&& final(self)@ == old(self)@
                &&& final(self).queue() == old(self).queue()
            },
            old(self).queue().len() > 0 ==> {
                &&& r is Some
                &&& final(self).queue() == old(self).queue().skip(1)
                &&& (final(self)@, r->Some_0) == spec_submit(old(self)@, old(self).queue()[0])
            },
    {
        if self.queue.len() == 0 {
            return None;
        }
        let req = self.queue.remove(0);
        proof {
            assert_seqs_equal!(self.queue@ == old(self).queue().skip(1));
            assert(self.regions() == old(self).regions());
            assert(self.wf());
        }
        if !self.running {
            return Some(Err(EngineError::WorkerStopped));
        }
        Some(self.apply(req))
    }

    /// Flips this worker to stopped and drains its queue, answering every
    /// pending request with WorkerStopped. The regions themselves are kept.
    /// Idempotent: stopping a stopped worker changes nothing more.
    pub fn stop(&mut self) -> (replies: Vec<Result<(), EngineError>>)
        ensures
            !final(self).is_running(),
            final(self).regions() == old(self).regions(),
            final(self).queue().len() == 0,
            replies@.len() == old(self).queue().len(),
            forall|i: int| 0 <= i < replies@.len() ==> replies@[i] == Err::<(), EngineError>(
                EngineError::WorkerStopped,
            ),
    {
        self.running = false;
        let mut replies: Vec<Result<(), EngineError>> = Vec::new();
        while self.queue.len() > 0
            invariant
                !self.running,
                self.regions@ == old(self).regions(),
                replies@.len() + self.queue@.len() == old(self).queue().len(),
                forall|i: int| 0 <= i < replies@.len() ==> replies@[i] == Err::<(), EngineError>(
                    EngineError::WorkerStopped,
                ),
            decreases self.queue@.len(),
        {
            self.queue.pop();
            replies.push(Err(EngineError::WorkerStopped));
        }
        replies
    }
}

/// The decision a worker makes before any storage outcome is looked at:
/// which storage action the request needs, or why the worker rejects it
/// without reaching the collaborator.
pub open spec fn spec_storage_action(v: StateView, req: RegionRequest) -> Result<
    StorageAction,
    EngineError,
> {
    if !v.running {
        Err(EngineError::WorkerStopped)
    } else {
        let exists = v.regions.contains_key(req.spec_region_id().packed());
        match req {
            RegionRequest::Create(c) => if exists {
                if c.create_if_not_exists {
                    Ok(StorageAction::NoStorageWork)
                } else {
                    Err(EngineError::RegionExists { region_id: c.region_id })
                }
            } else {
                Ok(StorageAction::PersistNew)
            },
            RegionRequest::Open { region_id } => if exists {
                Ok(StorageAction::OpenExisting)
            } else {
                Err(EngineError::RegionNotFound { region_id })
            },
            RegionRequest::Close { region_id } => if exists {
                Ok(StorageAction::CloseExisting)
            } else {
                Err(EngineError::RegionNotFound { region_id })
            },
            RegionRequest::Drop { region_id } => if exists {
                Ok(StorageAction::RemoveExisting)
            } else {
                Err(EngineError::RegionNotFound { region_id })
            },
            RegionRequest::Alter { region_id, .. } => if exists {
                Ok(StorageAction::UpdateMeta)
            } else {
                Err(EngineError::RegionNotFound { region_id })
            },
        }
    }
}

} // verus!
