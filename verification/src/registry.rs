//! The worker registry: identity, id allocation, uniqueness enforcement and
//! lifecycle of worker records.
//!
//! The registry owns two tables: one mapping each account to the last worker
//! id allocated for it, and one mapping worker keys to live worker records.
//! Ids are allocated by incrementing the per-account counter and are never
//! reused; no two live workers of one owner may share a reachability
//! descriptor.

use vstd::prelude::*;
use crate::store::Store;
use crate::worker::{
    api_eq, api_has_reachability, api_valid, clone_worker, Account, ApiView, BlockNumber, Domain,
    Worker, WorkerAPI, WorkerId, WorkerKey, WorkerStatusType, WorkerView,
};

verus! {

/// Failures of the registry operations.
#[derive(Clone, Copy, PartialEq, Eq, Structural, Debug)]
pub enum Error {
    /// A registration carried neither an IP descriptor nor a domain.
    WorkerRegisterMissingIpOrDomain,
    /// A live worker of the same owner already has this descriptor.
    WorkerExists,
    /// No live worker exists at the addressed key.
    WorkerDoesNotExist,
}

/// Domain events emitted by the registry for the host's event sink.
#[derive(PartialEq, Eq, Debug)]
pub enum Event {
    WorkerRegistered { creator: Account, worker: WorkerKey, domain: Option<Domain> },
    WorkerRemoved { creator: Account, worker_id: WorkerId },
}

/// The default value of an account's worker counter.
#[allow(non_snake_case)]
pub fn WorkerCountDefault() -> (r: WorkerId)
    ensures
        r == 0,
{
    0
}

/// The worker records of a store, by their mathematical values.
pub open spec fn worker_views(m: Map<WorkerKey, Worker>) -> Map<WorkerKey, WorkerView> {
    Map::new(|k: WorkerKey| m.contains_key(k), |k: WorkerKey| m[k]@)
}

/// Mathematical value of the registry: the id counters and the live workers.
#[verifier::ext_equal]
pub ghost struct RegistryView {
    pub account_workers: Map<Account, WorkerId>,
    pub workers: Map<WorkerKey, WorkerView>,
}

/// The registry's invariants over its mathematical value:
/// every live worker's id is covered by its owner's counter, every record
/// agrees with its key, and no two live workers of one owner share a
/// reachability descriptor.
pub open spec fn registry_view_inv(v: RegistryView) -> bool {
    &&& forall|k: WorkerKey| #[trigger]
        v.workers.contains_key(k) ==> v.account_workers.contains_key(k.owner) && k.id
            <= v.account_workers[k.owner] && v.workers[k].id == k.id && v.workers[k].owner
            == k.owner
    &&& forall|k1: WorkerKey, k2: WorkerKey|
        #![trigger v.workers[k1].api, v.workers[k2].api]
        v.workers.contains_key(k1) && v.workers.contains_key(k2) && k1 != k2 && k1.owner
            == k2.owner ==> v.workers[k1].api != v.workers[k2].api
}

/// The id the next registration by `owner` will receive.
pub open spec fn spec_next_id(v: RegistryView, owner: Account) -> int {
    if v.account_workers.contains_key(owner) {
        v.account_workers[owner] + 1
    } else {
        0
    }
}

/// Whether a live worker of `owner` already carries the descriptor `api`.
pub open spec fn spec_dup_exists(v: RegistryView, owner: Account, api: ApiView) -> bool {
    exists|k: WorkerKey|
        #[trigger] v.workers.contains_key(k) && k.owner == owner && v.workers[k].api == api
}

/// The outcome of registering `api` for `owner` against state `v`.
pub open spec fn spec_register_result(v: RegistryView, owner: Account, api: ApiView) -> Result<
    WorkerId,
    Error,
> {
    if !api_valid(api) {
        Err(Error::WorkerRegisterMissingIpOrDomain)
    } else if spec_dup_exists(v, owner, api) {
        Err(Error::WorkerExists)
    } else {
        Ok(spec_next_id(v, owner) as WorkerId)
    }
}

/// The state after registering `api` for `owner` at height `height`;
/// unchanged when the registration is rejected.
pub open spec fn spec_register_post(
    v: RegistryView,
    owner: Account,
    api: ApiView,
    height: BlockNumber,
) -> RegistryView {
    if spec_register_result(v, owner, api) is Err {
        v
    } else {
        let id = spec_next_id(v, owner) as WorkerId;
        let key = WorkerKey { owner, id };
        let rec = WorkerView {
            id,
            owner,
            start_block: height,
            status: WorkerStatusType::Inactive,
            status_last_updated: height,
            api,
        };
        RegistryView {
            account_workers: v.account_workers.insert(owner, id),
            workers: v.workers.insert(key, rec),
        }
    }
}

/// The outcome of removing worker `id` of `owner` from state `v`.
pub open spec fn spec_remove_result(v: RegistryView, owner: Account, id: WorkerId) -> Result<
    (),
    Error,
> {
    if v.workers.contains_key(WorkerKey { owner, id }) {
        Ok(())
    } else {
        Err(Error::WorkerDoesNotExist)
    }
}

/// The state after removing worker `id` of `owner`; unchanged when no such
/// worker exists. The owner's counter is never lowered, so ids are not
/// reused.
pub open spec fn spec_remove_post(v: RegistryView, owner: Account, id: WorkerId) -> RegistryView {
    if v.workers.contains_key(WorkerKey { owner, id }) {
        RegistryView {
            account_workers: v.account_workers,
            workers: v.workers.remove(WorkerKey { owner, id }),
        }
    } else {
        v
    }
}

/// The worker registry.
pub struct WorkerRegistry {
    /// Last worker id allocated per account, if any.
    pub account_workers: Store<Account, WorkerId>,
    /// Live worker records by key.
    pub worker_clusters: Store<WorkerKey, Worker>,
}

impl View for WorkerRegistry {
    type V = RegistryView;

    open spec fn view(&self) -> RegistryView {
        RegistryView {
            account_workers: self.account_workers@,
            workers: worker_views(self.worker_clusters@),
        }
    }
}

impl WorkerRegistry {
    /// Well-formedness: both tables have distinct keys and the registry
    /// invariants hold of the denoted state.
    pub open spec fn inv(self) -> bool {
        &&& self.account_workers.wf()
        &&& self.worker_clusters.wf()
        &&& registry_view_inv(self@)
    }

    pub fn new() -> (r: WorkerRegistry)
        ensures
            r.inv(),
            r@.account_workers == Map::<Account, WorkerId>::empty(),
            r@.workers == Map::<WorkerKey, WorkerView>::empty(),
    {
        let r = WorkerRegistry { account_workers: Store::new(), worker_clusters: Store::new() };
        proof {
            assert(r@.workers =~= Map::<WorkerKey, WorkerView>::empty());
        }
        r
    }

    /// Whether any live worker of `creator` with id at most `last` carries
    /// the descriptor `api`. Scanning up to the owner's counter covers all of
    /// the owner's live workers.
    fn find_duplicate(&self, creator: Account, last: WorkerId, api: &WorkerAPI) -> (r: bool)
        requires
            self.inv(),
            self@.account_workers.contains_key(creator),
            self@.account_workers[creator] == last,
            last < u64::MAX,
        ensures
            r == spec_dup_exists(self@, creator, api@),
    {
        let mut id: u64 = 0;
        while id <= last
            invariant
                self.inv(),
                self@.account_workers.contains_key(creator),
                self@.account_workers[creator] == last,
                last < u64::MAX,
                id <= last + 1,
                forall|k: WorkerKey| #[trigger]
                    self@.workers.contains_key(k) && k.owner == creator && k.id < id
                        ==> self@.workers[k].api != api@,
            decreases last + 1 - id,
        {
            let key = WorkerKey { owner: creator, id };
            match self.worker_clusters.get(&key) {
                Some(w) => {
                    if api_eq(&w.api, api) {
                        proof {
                            assert(self@.workers.contains_key(key));
                            assert(self@.workers[key].api == api@);
                        }
                        return true;
                    }
                },
                None => {},
            }
            id = id + 1;
        }
        proof {
            if spec_dup_exists(self@, creator, api@) {
                let k = choose|k: WorkerKey|
                    #[trigger] self@.workers.contains_key(k) && k.owner == creator
                        && self@.workers[k].api == api@;
                assert(k.id <= last);
            }
        }
        false
    }

    /// Registers a worker for `creator` with the given reachability
    /// descriptor, at the current block height.
    ///
    /// Fails with `WorkerRegisterMissingIpOrDomain` exactly when the
    /// descriptor carries no non-empty reachability field, and with
    /// `WorkerExists` exactly when a live worker of `creator` already
    /// carries an equal descriptor; otherwise allocates the next id for
    /// `creator` and persists an `Inactive` record. Rejected registrations
    /// leave the state unchanged; the allocated id was never live before.
    pub fn register_worker(&mut self, creator: Account, api: WorkerAPI, height: BlockNumber) -> (r:
        Result<WorkerId, Error>)
        requires
            old(self).inv(),
            old(self)@.account_workers.contains_key(creator) ==> old(
                self,
            )@.account_workers[creator] < u64::MAX,
        ensures
            final(self).inv(),
            r == spec_register_result(old(self)@, creator, api@),
            final(self)@ == spec_register_post(old(self)@, creator, api@, height),
            r matches Ok(id) ==> !old(self)@.workers.contains_key(WorkerKey { owner: creator, id })
                && final(self)@.account_workers[creator] == id,
    {
        if !api_has_reachability(&api) {
            return Err(Error::WorkerRegisterMissingIpOrDomain);
        }
        let last_opt = match self.account_workers.get(&creator) {
            Some(l) => Some(*l),
            None => None,
        };
        let worker_id: WorkerId = match last_opt {
            Some(last) => {
                if self.find_duplicate(creator, last, &api) {
                    return Err(Error::WorkerExists);
                }
                last + 1
            },
            None => {
                proof {
                    if spec_dup_exists(self@, creator, api@) {
                        let k = choose|k: WorkerKey|
                            #[trigger] self@.workers.contains_key(k) && k.owner == creator
                                && self@.workers[k].api == api@;
                        assert(self@.account_workers.contains_key(creator));
                    }
                }
                0
            },
        };
        let key = WorkerKey { owner: creator, id: worker_id };
        let ghost v0 = self@;
        proof {
            assert(!v0.workers.contains_key(key));
        }
        self.account_workers.insert(creator, worker_id);
        let worker = Worker {
            id: worker_id,
            owner: creator,
            start_block: height,
            status: WorkerStatusType::Inactive,
            status_last_updated: height,
            api,
        };
        let ghost rec = worker@;
        self.worker_clusters.insert(key, worker);
        proof {
            assert(self@.workers =~= v0.workers.insert(key, rec));
            assert(self@ =~= spec_register_post(v0, creator, rec.api, height));
            lemma_register_preserves_inv(v0, creator, rec.api, height);
        }
        Ok(worker_id)
    }

    /// Removes the worker at key `(creator, worker_id)`.
    ///
    /// Fails with `WorkerDoesNotExist` exactly when no live worker has that
    /// key, leaving the state unchanged. On success the record is deleted;
    /// the owner's counter is untouched, so the id is not reused.
    pub fn remove_worker(&mut self, creator: Account, worker_id: WorkerId) -> (r: Result<
        (),
        Error,
    >)
        requires
            old(self).inv(),
        ensures
            final(self).inv(),
            r == spec_remove_result(old(self)@, creator, worker_id),
            final(self)@ == spec_remove_post(old(self)@, creator, worker_id),
    {
        let key = WorkerKey { owner: creator, id: worker_id };
        let ghost v0 = self@;
        match self.worker_clusters.take(&key) {
            Some(_) => {
                proof {
                    assert(self@.workers =~= v0.workers.remove(key));
                    assert(self@ =~= spec_remove_post(v0, creator, worker_id));
                }
                Ok(())
            },
            None => Err(Error::WorkerDoesNotExist),
        }
    }

    /// The live worker at `worker_key`, if any, by value.
    pub fn get_worker_cluster(&self, worker_key: &WorkerKey) -> (r: Option<Worker>)
        requires
            self.inv(),
        ensures
            match r {
                Some(w) => self@.workers.contains_key(*worker_key) && w@
                    == self@.workers[*worker_key],
                None => !self@.workers.contains_key(*worker_key),
            },
    {
        match self.worker_clusters.get(worker_key) {
            Some(w) => Some(clone_worker(w)),
            None => None,
        }
    }

    /// Replaces the record at `worker_key`, for collaborating components
    /// (e.g. an aggregator refreshing `status_last_updated`). The caller
    /// must keep the record consistent with its key, covered by the owner's
    /// counter, and free of descriptor collisions.
    pub fn update_worker_cluster(&mut self, worker_key: &WorkerKey, worker: Worker)
        requires
            old(self).inv(),
            worker@.id == worker_key.id,
            worker@.owner == worker_key.owner,
            old(self)@.account_workers.contains_key(worker_key.owner),
            worker_key.id <= old(self)@.account_workers[worker_key.owner],
            forall|k: WorkerKey| #[trigger]
                old(self)@.workers.contains_key(k) && k != *worker_key && k.owner
                    == worker_key.owner ==> old(self)@.workers[k].api != worker@.api,
        ensures
            final(self).inv(),
            final(self)@.workers == old(self)@.workers.insert(*worker_key, worker@),
            final(self)@.account_workers == old(self)@.account_workers,
    {
        let ghost v0 = self@;
        let ghost rec = worker@;
        self.worker_clusters.insert(*worker_key, worker);
        proof {
            assert(self@.workers =~= v0.workers.insert(*worker_key, rec));
        }
    }

    /// All live workers whose lifecycle status is `Active`, as key-record
    /// pairs: exactly one pair per active worker, and an empty vector (not
    /// an error) when none exist.
    pub fn get_active_workers(&self) -> (r: Vec<(WorkerKey, Worker)>)
        requires
            self.inv(),
        ensures
            forall|i: int|
                0 <= i < r@.len() ==> self@.workers.contains_key((#[trigger] r@[i]).0)
                    && r@[i].1@ == self@.workers[r@[i].0] && r@[i].1@.status
                    == WorkerStatusType::Active,
            forall|k: WorkerKey|
                self@.workers.contains_key(k) && (#[trigger] self@.workers[k]).status
                    == WorkerStatusType::Active ==> exists|i: int|
                    0 <= i < r@.len() && (#[trigger] r@[i]).0 == k,
            forall|i: int, j: int|
                0 <= i < j < r@.len() ==> (#[trigger] r@[i]).0 != (#[trigger] r@[j]).0,
    {
        let ghost s = self.worker_clusters.entry_seq();
        let mut out: Vec<(WorkerKey, Worker)> = Vec::new();
        let n = self.worker_clusters.len();
        let mut i: usize = 0;
        while i < n
            invariant
                self.inv(),
                s == self.worker_clusters.entry_seq(),
                n == s.len(),
                i <= n,
                forall|t: int|
                    0 <= t < out@.len() ==> self@.workers.contains_key((#[trigger] out@[t]).0)
                        && out@[t].1@ == self@.workers[out@[t].0] && out@[t].1@.status
                        == WorkerStatusType::Active,
                forall|j: int|
                    0 <= j < i && (#[trigger] s[j]).1@.status == WorkerStatusType::Active
                        ==> exists|t: int| 0 <= t < out@.len() && (#[trigger] out@[t]).0 == s[j].0,
                forall|t: int|
                    0 <= t < out@.len() ==> exists|j: int|
                        0 <= j < i && (#[trigger] out@[t]).0 == (#[trigger] s[j]).0,
                forall|t1: int, t2: int|
                    0 <= t1 < t2 < out@.len() ==> (#[trigger] out@[t1]).0 != (
                    #[trigger] out@[t2]).0,
            decreases n - i,
        {
            let pair = self.worker_clusters.nth(i);
            proof {
                crate::store::lemma_entries_map_index(s, i as int);
            }
            let ghost prev = out@;
            if pair.1.status == WorkerStatusType::Active {
                let w = clone_worker(&pair.1);
                out.push((pair.0, w));
            }
            proof {
                assert forall|j: int|
                    0 <= j < i + 1 && (#[trigger] s[j]).1@.status == WorkerStatusType::Active
                        implies exists|t: int|
                    0 <= t < out@.len() && (#[trigger] out@[t]).0 == s[j].0 by {
                    if j < i {
                        let t = choose|t: int|
                            0 <= t < prev.len() && (#[trigger] prev[t]).0 == s[j].0;
                        assert(out@[t].0 == s[j].0);
                    } else {
                        assert(out@[out@.len() - 1].0 == s[j].0);
                    }
                }
            }
            i = i + 1;
        }
        proof {
            assert forall|k: WorkerKey|
                self@.workers.contains_key(k) && (#[trigger] self@.workers[k]).status
                    == WorkerStatusType::Active implies exists|t: int|
                0 <= t < out@.len() && (#[trigger] out@[t]).0 == k by {
                crate::store::lemma_entries_map_contains(s, k);
                let j = choose|j: int| 0 <= j < s.len() && (#[trigger] s[j]).0 == k;
                crate::store::lemma_entries_map_index(s, j);
                assert(s[j].1@.status == WorkerStatusType::Active);
            }
        }
        out
    }
}

/// Registration preserves the registry invariants: the fresh id exceeds all
/// live ids of the owner, the new record agrees with its key, and its
/// descriptor collides with no live one.
pub proof fn lemma_register_preserves_inv(
    v: RegistryView,
    owner: Account,
    api: ApiView,
    height: BlockNumber,
)
    requires
        registry_view_inv(v),
        spec_next_id(v, owner) <= u64::MAX,
    ensures
        registry_view_inv(spec_register_post(v, owner, api, height)),
{
    if spec_register_result(v, owner, api) is Ok {
        let id = spec_next_id(v, owner) as WorkerId;
        let key = WorkerKey { owner, id };
        let v1 = spec_register_post(v, owner, api, height);
        assert(!v.workers.contains_key(key));
        assert forall|k1: WorkerKey, k2: WorkerKey|
            #![trigger v1.workers[k1].api, v1.workers[k2].api]
            v1.workers.contains_key(k1) && v1.workers.contains_key(k2) && k1 != k2 && k1.owner
                == k2.owner implies v1.workers[k1].api != v1.workers[k2].api by {
            if k1 == key {
                assert(v.workers.contains_key(k2) && k2.owner == owner);
                assert(v.workers[k2].api != api) by {
                    assert(!spec_dup_exists(v, owner, api));
                }
            } else if k2 == key {
                assert(v.workers.contains_key(k1) && k1.owner == owner);
                assert(v.workers[k1].api != api) by {
                    assert(!spec_dup_exists(v, owner, api));
                }
            } else {
                assert(v.workers[k1].api != v.workers[k2].api);
            }
        }
    }
}

/// Two successive successful registrations by one owner allocate strictly
/// increasing ids, and each allocated id was never live before its
/// registration.
pub proof fn lemma_register_ids_strictly_increasing(
    v: RegistryView,
    owner: Account,
    api1: ApiView,
    api2: ApiView,
    h1: BlockNumber,
    h2: BlockNumber,
)
    requires
        registry_view_inv(v),
        spec_next_id(v, owner) < u64::MAX,
        spec_register_result(v, owner, api1) is Ok,
        spec_register_result(spec_register_post(v, owner, api1, h1), owner, api2) is Ok,
    ensures
        ({
            let id1 = spec_register_result(v, owner, api1)->Ok_0;
            let v1 = spec_register_post(v, owner, api1, h1);
            let id2 = spec_register_result(v1, owner, api2)->Ok_0;
            &&& id2 == id1 + 1
            &&& !v.workers.contains_key(WorkerKey { owner, id: id1 })
            &&& !v1.workers.contains_key(WorkerKey { owner, id: id2 })
        }),
{
    let id1 = spec_register_result(v, owner, api1)->Ok_0;
    let v1 = spec_register_post(v, owner, api1, h1);
    assert(v1.account_workers[owner] == id1);
    assert(spec_next_id(v1, owner) == id1 + 1);
    assert(!v1.workers.contains_key(WorkerKey { owner, id: (id1 + 1) as WorkerId })) by {
        if v.workers.contains_key(WorkerKey { owner, id: (id1 + 1) as WorkerId }) {
            assert(v.account_workers.contains_key(owner));
        }
    }
}

/// Registering a descriptor identical to a live worker's descriptor of the
/// same owner always fails with `WorkerExists`: in particular right after a
/// successful registration of that descriptor.
pub proof fn lemma_duplicate_api_rejected(
    v: RegistryView,
    owner: Account,
    api: ApiView,
    h: BlockNumber,
)
    requires
        spec_register_result(v, owner, api) is Ok,
    ensures
        spec_register_result(spec_register_post(v, owner, api, h), owner, api) == Err::<
            WorkerId,
            Error,
        >(Error::WorkerExists),
{
    let id = spec_next_id(v, owner) as WorkerId;
    let key = WorkerKey { owner, id };
    let v1 = spec_register_post(v, owner, api, h);
    assert(v1.workers.contains_key(key) && key.owner == owner && v1.workers[key].api == api);
    assert(spec_dup_exists(v1, owner, api));
}

/// The state after a sequence of registrations by one owner, the call at
/// position `i` arriving at height `hs[i]`; rejected calls leave the state
/// unchanged.
pub open spec fn spec_register_all(
    v: RegistryView,
    owner: Account,
    apis: Seq<ApiView>,
    hs: Seq<BlockNumber>,
) -> RegistryView
    recommends
        apis.len() == hs.len(),
    decreases apis.len(),
{
    if apis.len() == 0 {
        v
    } else {
        spec_register_post(
            spec_register_all(v, owner, apis.drop_last(), hs.drop_last()),
            owner,
            apis.last(),
            hs.last(),
        )
    }
}

/// The state the call at position `k` of a registration sequence runs
/// against.
pub open spec fn spec_state_at(
    v: RegistryView,
    owner: Account,
    apis: Seq<ApiView>,
    hs: Seq<BlockNumber>,
    k: int,
) -> RegistryView {
    spec_register_all(v, owner, apis.subrange(0, k), hs.subrange(0, k))
}

/// Registration never lowers an owner's next id, and a successful
/// registration advances it past the id just allocated.
pub proof fn lemma_next_id_after_register(
    v: RegistryView,
    owner: Account,
    api: ApiView,
    h: BlockNumber,
    other: Account,
)
    requires
        spec_next_id(v, owner) <= u64::MAX,
    ensures
        spec_next_id(spec_register_post(v, owner, api, h), other) >= spec_next_id(v, other),
        spec_register_result(v, owner, api) is Ok ==> spec_next_id(
            spec_register_post(v, owner, api, h),
            owner,
        ) == spec_register_result(v, owner, api)->Ok_0 + 1,
{
}

/// Running one more call of a registration sequence is one registration on
/// top of the state reached so far.
proof fn lemma_state_at_step(
    v: RegistryView,
    owner: Account,
    apis: Seq<ApiView>,
    hs: Seq<BlockNumber>,
    k: int,
)
    requires
        apis.len() == hs.len(),
        0 <= k < apis.len(),
    ensures
        spec_state_at(v, owner, apis, hs, k + 1) == spec_register_post(
            spec_state_at(v, owner, apis, hs, k),
            owner,
            apis[k],
            hs[k],
        ),
{
    assert(apis.subrange(0, k + 1).drop_last() =~= apis.subrange(0, k));
    assert(hs.subrange(0, k + 1).drop_last() =~= hs.subrange(0, k));
    assert(apis.subrange(0, k + 1).last() == apis[k]);
    assert(hs.subrange(0, k + 1).last() == hs[k]);
}

/// Along a registration sequence an owner's next id never decreases.
proof fn lemma_next_id_monotone_along(
    v: RegistryView,
    owner: Account,
    apis: Seq<ApiView>,
    hs: Seq<BlockNumber>,
    k1: int,
    k2: int,
)
    requires
        apis.len() == hs.len(),
        0 <= k1 <= k2 <= apis.len(),
        forall|k: int|
            0 <= k < apis.len() ==> spec_next_id(
                #[trigger] spec_state_at(v, owner, apis, hs, k),
                owner,
            ) <= u64::MAX,
    ensures
        spec_next_id(spec_state_at(v, owner, apis, hs, k1), owner) <= spec_next_id(
            spec_state_at(v, owner, apis, hs, k2),
            owner,
        ),
    decreases k2 - k1,
{
    if k1 < k2 {
        lemma_next_id_monotone_along(v, owner, apis, hs, k1, k2 - 1);
        lemma_state_at_step(v, owner, apis, hs, k2 - 1);
        lemma_next_id_after_register(
            spec_state_at(v, owner, apis, hs, k2 - 1),
            owner,
            apis[k2 - 1],
            hs[k2 - 1],
            owner,
        );
    }
}

/// In any sequence of registrations by one owner, the ids of the successful
/// calls are strictly increasing in call order — in particular pairwise
/// distinct — provided the owner's counter never reaches its machine limit.
pub proof fn lemma_register_sequence_ids_increasing(
    v: RegistryView,
    owner: Account,
    apis: Seq<ApiView>,
    hs: Seq<BlockNumber>,
    i: int,
    j: int,
)
    requires
        apis.len() == hs.len(),
        0 <= i < j < apis.len(),
        forall|k: int|
            0 <= k < apis.len() ==> spec_next_id(
                #[trigger] spec_state_at(v, owner, apis, hs, k),
                owner,
            ) <= u64::MAX,
        spec_register_result(spec_state_at(v, owner, apis, hs, i), owner, apis[i]) is Ok,
        spec_register_result(spec_state_at(v, owner, apis, hs, j), owner, apis[j]) is Ok,
    ensures
        spec_register_result(spec_state_at(v, owner, apis, hs, i), owner, apis[i])->Ok_0
            < spec_register_result(spec_state_at(v, owner, apis, hs, j), owner, apis[j])->Ok_0,
{
    let si = spec_state_at(v, owner, apis, hs, i);
    let sj = spec_state_at(v, owner, apis, hs, j);
    let id_i = spec_register_result(si, owner, apis[i])->Ok_0;
    let id_j = spec_register_result(sj, owner, apis[j])->Ok_0;
    lemma_next_id_monotone_along(v, owner, apis, hs, i, j);
    assert(spec_next_id(si, owner) <= spec_next_id(sj, owner));
    assert(id_i == spec_next_id(si, owner) as WorkerId);
    assert(id_j == spec_next_id(sj, owner) as WorkerId);
    lemma_state_at_step(v, owner, apis, hs, i);
    lemma_next_id_after_register(si, owner, apis[i], hs[i], owner);
    lemma_next_id_monotone_along(v, owner, apis, hs, i + 1, j);
    assert(spec_next_id(sj, owner) >= id_i + 1);
}

/// After a successful registration and the removal of the same worker, a
/// lookup for its key finds nothing, the owner's counter is unchanged by the
/// removal, and the next registration would allocate a strictly larger id:
/// ids are not reused.
pub proof fn lemma_removed_id_not_reused(
    v: RegistryView,
    owner: Account,
    api: ApiView,
    h: BlockNumber,
)
    requires
        registry_view_inv(v),
        spec_next_id(v, owner) <= u64::MAX,
        spec_register_result(v, owner, api) is Ok,
    ensures
        ({
            let id = spec_register_result(v, owner, api)->Ok_0;
            let v1 = spec_register_post(v, owner, api, h);
            let v2 = spec_remove_post(v1, owner, id);
            &&& spec_remove_result(v1, owner, id) is Ok
            &&& !v2.workers.contains_key(WorkerKey { owner, id })
            &&& v2.account_workers == v1.account_workers
            &&& spec_next_id(v2, owner) == id + 1
        }),
{
}

} // verus!

