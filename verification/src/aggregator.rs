//! The status aggregator: per-period submission deduplication and
//! aggregation of worker status observations.
//!
//! Observations are attributed to the reporting period derived from the
//! block height at which they arrive. Within one period a (reporter, worker)
//! pair contributes at most one accepted observation; repeated calls are
//! safe no-ops. On the first call of a new period the per-period tables are
//! cleared before the observation is recorded, so no write is ever
//! attributed to an earlier period.

use vstd::prelude::*;
use crate::oracle::{CombineData, ProcessStatus, TimestampedValue};
use crate::period::{BlockNumber, Period, PeriodWindowManager};
use crate::store::{Store, StoreKey};
use crate::worker::{Account, WorkerKey};

verus! {

/// Key of one submission: the reporter and the worker reported on.
#[derive(Clone, Copy, PartialEq, Eq, Structural, Debug)]
pub struct ReportKey {
    pub reporter: Account,
    pub worker: WorkerKey,
}

impl StoreKey for ReportKey {
    fn key_eq(&self, other: &ReportKey) -> (r: bool)
        ensures
            r == (*self == *other),
    {
        self.reporter == other.reporter && self.worker.key_eq(&other.worker)
    }
}

/// The observation lists of a store, by their mathematical values.
pub open spec fn entry_views(m: Map<WorkerKey, Vec<TimestampedValue>>) -> Map<
    WorkerKey,
    Seq<TimestampedValue>,
> {
    Map::new(|k: WorkerKey| m.contains_key(k), |k: WorkerKey| m[k]@)
}

/// Mathematical value of the aggregator.
#[verifier::ext_equal]
pub ghost struct AggregatorView {
    /// Number of blocks per reporting period.
    pub window_size: u64,
    /// The period the per-period tables belong to.
    pub last_period: Period,
    /// Which (reporter, worker) pairs have submitted in the period.
    pub submitted: Map<ReportKey, bool>,
    /// The observations recorded per worker in the period, oldest first.
    pub entries: Map<WorkerKey, Seq<TimestampedValue>>,
    /// The combined aggregate per worker for the period, where one exists.
    pub aggregates: Map<WorkerKey, TimestampedValue>,
}

/// The state with the per-period tables cleared for period `p`.
pub open spec fn spec_rolled(v: AggregatorView, p: Period) -> AggregatorView {
    AggregatorView {
        window_size: v.window_size,
        last_period: p,
        submitted: Map::empty(),
        entries: Map::empty(),
        aggregates: Map::empty(),
    }
}

/// The state the tables are read against when an observation arrives in
/// period `p`: unchanged while the period is current, cleared on rollover.
pub open spec fn spec_base(v: AggregatorView, p: Period) -> AggregatorView {
    if p == v.last_period {
        v
    } else {
        spec_rolled(v, p)
    }
}

/// The state after an observation `value` about `worker` from `reporter`
/// arrives at height `height`, under combine policy `C`.
///
/// A pair that already submitted in the period changes nothing. Otherwise
/// the submission is recorded, the observation is appended to the worker's
/// period entries, and the aggregate is replaced exactly when the policy
/// combines to a value.
pub open spec fn spec_on_new_data<C: CombineData>(
    v: AggregatorView,
    reporter: Account,
    worker: WorkerKey,
    value: ProcessStatus,
    height: BlockNumber,
) -> AggregatorView {
    let p = (height / v.window_size) as Period;
    let base = spec_base(v, p);
    let rk = ReportKey { reporter, worker };
    if base.submitted.contains_key(rk) {
        base
    } else {
        let obs = TimestampedValue { value, timestamp: height };
        let old_list = if base.entries.contains_key(worker) {
            base.entries[worker]
        } else {
            Seq::empty()
        };
        let new_list = old_list.push(obs);
        let prev = if base.aggregates.contains_key(worker) {
            Some(base.aggregates[worker])
        } else {
            None
        };
        AggregatorView {
            window_size: base.window_size,
            last_period: base.last_period,
            submitted: base.submitted.insert(rk, true),
            entries: base.entries.insert(worker, new_list),
            aggregates: match C::spec_combine(worker, new_list, prev) {
                Some(c) => base.aggregates.insert(worker, c),
                None => base.aggregates,
            },
        }
    }
}

/// The aggregate exposed for `worker` in period `p`: present only while `p`
/// is the period the tables belong to.
pub open spec fn spec_aggregate_for(v: AggregatorView, worker: WorkerKey, p: Period) -> Option<
    ProcessStatus,
> {
    if p == v.last_period && v.aggregates.contains_key(worker) {
        Some(v.aggregates[worker].value)
    } else {
        None
    }
}

/// The status aggregator.
pub struct StatusAggregator {
    /// Maps block heights to period indices.
    pub window: PeriodWindowManager,
    /// The period the per-period tables belong to.
    pub last_period: Period,
    /// Which (reporter, worker) pairs have submitted in the period.
    pub submitted_per_period: Store<ReportKey, bool>,
    /// The observations recorded per worker in the period.
    pub worker_status_entries_per_period: Store<WorkerKey, Vec<TimestampedValue>>,
    /// The combined aggregate per worker for the period.
    pub aggregate_status: Store<WorkerKey, TimestampedValue>,
}

impl View for StatusAggregator {
    type V = AggregatorView;

    open spec fn view(&self) -> AggregatorView {
        AggregatorView {
            window_size: self.window.window_size,
            last_period: self.last_period,
            submitted: self.submitted_per_period@,
            entries: entry_views(self.worker_status_entries_per_period@),
            aggregates: self.aggregate_status@,
        }
    }
}

impl StatusAggregator {
    /// Well-formedness: the window is non-degenerate, the tables have
    /// distinct keys, and a recorded submission is always the value `true`.
    pub open spec fn inv(self) -> bool {
        &&& self.window.wf()
        &&& self.submitted_per_period.wf()
        &&& self.worker_status_entries_per_period.wf()
        &&& self.aggregate_status.wf()
        &&& forall|rk: ReportKey| #[trigger]
            self@.submitted.contains_key(rk) ==> self@.submitted[rk]
    }

    pub fn new(window_size: u64) -> (r: StatusAggregator)
        requires
            window_size > 0,
        ensures
            r.inv(),
            r@.window_size == window_size,
            r@.last_period == 0,
            r@.submitted == Map::<ReportKey, bool>::empty(),
            r@.entries == Map::<WorkerKey, Seq<TimestampedValue>>::empty(),
            r@.aggregates == Map::<WorkerKey, TimestampedValue>::empty(),
    {
        let r = StatusAggregator {
            window: PeriodWindowManager::new(window_size),
            last_period: 0,
            submitted_per_period: Store::new(),
            worker_status_entries_per_period: Store::new(),
            aggregate_status: Store::new(),
        };
        proof {
            assert(r@.entries =~= Map::<WorkerKey, Seq<TimestampedValue>>::empty());
        }
        r
    }

    /// Accepts a status observation about `worker_key` from `who` at block
    /// height `height` and folds it into the period's state under combine
    /// policy `C`. Never fails: a duplicate submission within the period is
    /// a no-op.
    pub fn on_new_data<C: CombineData>(
        &mut self,
        who: &Account,
        worker_key: &WorkerKey,
        value: &ProcessStatus,
        height: BlockNumber,
    )
        requires
            old(self).inv(),
        ensures
            final(self).inv(),
            final(self)@ == spec_on_new_data::<C>(old(self)@, *who, *worker_key, *value, height),
    {
        let p = self.window.current_period(height);
        if p != self.last_period {
            self.submitted_per_period.clear();
            self.worker_status_entries_per_period.clear();
            self.aggregate_status.clear();
            self.last_period = p;
            proof {
                assert(self@ =~= spec_rolled(old(self)@, p));
            }
        }
        let ghost base = self@;
        proof {
            assert(base =~= spec_base(old(self)@, p));
        }
        let rk = ReportKey { reporter: *who, worker: *worker_key };
        if self.submitted_per_period.contains(&rk) {
            return ;
        }
        self.submitted_per_period.insert(rk, true);
        let obs = TimestampedValue { value: *value, timestamp: height };
        let mut list = match self.worker_status_entries_per_period.take(worker_key) {
            Some(l) => l,
            None => Vec::new(),
        };
        list.push(obs);
        let prev = match self.aggregate_status.get(worker_key) {
            Some(t) => Some(*t),
            None => None,
        };
        let combined = C::combine_data(worker_key, &list, prev);
        let ghost new_list = list@;
        self.worker_status_entries_per_period.insert(*worker_key, list);
        match combined {
            Some(c) => {
                self.aggregate_status.insert(*worker_key, c);
            },
            None => {},
        }
        proof {
            assert(self@.entries =~= base.entries.insert(*worker_key, new_list));
            assert(self@ =~= spec_on_new_data::<C>(old(self)@, *who, *worker_key, *value, height));
        }
    }

    /// The aggregate recorded for `worker_key` in period `period`, if the
    /// tables belong to that period and the combine policy has produced one.
    pub fn aggregate_for(&self, worker_key: &WorkerKey, period: Period) -> (r: Option<
        ProcessStatus,
    >)
        requires
            self.inv(),
        ensures
            r == spec_aggregate_for(self@, *worker_key, period),
    {
        if period != self.last_period {
            return None;
        }
        match self.aggregate_status.get(worker_key) {
            Some(t) => Some(t.value),
            None => None,
        }
    }

    /// Whether `who` has a recorded submission about `worker_key` in the
    /// current period.
    pub fn submitted_in_current_period(&self, who: &Account, worker_key: &WorkerKey) -> (r: bool)
        requires
            self.inv(),
        ensures
            ({
                let rk = ReportKey { reporter: *who, worker: *worker_key };
                r == self@.submitted.contains_key(rk)
            }),
    {
        let rk = ReportKey { reporter: *who, worker: *worker_key };
        self.submitted_per_period.contains(&rk)
    }

    /// Whether any observation about `worker_key` is recorded for the
    /// current period.
    pub fn has_status_entry(&self, worker_key: &WorkerKey) -> (r: bool)
        requires
            self.inv(),
        ensures
            r == self@.entries.contains_key(*worker_key),
    {
        self.worker_status_entries_per_period.contains(worker_key)
    }
}

/// A period's distinct-submission record never outgrows the distinct
/// (reporter, worker) pairs that actually called in: one call adds at most
/// the caller's own pair, and a pair that already submitted in the current
/// period changes nothing at all.
pub proof fn lemma_submissions_not_inflated<C: CombineData>(
    v: AggregatorView,
    reporter: Account,
    worker: WorkerKey,
    value: ProcessStatus,
    height: BlockNumber,
)
    ensures
        ({
            let v1 = spec_on_new_data::<C>(v, reporter, worker, value, height);
            let rk = ReportKey { reporter, worker };
            let p = (height / v.window_size) as Period;
            &&& v1.submitted.dom().subset_of(spec_base(v, p).submitted.dom().insert(rk))
            &&& v1.submitted.contains_key(rk)
            &&& (p == v.last_period && v.submitted.contains_key(rk)) ==> v1 == v
        }),
{
    let v1 = spec_on_new_data::<C>(v, reporter, worker, value, height);
    let rk = ReportKey { reporter, worker };
    let p = (height / v.window_size) as Period;
    let base = spec_base(v, p);
    if base.submitted.contains_key(rk) {
        assert(v1.submitted.dom().subset_of(base.submitted.dom().insert(rk)));
    } else {
        assert(v1.submitted == base.submitted.insert(rk, true));
        assert(v1.submitted.dom().subset_of(base.submitted.dom().insert(rk)));
    }
}

/// Period rollover is monotonic in effect: after a call arriving in some
/// period, reads for every other period — in particular every period that
/// has rolled over — see no aggregate. No write is ever attributed to a
/// period other than the one the call arrived in.
pub proof fn lemma_rollover_isolates_periods<C: CombineData>(
    v: AggregatorView,
    reporter: Account,
    worker: WorkerKey,
    value: ProcessStatus,
    height: BlockNumber,
    k: WorkerKey,
    q: Period,
)
    requires
        q != (height / v.window_size) as Period,
    ensures
        spec_aggregate_for(spec_on_new_data::<C>(v, reporter, worker, value, height), k, q)
            == None::<ProcessStatus>,
{
}

/// One observation call, as data.
pub ghost struct FeedCall {
    pub reporter: Account,
    pub worker: WorkerKey,
    pub value: ProcessStatus,
    pub height: BlockNumber,
}

/// The aggregator state after a sequence of observation calls.
pub open spec fn spec_feed_all<C: CombineData>(v: AggregatorView, calls: Seq<FeedCall>) -> AggregatorView
    decreases calls.len(),
{
    if calls.len() == 0 {
        v
    } else {
        let c = calls.last();
        spec_on_new_data::<C>(
            spec_feed_all::<C>(v, calls.drop_last()),
            c.reporter,
            c.worker,
            c.value,
            c.height,
        )
    }
}

/// The (reporter, worker) pairs that appear among a sequence of calls.
pub open spec fn spec_report_keys(calls: Seq<FeedCall>) -> Set<ReportKey> {
    Set::new(
        |rk: ReportKey|
            exists|i: int|
                0 <= i < calls.len() && (#[trigger] calls[i]).reporter == rk.reporter
                    && calls[i].worker == rk.worker,
    )
}

/// Over any sequence of observation calls, the pairs recorded as submitted
/// never exceed the pairs already recorded plus the distinct (reporter,
/// worker) pairs that actually called in: duplicate submissions cannot
/// inflate the record.
pub proof fn lemma_submissions_bounded_by_callers<C: CombineData>(
    v: AggregatorView,
    calls: Seq<FeedCall>,
)
    ensures
        spec_feed_all::<C>(v, calls).submitted.dom().subset_of(
            v.submitted.dom().union(spec_report_keys(calls)),
        ),
    decreases calls.len(),
{
    if calls.len() > 0 {
        let pre = spec_feed_all::<C>(v, calls.drop_last());
        lemma_submissions_bounded_by_callers::<C>(v, calls.drop_last());
        let c = calls.last();
        let post = spec_feed_all::<C>(v, calls);
        lemma_submissions_not_inflated::<C>(pre, c.reporter, c.worker, c.value, c.height);
        let rk = ReportKey { reporter: c.reporter, worker: c.worker };
        let p = (c.height / pre.window_size) as Period;
        assert forall|x: ReportKey| post.submitted.dom().contains(x) implies v.submitted.dom().union(
            spec_report_keys(calls),
        ).contains(x) by {
            assert(spec_base(pre, p).submitted.dom().insert(rk).contains(x));
            if x == rk {
                assert(calls[calls.len() - 1].reporter == x.reporter && calls[calls.len()
                    - 1].worker == x.worker);
                assert(spec_report_keys(calls).contains(x));
            } else {
                assert(pre.submitted.dom().contains(x));
                assert(v.submitted.dom().union(spec_report_keys(calls.drop_last())).contains(x));
                if spec_report_keys(calls.drop_last()).contains(x) {
                    let i = choose|i: int|
                        0 <= i < calls.drop_last().len() && (#[trigger] calls.drop_last()[i]).reporter
                            == x.reporter && calls.drop_last()[i].worker == x.worker;
                    assert(calls[i].reporter == x.reporter && calls[i].worker == x.worker);
                    assert(spec_report_keys(calls).contains(x));
                }
            }
        }
    }
}

/// Repeating a submission within one period is idempotent: the second call
/// returns the state the first call produced, unchanged.
pub proof fn lemma_resubmission_idempotent<C: CombineData>(
    v: AggregatorView,
    reporter: Account,
    worker: WorkerKey,
    value1: ProcessStatus,
    value2: ProcessStatus,
    h1: BlockNumber,
    h2: BlockNumber,
)
    requires
        v.window_size > 0,
        h1 / v.window_size == h2 / v.window_size,
    ensures
        ({
            let v1 = spec_on_new_data::<C>(v, reporter, worker, value1, h1);
            spec_on_new_data::<C>(v1, reporter, worker, value2, h2) == v1
        }),
{
    let v1 = spec_on_new_data::<C>(v, reporter, worker, value1, h1);
    let rk = ReportKey { reporter, worker };
    let p = (h1 / v.window_size) as Period;
    assert(v1.window_size == v.window_size);
    assert(v1.last_period == p);
    assert(v1.submitted.contains_key(rk));
    assert(spec_base(v1, p) == v1);
}

} // verus!
