//! Oracle-facing types and the pluggable combine policy that merges the
//! status observations of one reporting period into a single aggregate.

use vstd::prelude::*;
use crate::worker::WorkerKey;

verus! {

/// Interface for fetching metrics and logs from a connected cluster; the
/// host provides the implementation.
pub trait MetricsAndLogs {
    /// Fetches the current metrics.
    fn get_metrics() -> StringAPI;
}

pub type StringAPI = String;

/// A raw observation submitted by a reporter about a worker.
#[derive(Clone, Copy, PartialEq, Eq, Structural, Debug)]
pub struct ProcessStatus {
    pub online: bool,
    pub available: bool,
}

#[derive(Clone, Copy, PartialEq, Eq, Structural, Debug)]
pub enum MachineId {
    Id(u64),
}

#[derive(Clone, Copy, PartialEq, Eq, Structural, Debug)]
pub enum ProcessId {
    Process(u64, MachineId),
}

/// An observation tagged with the block height it was made at.
#[derive(Clone, Copy, PartialEq, Eq, Structural, Debug)]
pub struct TimestampedValue {
    pub value: ProcessStatus,
    pub timestamp: u64,
}

/// A policy that merges the observations collected for a worker in the
/// current period, optionally with the previous aggregate, into a new
/// aggregate, or elects to discard the update.
///
/// The policy is a pure function of its inputs — no clock and no
/// randomness — so that every replica evaluating the same transition
/// converges on the same aggregate.
pub trait CombineData {
    /// The value the policy combines to, as a function of its inputs alone.
    spec fn spec_combine(
        key: WorkerKey,
        values: Seq<TimestampedValue>,
        prev: Option<TimestampedValue>,
    ) -> Option<TimestampedValue>;

    /// Merges `values` (the observations recorded for `key` this period,
    /// oldest first) with the previous aggregate.
    fn combine_data(
        key: &WorkerKey,
        values: &Vec<TimestampedValue>,
        prev: Option<TimestampedValue>,
    ) -> (r: Option<TimestampedValue>)
        ensures
            r == Self::spec_combine(*key, values@, prev),
    ;
}

/// A placeholder combine policy that discards every update: with it the
/// aggregate is never materialised.
pub struct DummyCombineData;

impl CombineData for DummyCombineData {
    open spec fn spec_combine(
        key: WorkerKey,
        values: Seq<TimestampedValue>,
        prev: Option<TimestampedValue>,
    ) -> Option<TimestampedValue> {
        None
    }

    fn combine_data(
        _key: &WorkerKey,
        _values: &Vec<TimestampedValue>,
        _prev: Option<TimestampedValue>,
    ) -> (r: Option<TimestampedValue>) {
        None
    }
}

/// The observation with the greatest timestamp, a later entry winning ties;
/// `None` when there are no observations.
pub open spec fn latest_of(values: Seq<TimestampedValue>) -> Option<TimestampedValue>
    decreases values.len(),
{
    if values.len() == 0 {
        None
    } else {
        match latest_of(values.drop_last()) {
            None => Some(values.last()),
            Some(b) => if values.last().timestamp >= b.timestamp {
                Some(values.last())
            } else {
                Some(b)
            },
        }
    }
}

/// What the most-recent policy selects: nothing exactly when there are no
/// observations, and otherwise one of the observations, with a timestamp no
/// smaller than any other's.
pub proof fn lemma_latest_is_max(values: Seq<TimestampedValue>)
    ensures
        values.len() == 0 <==> latest_of(values) is None,
        latest_of(values) matches Some(b) ==> (exists|i: int|
            0 <= i < values.len() && values[i] == b) && (forall|i: int|
            0 <= i < values.len() ==> (#[trigger] values[i]).timestamp <= b.timestamp),
    decreases values.len(),
{
    if values.len() > 0 {
        lemma_latest_is_max(values.drop_last());
        let b = latest_of(values)->0;
        if values.len() == 1 {
            assert(values[0] == values.last());
        } else {
            match latest_of(values.drop_last()) {
                None => {},
                Some(p) => {
                    if b == values.last() {
                        assert(values[values.len() - 1] == b);
                    } else {
                        let i = choose|i: int|
                            0 <= i < values.drop_last().len() && values.drop_last()[i] == b;
                        assert(values[i] == b);
                    }
                    assert forall|i: int|
                        0 <= i < values.len() implies (#[trigger] values[i]).timestamp
                        <= b.timestamp by {
                        if i < values.len() - 1 {
                            assert(values.drop_last()[i] == values[i]);
                        }
                    }
                },
            }
        }
    }
}

/// A combine policy that keeps the most recent observation by timestamp,
/// falling back to the previous aggregate when the period has none.
pub struct MostRecentCombineData;

impl CombineData for MostRecentCombineData {
    open spec fn spec_combine(
        key: WorkerKey,
        values: Seq<TimestampedValue>,
        prev: Option<TimestampedValue>,
    ) -> Option<TimestampedValue> {
        match latest_of(values) {
            Some(v) => Some(v),
            None => prev,
        }
    }

    fn combine_data(
        key: &WorkerKey,
        values: &Vec<TimestampedValue>,
        prev: Option<TimestampedValue>,
    ) -> (r: Option<TimestampedValue>) {
        let mut best: Option<TimestampedValue> = None;
        let mut i: usize = 0;
        while i < values.len()
            invariant
                i <= values@.len(),
                best == latest_of(values@.subrange(0, i as int)),
            decreases values@.len() - i,
        {
            let v = values[i];
            best = match best {
                None => Some(v),
                Some(b) => if v.timestamp >= b.timestamp {
                    Some(v)
                } else {
                    Some(b)
                },
            };
            proof {
                let pre = values@.subrange(0, i as int);
                let ext = values@.subrange(0, i + 1 as int);
                assert(ext.drop_last() =~= pre);
                assert(ext.last() == values@[i as int]);
            }
            i = i + 1;
        }
        proof {
            assert(values@.subrange(0, values@.len() as int) =~= values@);
        }
        match best {
            Some(v) => Some(v),
            None => prev,
        }
    }
}

} // verus!
