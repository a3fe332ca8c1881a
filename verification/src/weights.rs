//! Transaction weights for the host's sudo operations, computed over a
//! benchmarked base cost plus the configured per-read and per-write database
//! costs. All weight arithmetic saturates instead of overflowing.

use vstd::prelude::*;

verus! {

/// Saturating addition over `u64`.
pub open spec fn spec_sat_add(a: u64, b: u64) -> u64 {
    if a + b > u64::MAX {
        u64::MAX
    } else {
        (a + b) as u64
    }
}

/// Saturating multiplication over `u64`.
pub open spec fn spec_sat_mul(a: u64, b: u64) -> u64 {
    if a * b > u64::MAX {
        u64::MAX
    } else {
        (a * b) as u64
    }
}

/// The weight of an operation: its computation time in picoseconds and its
/// proof size in bytes.
#[derive(Clone, Copy, PartialEq, Eq, Structural, Debug)]
pub struct Weight {
    pub ref_time: u64,
    pub proof_size: u64,
}

impl Weight {
    pub fn from_parts(ref_time: u64, proof_size: u64) -> (r: Weight)
        ensures
            r.ref_time == ref_time,
            r.proof_size == proof_size,
    {
        Weight { ref_time, proof_size }
    }

    /// Component-wise saturating addition of two weights.
    pub fn saturating_add(self, rhs: Weight) -> (r: Weight)
        ensures
            r.ref_time == spec_sat_add(self.ref_time, rhs.ref_time),
            r.proof_size == spec_sat_add(self.proof_size, rhs.proof_size),
    {
        Weight {
            ref_time: self.ref_time.saturating_add(rhs.ref_time),
            proof_size: self.proof_size.saturating_add(rhs.proof_size),
        }
    }
}

/// The database access costs of the host's storage backend.
#[derive(Clone, Copy, PartialEq, Eq, Structural, Debug)]
pub struct RuntimeDbWeight {
    /// Cost of one storage read, in picoseconds.
    pub read: u64,
    /// Cost of one storage write, in picoseconds.
    pub write: u64,
}

impl RuntimeDbWeight {
    /// The weight of `n` storage reads.
    pub fn reads(&self, n: u64) -> (r: Weight)
        ensures
            r.ref_time == spec_sat_mul(self.read, n),
            r.proof_size == 0,
    {
        let ref_time = match self.read.checked_mul(n) {
            Some(t) => t,
            None => u64::MAX,
        };
        Weight { ref_time, proof_size: 0 }
    }

    /// The weight of `n` storage writes.
    pub fn writes(&self, n: u64) -> (r: Weight)
        ensures
            r.ref_time == spec_sat_mul(self.write, n),
            r.proof_size == 0,
    {
        let ref_time = match self.write.checked_mul(n) {
            Some(t) => t,
            None => u64::MAX,
        };
        Weight { ref_time, proof_size: 0 }
    }
}

/// Weight functions needed for the host's sudo operations.
pub trait WeightInfo {
    fn set_key(&self) -> Weight;

    fn sudo(&self) -> Weight;

    fn sudo_as(&self) -> Weight;

    fn remove_key(&self) -> Weight;
}

/// Benchmarked weights, parameterised over the storage backend's database
/// costs.
#[derive(Clone, Copy, PartialEq, Eq, Structural, Debug)]
pub struct SubstrateWeight {
    pub db: RuntimeDbWeight,
}

impl WeightInfo for SubstrateWeight {
    /// One key read and one key write on top of the benchmarked base cost.
    fn set_key(&self) -> (r: Weight)
        ensures
            r.ref_time == spec_sat_add(
                spec_sat_add(8_000_000, spec_sat_mul(self.db.read, 1)),
                spec_sat_mul(self.db.write, 1),
            ),
            r.proof_size == 1517,
    {
        Weight::from_parts(8_000_000, 1517).saturating_add(self.db.reads(1)).saturating_add(
            self.db.writes(1),
        )
    }

    /// One key read on top of the benchmarked base cost.
    fn sudo(&self) -> (r: Weight)
        ensures
            r.ref_time == spec_sat_add(9_000_000, spec_sat_mul(self.db.read, 1)),
            r.proof_size == 1517,
    {
        Weight::from_parts(9_000_000, 1517).saturating_add(self.db.reads(1))
    }

    /// One key read on top of the benchmarked base cost.
    fn sudo_as(&self) -> (r: Weight)
        ensures
            r.ref_time == spec_sat_add(9_000_000, spec_sat_mul(self.db.read, 1)),
            r.proof_size == 1517,
    {
        Weight::from_parts(9_000_000, 1517).saturating_add(self.db.reads(1))
    }

    /// One key read and one key write on top of the benchmarked base cost.
    fn remove_key(&self) -> (r: Weight)
        ensures
            r.ref_time == spec_sat_add(
                spec_sat_add(7_000_000, spec_sat_mul(self.db.read, 1)),
                spec_sat_mul(self.db.write, 1),
            ),
            r.proof_size == 1517,
    {
        Weight::from_parts(7_000_000, 1517).saturating_add(self.db.reads(1)).saturating_add(
            self.db.writes(1),
        )
    }
}

} // verus!
