//! Weights of dispatchable calls: execution time and proof size, combined
//! with saturating arithmetic, and the cost of database reads and writes.
use vstd::prelude::*;

pub mod bridge_registry;
pub mod dkg_metadata;
pub mod dkg_proposal_handler;
pub mod dkg_proposals;

verus! {

/// `x`, or the largest `u64` when `x` exceeds it.
pub open spec fn saturate(x: int) -> u64 {
    if x > u64::MAX {
        u64::MAX
    } else {
        x as u64
    }
}

/// The weight of a call: reference execution time (picoseconds) and proof size (bytes).
#[derive(Clone, Copy, Debug, PartialEq, Eq, Structural)]
pub struct Weight {
    pub ref_time: u64,
    pub proof_size: u64,
}

/// The weight with the given components.
pub open spec fn parts(ref_time: u64, proof_size: u64) -> Weight {
    Weight { ref_time, proof_size }
}

/// `x * y`, or the largest `u64` when the product exceeds it.
pub fn mul_saturating(x: u64, y: u64) -> (r: u64)
    ensures
        r == saturate(x * y),
{
    match x.checked_mul(y) {
        Some(v) => v,
        None => u64::MAX,
    }
}

impl Weight {
    /// The componentwise saturating sum of two weights.
    pub open spec fn plus(self, rhs: Weight) -> Weight {
        parts(saturate(self.ref_time + rhs.ref_time), saturate(self.proof_size + rhs.proof_size))
    }

    /// Both components multiplied by `scalar`, saturating.
    pub open spec fn times(self, scalar: u64) -> Weight {
        parts(saturate(self.ref_time * scalar), saturate(self.proof_size * scalar))
    }

    /// The weight with the given components.
    pub fn from_parts(ref_time: u64, proof_size: u64) -> (w: Weight)
        ensures
            w == parts(ref_time, proof_size),
    {
        Weight { ref_time, proof_size }
    }

    /// A weight of execution time alone.
    pub fn from_ref_time(ref_time: u64) -> (w: Weight)
        ensures
            w == parts(ref_time, 0),
    {
        Weight { ref_time, proof_size: 0 }
    }

    /// The weight of nothing.
    pub fn zero() -> (w: Weight)
        ensures
            w == parts(0, 0),
    {
        Weight { ref_time: 0, proof_size: 0 }
    }

    /// The execution-time component.
    pub fn ref_time(&self) -> (r: u64)
        ensures
            r == self.ref_time,
    {
        self.ref_time
    }

    /// The proof-size component.
    pub fn proof_size(&self) -> (r: u64)
        ensures
            r == self.proof_size,
    {
        self.proof_size
    }

    /// Adds `rhs` componentwise, saturating at the largest `u64`.
    pub fn saturating_add(self, rhs: Weight) -> (w: Weight)
        ensures
            w == self.plus(rhs),
    {
        Weight {
            ref_time: self.ref_time.saturating_add(rhs.ref_time),
            proof_size: self.proof_size.saturating_add(rhs.proof_size),
        }
    }

    /// Multiplies both components by `scalar`, saturating at the largest `u64`.
    pub fn saturating_mul(self, scalar: u64) -> (w: Weight)
        ensures
            w == self.times(scalar),
    {
        Weight {
            ref_time: mul_saturating(self.ref_time, scalar),
            proof_size: mul_saturating(self.proof_size, scalar),
        }
    }
}

/// The execution time of one database read and of one database write.
#[derive(Clone, Copy, Debug, PartialEq, Eq, Structural)]
pub struct RuntimeDbWeight {
    pub read: u64,
    pub write: u64,
}

impl RuntimeDbWeight {
    /// The weight of `r` reads.
    pub open spec fn reads_weight(self, r: u64) -> Weight {
        parts(saturate(self.read * r), 0)
    }

    /// The weight of `w` writes.
    pub open spec fn writes_weight(self, w: u64) -> Weight {
        parts(saturate(self.write * w), 0)
    }

    /// The weight of `r` reads.
    pub fn reads(self, r: u64) -> (w: Weight)
        ensures
            w == self.reads_weight(r),
    {
        Weight::from_ref_time(mul_saturating(self.read, r))
    }

    /// The weight of `w` writes.
    pub fn writes(self, w: u64) -> (r: Weight)
        ensures
            r == self.writes_weight(w),
    {
        Weight::from_ref_time(mul_saturating(self.write, w))
    }
}

/// Reference execution time per nanosecond.
pub const WEIGHT_REF_TIME_PER_NANOS: u64 = 1_000;

/// Database weights of a RocksDB backend: 25 µs per read, 100 µs per write.
pub open spec fn rocks_db() -> RuntimeDbWeight {
    RuntimeDbWeight {
        read: (25_000 * WEIGHT_REF_TIME_PER_NANOS) as u64,
        write: (100_000 * WEIGHT_REF_TIME_PER_NANOS) as u64,
    }
}

/// Database weights of a RocksDB backend.
pub fn rocks_db_weight() -> (w: RuntimeDbWeight)
    ensures
        w == rocks_db(),
        w.read == 25_000_000,
        w.write == 100_000_000,
{
    RuntimeDbWeight {
        read: (25_000 * WEIGHT_REF_TIME_PER_NANOS) as u64,
        write: (100_000 * WEIGHT_REF_TIME_PER_NANOS) as u64,
    }
}

} // verus!
