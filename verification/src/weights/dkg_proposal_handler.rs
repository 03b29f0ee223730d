//! Weights of the DKG proposal handler's calls.
use vstd::prelude::*;
use super::{mul_saturating, parts, rocks_db, rocks_db_weight, saturate, RuntimeDbWeight, Weight};

verus! {

/// Weight functions of the DKG proposal handler's calls.
pub trait WeightInfo {
    fn submit_signed_proposals(&self, n: u32) -> Weight;

    fn force_submit_unsigned_proposal(&self) -> Weight;
}

/// The weight of submitting `n` signed proposals with database weights `db`:
/// a base cost and proof, then per proposal an execution time, one read, two
/// writes and the proof of an unsigned-queue entry.
pub open spec fn signed_proposals_weight(db: RuntimeDbWeight, n: u32) -> Weight {
    parts(38_155_265, 1017).plus(parts(90_756_705, 0).times(n as u64)).plus(db.reads_weight(1)).plus(
        db.reads_weight(n as u64),
    ).plus(db.writes_weight(1)).plus(db.writes_weight(saturate(2 * n))).plus(
        parts(0, 22527).times(n as u64),
    )
}

/// Computes `signed_proposals_weight(db, n)`.
fn submit_signed_proposals_with(db: RuntimeDbWeight, n: u32) -> (w: Weight)
    ensures
        w == signed_proposals_weight(db, n),
{
    let n64 = n as u64;
    Weight::from_parts(38_155_265, 1017).saturating_add(
        Weight::from_parts(90_756_705, 0).saturating_mul(n64),
    ).saturating_add(db.reads(1)).saturating_add(db.reads(mul_saturating(1, n64))).saturating_add(
        db.writes(1),
    ).saturating_add(db.writes(mul_saturating(2, n64))).saturating_add(
        Weight::from_parts(0, 22527).saturating_mul(n64),
    )
}

/// Benchmarked weights, with the database weights of the runtime.
pub struct WebbWeight {
    pub db: RuntimeDbWeight,
}

impl WeightInfo for WebbWeight {
    /// See `signed_proposals_weight`.
    fn submit_signed_proposals(&self, n: u32) -> (w: Weight)
        ensures
            w == signed_proposals_weight(self.db, n),
    {
        submit_signed_proposals_with(self.db, n)
    }

    /// One write of the unsigned-proposal queue.
    fn force_submit_unsigned_proposal(&self) -> (w: Weight)
        ensures
            w == parts(12_000_000, 0).plus(self.db.writes_weight(1)),
    {
        Weight::from_parts(12_000_000, 0).saturating_add(self.db.writes(1))
    }
}

/// The benchmarked weights with RocksDB database weights.
impl WeightInfo for () {
    fn submit_signed_proposals(&self, n: u32) -> (w: Weight)
        ensures
            w == signed_proposals_weight(rocks_db(), n),
    {
        submit_signed_proposals_with(rocks_db_weight(), n)
    }

    fn force_submit_unsigned_proposal(&self) -> (w: Weight)
        ensures
            w == parts(112_000_000, 0),
    {
        Weight::from_parts(12_000_000, 0).saturating_add(rocks_db_weight().writes(1))
    }
}

} // verus!
