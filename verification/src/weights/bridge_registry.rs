//! Weights of the bridge registry's calls.
use vstd::prelude::*;
use super::{parts, rocks_db_weight, RuntimeDbWeight, Weight};

verus! {

/// Weight functions of the bridge registry's calls.
pub trait WeightInfo {
    fn set_metadata(&self) -> Weight;

    fn force_reset_indices(&self) -> Weight;
}

/// Benchmarked weights, with the database weights of the runtime.
pub struct WebbWeight {
    pub db: RuntimeDbWeight,
}

impl WeightInfo for WebbWeight {
    /// One read and one write of the bridges map.
    fn set_metadata(&self) -> (w: Weight)
        ensures
            w == parts(6_000_000, 0).plus(self.db.reads_weight(1)).plus(self.db.writes_weight(1)),
    {
        Weight::from_ref_time(6_000_000).saturating_add(self.db.reads(1)).saturating_add(
            self.db.writes(1),
        )
    }

    /// One write of the resource index.
    fn force_reset_indices(&self) -> (w: Weight)
        ensures
            w == parts(862_000_000, 0).plus(self.db.writes_weight(1)),
    {
        Weight::from_ref_time(862_000_000).saturating_add(self.db.writes(1))
    }
}

/// The benchmarked weights with RocksDB database weights.
impl WeightInfo for () {
    fn set_metadata(&self) -> (w: Weight)
        ensures
            w == parts(131_000_000, 0),
    {
        let db = rocks_db_weight();
        Weight::from_ref_time(6_000_000).saturating_add(db.reads(1)).saturating_add(db.writes(1))
    }

    fn force_reset_indices(&self) -> (w: Weight)
        ensures
            w == parts(962_000_000, 0),
    {
        Weight::from_ref_time(862_000_000).saturating_add(rocks_db_weight().writes(1))
    }
}

} // verus!
