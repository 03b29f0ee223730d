//! Weights of the DKG proposals pallet's calls.
use vstd::prelude::*;
use super::{parts, RuntimeDbWeight, Weight};

verus! {

/// Weight functions of the DKG proposals pallet's calls.
pub trait WeightInfo {
    fn set_maintainer(&self) -> Weight;

    fn force_set_maintainer(&self) -> Weight;

    fn set_threshold(&self, _c: u32) -> Weight;

    fn set_resource(&self, _c: u32) -> Weight;

    fn remove_resource(&self) -> Weight;

    fn whitelist_chain(&self) -> Weight;

    fn add_proposer(&self) -> Weight;

    fn remove_proposer(&self) -> Weight;

    fn acknowledge_proposal(&self, _c: u32) -> Weight;

    fn reject_proposal(&self, _c: u32) -> Weight;

    fn eval_vote_state(&self, _c: u32) -> Weight;
}

/// Benchmarked weights, with the database weights of the runtime.
pub struct WebbWeight {
    pub db: RuntimeDbWeight,
}

impl WeightInfo for WebbWeight {
    /// Reads and writes the maintainer.
    fn set_maintainer(&self) -> (w: Weight)
        ensures
            w == parts(11_000_000, 0).plus(self.db.reads_weight(1)).plus(self.db.writes_weight(1)),
    {
        Weight::from_ref_time(11_000_000).saturating_add(self.db.reads(1)).saturating_add(self.db.writes(1))
    }

    /// Reads and writes the maintainer.
    fn force_set_maintainer(&self) -> (w: Weight)
        ensures
            w == parts(10_000_000, 0).plus(self.db.reads_weight(1)).plus(self.db.writes_weight(1)),
    {
        Weight::from_ref_time(10_000_000).saturating_add(self.db.reads(1)).saturating_add(self.db.writes(1))
    }

    /// Writes the proposer threshold.
    fn set_threshold(&self, _c: u32) -> (w: Weight)
        ensures
            w == parts(7_949_000, 0).plus(self.db.writes_weight(1)),
    {
        Weight::from_ref_time(7_949_000).saturating_add(self.db.writes(1))
    }

    /// Writes a resource.
    fn set_resource(&self, _c: u32) -> (w: Weight)
        ensures
            w == parts(1_266_000, 0).plus(self.db.writes_weight(1)),
    {
        Weight::from_ref_time(1_266_000).saturating_add(self.db.writes(1))
    }

    /// Writes a resource.
    fn remove_resource(&self) -> (w: Weight)
        ensures
            w == parts(1_000_000, 0).plus(self.db.writes_weight(1)),
    {
        Weight::from_ref_time(1_000_000).saturating_add(self.db.writes(1))
    }

    /// Reads and writes the chain nonces.
    fn whitelist_chain(&self) -> (w: Weight)
        ensures
            w == parts(11_000_000, 0).plus(self.db.reads_weight(1)).plus(self.db.writes_weight(1)),
    {
        Weight::from_ref_time(11_000_000).saturating_add(self.db.reads(1)).saturating_add(self.db.writes(1))
    }

    /// Reads and writes the proposers and their count.
    fn add_proposer(&self) -> (w: Weight)
        ensures
            w == parts(12_000_000, 0).plus(self.db.reads_weight(2)).plus(self.db.writes_weight(2)),
    {
        Weight::from_ref_time(12_000_000).saturating_add(self.db.reads(2)).saturating_add(self.db.writes(2))
    }

    /// Reads and writes the proposers and their count.
    fn remove_proposer(&self) -> (w: Weight)
        ensures
            w == parts(13_000_000, 0).plus(self.db.reads_weight(2)).plus(self.db.writes_weight(2)),
    {
        Weight::from_ref_time(13_000_000).saturating_add(self.db.reads(2)).saturating_add(self.db.writes(2))
    }

    /// Reads six storage items; writes the votes.
    fn acknowledge_proposal(&self, _c: u32) -> (w: Weight)
        ensures
            w == parts(27_981_000, 0).plus(self.db.reads_weight(6)).plus(self.db.writes_weight(1)),
    {
        Weight::from_ref_time(27_981_000).saturating_add(self.db.reads(6)).saturating_add(self.db.writes(1))
    }

    /// Reads six storage items; writes the votes.
    fn reject_proposal(&self, _c: u32) -> (w: Weight)
        ensures
            w == parts(28_205_000, 0).plus(self.db.reads_weight(6)).plus(self.db.writes_weight(1)),
    {
        Weight::from_ref_time(28_205_000).saturating_add(self.db.reads(6)).saturating_add(self.db.writes(1))
    }

    /// Reads the votes, threshold and proposer count; writes the votes.
    fn eval_vote_state(&self, _c: u32) -> (w: Weight)
        ensures
            w == parts(10_859_000, 0).plus(self.db.reads_weight(3)).plus(self.db.writes_weight(1)),
    {
        Weight::from_ref_time(10_859_000).saturating_add(self.db.reads(3)).saturating_add(self.db.writes(1))
    }
}

/// No weight for any call.
impl WeightInfo for () {
    fn set_maintainer(&self) -> (w: Weight)
        ensures
            w == parts(0, 0),
    {
        Weight::zero()
    }

    fn force_set_maintainer(&self) -> (w: Weight)
        ensures
            w == parts(0, 0),
    {
        Weight::zero()
    }

    fn set_threshold(&self, _c: u32) -> (w: Weight)
        ensures
            w == parts(0, 0),
    {
        Weight::zero()
    }

    fn set_resource(&self, _c: u32) -> (w: Weight)
        ensures
            w == parts(0, 0),
    {
        Weight::zero()
    }

    fn remove_resource(&self) -> (w: Weight)
        ensures
            w == parts(0, 0),
    {
        Weight::zero()
    }

    fn whitelist_chain(&self) -> (w: Weight)
        ensures
            w == parts(0, 0),
    {
        Weight::zero()
    }

    fn add_proposer(&self) -> (w: Weight)
        ensures
            w == parts(0, 0),
    {
        Weight::zero()
    }

    fn remove_proposer(&self) -> (w: Weight)
        ensures
            w == parts(0, 0),
    {
        Weight::zero()
    }

    fn acknowledge_proposal(&self, _c: u32) -> (w: Weight)
        ensures
            w == parts(0, 0),
    {
        Weight::zero()
    }

    fn reject_proposal(&self, _c: u32) -> (w: Weight)
        ensures
            w == parts(0, 0),
    {
        Weight::zero()
    }

    fn eval_vote_state(&self, _c: u32) -> (w: Weight)
        ensures
            w == parts(0, 0),
    {
        Weight::zero()
    }
}

} // verus!
