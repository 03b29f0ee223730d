//! Weights of the DKG metadata pallet's calls.
use vstd::prelude::*;
use super::{mul_saturating, parts, saturate, RuntimeDbWeight, Weight};

verus! {

/// Weight functions of the DKG metadata pallet's calls.
pub trait WeightInfo {
    fn set_signature_threshold(&self) -> Weight;

    fn set_keygen_threshold(&self) -> Weight;

    fn set_refresh_delay(&self, _n: u32) -> Weight;

    fn manual_increment_nonce(&self) -> Weight;

    fn manual_refresh(&self) -> Weight;

    fn submit_public_key(&self, n: u32) -> Weight;

    fn submit_next_public_key(&self, n: u32) -> Weight;

    fn submit_misbehaviour_reports(&self, n: u32) -> Weight;

    fn submit_public_key_signature(&self) -> Weight;

    fn unjail(&self) -> Weight;

    fn force_unjail_signing(&self) -> Weight;

    fn force_unjail_keygen(&self) -> Weight;
}

/// Benchmarked weights, with the database weights of the runtime.
pub struct WebbWeight {
    pub db: RuntimeDbWeight,
}

impl WeightInfo for WebbWeight {
    /// Reads the next authorities and the pending threshold; writes the threshold.
    fn set_signature_threshold(&self) -> (w: Weight)
        ensures
            w == parts(16_000_000, 0).plus(self.db.reads_weight(2)).plus(self.db.writes_weight(1)),
    {
        Weight::from_ref_time(16_000_000).saturating_add(self.db.reads(2)).saturating_add(self.db.writes(1))
    }

    /// Reads the next authorities and both pending thresholds; writes one.
    fn set_keygen_threshold(&self) -> (w: Weight)
        ensures
            w == parts(27_000_000, 0).plus(self.db.reads_weight(3)).plus(self.db.writes_weight(1)),
    {
        Weight::from_ref_time(27_000_000).saturating_add(self.db.reads(3)).saturating_add(self.db.writes(1))
    }

    /// Writes the refresh delay.
    fn set_refresh_delay(&self, _n: u32) -> (w: Weight)
        ensures
            w == parts(2_110_000, 0).plus(self.db.writes_weight(1)),
    {
        Weight::from_ref_time(2_110_000).saturating_add(self.db.writes(1))
    }

    /// Reads the refresh state and nonce; writes the nonce.
    fn manual_increment_nonce(&self) -> (w: Weight)
        ensures
            w == parts(9_000_000, 0).plus(self.db.reads_weight(2)).plus(self.db.writes_weight(1)),
    {
        Weight::from_ref_time(9_000_000).saturating_add(self.db.reads(2)).saturating_add(self.db.writes(1))
    }

    /// Reads three and writes four storage items.
    fn manual_refresh(&self) -> (w: Weight)
        ensures
            w == parts(30_000_000, 0).plus(self.db.reads_weight(3)).plus(self.db.writes_weight(4)),
    {
        Weight::from_ref_time(30_000_000).saturating_add(self.db.reads(3)).saturating_add(self.db.writes(4))
    }

    /// Per submitted key: a fixed execution time, one read and one write; plus
    /// four reads and one write.
    fn submit_public_key(&self, n: u32) -> (w: Weight)
        ensures
            w == parts(0, 0).plus(parts(saturate(2_352_338_000 * n), 0)).plus(self.db.reads_weight(4)).plus(
                self.db.reads_weight(n as u64),
            ).plus(self.db.writes_weight(1)).plus(self.db.writes_weight(n as u64)),
    {
        Weight::from_ref_time(0).saturating_add(
            Weight::from_ref_time(mul_saturating(2_352_338_000, n as u64)),
        ).saturating_add(self.db.reads(4)).saturating_add(
            self.db.reads(mul_saturating(1, n as u64)),
        ).saturating_add(self.db.writes(1)).saturating_add(
            self.db.writes(mul_saturating(1, n as u64)),
        )
    }

    /// A fixed execution time per submitted key, four reads and one write.
    fn submit_next_public_key(&self, n: u32) -> (w: Weight)
        ensures
            w == parts(0, 0).plus(parts(saturate(2_358_378_000 * n), 0)).plus(self.db.reads_weight(4)).plus(
                self.db.writes_weight(1),
            ),
    {
        Weight::from_ref_time(0).saturating_add(
            Weight::from_ref_time(mul_saturating(2_358_378_000, n as u64)),
        ).saturating_add(self.db.reads(4)).saturating_add(self.db.writes(1))
    }

    /// A fixed execution time per report, eight reads and two writes.
    fn submit_misbehaviour_reports(&self, n: u32) -> (w: Weight)
        ensures
            w == parts(0, 0).plus(parts(saturate(2_358_101_000 * n), 0)).plus(self.db.reads_weight(8)).plus(
                self.db.writes_weight(2),
            ),
    {
        Weight::from_ref_time(0).saturating_add(
            Weight::from_ref_time(mul_saturating(2_358_101_000, n as u64)),
        ).saturating_add(self.db.reads(8)).saturating_add(self.db.writes(2))
    }

    /// Reads 24 and writes 31 storage items: the session rotates.
    fn submit_public_key_signature(&self) -> (w: Weight)
        ensures
            w == parts(383_000_000, 0).plus(self.db.reads_weight(24)).plus(self.db.writes_weight(31)),
    {
        Weight::from_ref_time(383_000_000).saturating_add(self.db.reads(24)).saturating_add(self.db.writes(31))
    }

    /// Reads the authority and both jail maps; writes the jail maps.
    fn unjail(&self) -> (w: Weight)
        ensures
            w == parts(22_000_000, 0).plus(self.db.reads_weight(3)).plus(self.db.writes_weight(2)),
    {
        Weight::from_ref_time(22_000_000).saturating_add(self.db.reads(3)).saturating_add(self.db.writes(2))
    }

    /// Writes the signing jail map.
    fn force_unjail_signing(&self) -> (w: Weight)
        ensures
            w == parts(2_000_000, 0).plus(self.db.writes_weight(1)),
    {
        Weight::from_ref_time(2_000_000).saturating_add(self.db.writes(1))
    }

    /// Writes the keygen jail map.
    fn force_unjail_keygen(&self) -> (w: Weight)
        ensures
            w == parts(2_000_000, 0).plus(self.db.writes_weight(1)),
    {
        Weight::from_ref_time(2_000_000).saturating_add(self.db.writes(1))
    }
}

/// No weight for any call.
impl WeightInfo for () {
    fn set_signature_threshold(&self) -> (w: Weight)
        ensures
            w == parts(0, 0),
    {
        Weight::zero()
    }

    fn set_keygen_threshold(&self) -> (w: Weight)
        ensures
            w == parts(0, 0),
    {
        Weight::zero()
    }

    fn set_refresh_delay(&self, _n: u32) -> (w: Weight)
        ensures
            w == parts(0, 0),
    {
        Weight::zero()
    }

    fn manual_increment_nonce(&self) -> (w: Weight)
        ensures
            w == parts(0, 0),
    {
        Weight::zero()
    }

    fn manual_refresh(&self) -> (w: Weight)
        ensures
            w == parts(0, 0),
    {
        Weight::zero()
    }

    fn submit_public_key(&self, n: u32) -> (w: Weight)
        ensures
            w == parts(0, 0),
    {
        Weight::zero()
    }

    fn submit_next_public_key(&self, n: u32) -> (w: Weight)
        ensures
            w == parts(0, 0),
    {
        Weight::zero()
    }

    fn submit_misbehaviour_reports(&self, n: u32) -> (w: Weight)
        ensures
            w == parts(0, 0),
    {
        Weight::zero()
    }

    fn submit_public_key_signature(&self) -> (w: Weight)
        ensures
            w == parts(0, 0),
    {
        Weight::zero()
    }

    fn unjail(&self) -> (w: Weight)
        ensures
            w == parts(0, 0),
    {
        Weight::zero()
    }

    fn force_unjail_signing(&self) -> (w: Weight)
        ensures
            w == parts(0, 0),
    {
        Weight::zero()
    }

    fn force_unjail_keygen(&self) -> (w: Weight)
        ensures
            w == parts(0, 0),
    {
        Weight::zero()
    }
}

} // verus!
