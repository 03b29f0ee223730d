use dkg::weights::{rocks_db_weight, RuntimeDbWeight, Weight};
use dkg::weights::bridge_registry::{WebbWeight as BridgeWeight, WeightInfo as BridgeWeightInfo};
use dkg::weights::dkg_metadata::{WebbWeight as MetadataWeight, WeightInfo as MetadataWeightInfo};
use dkg::weights::dkg_proposal_handler::{
    WebbWeight as HandlerWeight, WeightInfo as HandlerWeightInfo,
};
use dkg::weights::dkg_proposals::{WebbWeight as ProposalsWeight, WeightInfo as ProposalsWeightInfo};

#[test]
fn weight_arithmetic_saturates() {
    let w = Weight::from_parts(u64::MAX - 1, 5).saturating_add(Weight::from_parts(3, 7));
    assert_eq!((w.ref_time(), w.proof_size()), (u64::MAX, 12));
    let m = Weight::from_parts(1 << 63, 4).saturating_mul(3);
    assert_eq!((m.ref_time(), m.proof_size()), (u64::MAX, 12));
    assert_eq!(Weight::from_ref_time(9), Weight::from_parts(9, 0));
    assert_eq!(Weight::zero(), Weight::from_parts(0, 0));
}

#[test]
fn database_weights() {
    let db = rocks_db_weight();
    assert_eq!((db.read, db.write), (25_000_000, 100_000_000));
    assert_eq!(db.reads(3), Weight::from_parts(75_000_000, 0));
    assert_eq!(db.writes(2), Weight::from_parts(200_000_000, 0));
    let huge = RuntimeDbWeight { read: u64::MAX / 2, write: 1 };
    assert_eq!(huge.reads(3).ref_time(), u64::MAX);
}

#[test]
fn bridge_registry_weights() {
    assert_eq!(().set_metadata(), Weight::from_parts(131_000_000, 0));
    assert_eq!(().force_reset_indices(), Weight::from_parts(962_000_000, 0));
    let w = BridgeWeight { db: RuntimeDbWeight { read: 10, write: 20 } };
    assert_eq!(w.set_metadata(), Weight::from_parts(6_000_030, 0));
    assert_eq!(w.force_reset_indices(), Weight::from_parts(862_000_020, 0));
}

#[test]
fn dkg_metadata_weights() {
    let w = MetadataWeight { db: rocks_db_weight() };
    assert_eq!(w.submit_public_key(2), Weight::from_parts(5_154_676_000, 0));
    assert_eq!(w.submit_next_public_key(1), Weight::from_parts(2_358_378_000 + 200_000_000, 0));
    assert_eq!(w.submit_misbehaviour_reports(0), Weight::from_parts(400_000_000, 0));
    assert_eq!(w.set_refresh_delay(7), Weight::from_parts(102_110_000, 0));
    assert_eq!(w.manual_refresh(), Weight::from_parts(30_000_000 + 75_000_000 + 400_000_000, 0));
    assert_eq!(().submit_public_key(5), Weight::zero());
    assert_eq!(().unjail(), Weight::zero());
}

#[test]
fn dkg_proposal_handler_weights() {
    assert_eq!(().submit_signed_proposals(3), Weight::from_parts(1_110_425_380, 68_598));
    assert_eq!(().submit_signed_proposals(0), Weight::from_parts(163_155_265, 1017));
    assert_eq!(().force_submit_unsigned_proposal(), Weight::from_parts(112_000_000, 0));
    let w = HandlerWeight { db: RuntimeDbWeight { read: 0, write: 0 } };
    assert_eq!(w.submit_signed_proposals(1), Weight::from_parts(128_911_970, 23_544));
}

#[test]
fn dkg_proposals_weights() {
    let w = ProposalsWeight { db: RuntimeDbWeight { read: 1, write: 1000 } };
    assert_eq!(w.acknowledge_proposal(4), Weight::from_parts(27_982_006, 0));
    assert_eq!(w.add_proposer(), Weight::from_parts(12_002_002, 0));
    assert_eq!(().eval_vote_state(1), Weight::zero());
}
