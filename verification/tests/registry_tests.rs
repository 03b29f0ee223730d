use dkg::bridge_registry::{
    BridgeInfo, BridgeMetadata, Config, DispatchError, Error, GenesisConfig, Pallet,
};
use dkg::proposal::{Proposal, ProposalKind, ResourceId};

fn rid(b: u8) -> ResourceId {
    let mut bytes = [0u8; 32];
    bytes[31] = b;
    bytes[0] = 0xaa;
    ResourceId(bytes)
}

fn config() -> Config {
    Config { max_additional_fields: 2, max_resources: 3 }
}

/// Anchor-update payload: a 40-byte header (whose first 32 bytes are the
/// target resource id), a 32-byte merkle root, then the source resource id.
fn anchor_update_data(target: ResourceId, src: ResourceId) -> Vec<u8> {
    let mut data = Vec::new();
    data.extend_from_slice(&target.0);
    data.extend_from_slice(&[0xca, 0xfe, 0xba, 0xbe, 0, 0, 0, 1]);
    data.extend_from_slice(&[7u8; 32]);
    data.extend_from_slice(&src.0);
    assert_eq!(data.len(), 104);
    data
}

fn signed_anchor_update(target: ResourceId, src: ResourceId) -> Proposal {
    Proposal::Signed {
        kind: ProposalKind::AnchorUpdate,
        data: anchor_update_data(target, src),
        signature: vec![1, 2, 3],
    }
}

fn genesis_pallet() -> Pallet {
    GenesisConfig { bridges: vec![] }.build(config())
}

fn info(fields: usize) -> BridgeInfo {
    let mut additional = Vec::new();
    for i in 0..fields {
        additional.push((vec![i as u8], vec![i as u8]));
    }
    BridgeInfo { additional, display: vec![9] }
}

#[test]
fn new_registry_is_empty() {
    let p = Pallet::new(config());
    assert_eq!(p.next_bridge_index(), 0);
    assert_eq!(p.resource_to_bridge_index(&rid(1)), 0);
    assert!(!p.bridge_exists(0));
}

#[test]
fn genesis_numbers_bridges_from_one() {
    let b1 = BridgeMetadata { resource_ids: vec![rid(1), rid(2)], info: BridgeInfo::empty() };
    let b2 = BridgeMetadata { resource_ids: vec![rid(2), rid(3)], info: info(1) };
    let p = GenesisConfig { bridges: vec![b1, b2] }.build(config());
    assert_eq!(p.next_bridge_index(), 3);
    assert_eq!(p.resource_to_bridge_index(&rid(1)), 1);
    // A later bridge wins for a resource that two bridges list.
    assert_eq!(p.resource_to_bridge_index(&rid(2)), 2);
    assert_eq!(p.resource_to_bridge_index(&rid(3)), 2);
    assert_eq!(p.resource_to_bridge_index(&rid(4)), 0);
    assert_eq!(p.bridges(1).unwrap().resource_ids.len(), 2);
    assert_eq!(p.bridges(2).unwrap().info.additional.len(), 1);
    assert!(p.bridges(3).is_none());
}

#[test]
fn unsigned_proposal_is_refused() {
    let mut p = genesis_pallet();
    let proposal = Proposal::Unsigned {
        kind: ProposalKind::AnchorUpdate,
        data: anchor_update_data(rid(1), rid(2)),
    };
    assert_eq!(p.on_signed_proposal(&proposal), Err(DispatchError::Module(Error::ProposalNotSigned)));
    assert_eq!(p.next_bridge_index(), 1);
    assert_eq!(p.resource_to_bridge_index(&rid(1)), 0);
}

#[test]
fn other_kinds_change_nothing() {
    let mut p = genesis_pallet();
    let proposal = Proposal::Signed { kind: ProposalKind::TokenAdd, data: vec![1, 2], signature: vec![] };
    assert_eq!(p.on_signed_proposal(&proposal), Ok(()));
    assert_eq!(p.next_bridge_index(), 1);
    assert!(!p.bridge_exists(1));
}

#[test]
fn first_link_creates_a_bridge() {
    let mut p = genesis_pallet();
    assert_eq!(p.on_signed_proposal(&signed_anchor_update(rid(1), rid(2))), Ok(()));
    assert_eq!(p.next_bridge_index(), 2);
    assert_eq!(p.resource_to_bridge_index(&rid(1)), 1);
    assert_eq!(p.resource_to_bridge_index(&rid(2)), 1);
    let bridge = p.bridges(1).unwrap();
    // The source resource comes first, then the target.
    assert_eq!(bridge.resource_ids[0].0, rid(2).0);
    assert_eq!(bridge.resource_ids[1].0, rid(1).0);
    assert_eq!(bridge.info.additional.len(), 0);
}

#[test]
fn second_link_joins_the_bridge() {
    let mut p = genesis_pallet();
    assert_eq!(p.on_signed_proposal(&signed_anchor_update(rid(1), rid(2))), Ok(()));
    assert_eq!(p.on_signed_proposal(&signed_anchor_update(rid(3), rid(2))), Ok(()));
    assert_eq!(p.resource_to_bridge_index(&rid(3)), 1);
    assert_eq!(p.next_bridge_index(), 2);
    assert_eq!(p.bridges(1).unwrap().resource_ids.len(), 3);
    assert_eq!(p.bridges(1).unwrap().resource_ids[2].0, rid(3).0);
}

#[test]
fn relinking_is_idempotent() {
    let mut p = genesis_pallet();
    assert_eq!(p.on_signed_proposal(&signed_anchor_update(rid(1), rid(2))), Ok(()));
    assert_eq!(p.on_signed_proposal(&signed_anchor_update(rid(1), rid(2))), Ok(()));
    assert_eq!(p.next_bridge_index(), 2);
    assert_eq!(p.bridges(1).unwrap().resource_ids.len(), 2);
}

#[test]
fn linking_two_bridges_is_refused() {
    let mut p = genesis_pallet();
    assert_eq!(p.on_signed_proposal(&signed_anchor_update(rid(1), rid(2))), Ok(()));
    assert_eq!(p.on_signed_proposal(&signed_anchor_update(rid(3), rid(4))), Ok(()));
    assert_eq!(
        p.on_signed_proposal(&signed_anchor_update(rid(1), rid(3))),
        Err(DispatchError::Module(Error::BridgeIndexError))
    );
    assert_eq!(p.resource_to_bridge_index(&rid(1)), 1);
    assert_eq!(p.resource_to_bridge_index(&rid(3)), 2);
}

#[test]
fn full_bridge_is_refused() {
    let mut p = GenesisConfig { bridges: vec![] }.build(Config { max_additional_fields: 2, max_resources: 2 });
    assert_eq!(p.on_signed_proposal(&signed_anchor_update(rid(1), rid(2))), Ok(()));
    assert_eq!(
        p.on_signed_proposal(&signed_anchor_update(rid(3), rid(2))),
        Err(DispatchError::Module(Error::TooManyResources))
    );
    // A refused proposal leaves the registry as it was.
    assert_eq!(p.resource_to_bridge_index(&rid(3)), 0);
    assert_eq!(p.bridges(1).unwrap().resource_ids.len(), 2);
}

#[test]
fn tiny_bound_refuses_new_bridge() {
    let mut p = GenesisConfig { bridges: vec![] }.build(Config { max_additional_fields: 2, max_resources: 1 });
    assert_eq!(
        p.on_signed_proposal(&signed_anchor_update(rid(1), rid(2))),
        Err(DispatchError::Module(Error::OutOfBounds))
    );
    assert_eq!(p.next_bridge_index(), 1);
    assert_eq!(p.resource_to_bridge_index(&rid(1)), 0);
}

#[test]
fn missing_bridge_is_refused() {
    let mut p = genesis_pallet();
    assert_eq!(p.force_reset_indices(true, vec![rid(1)], 5), Ok(()));
    assert_eq!(
        p.on_signed_proposal(&signed_anchor_update(rid(1), rid(2))),
        Err(DispatchError::Module(Error::BridgeNotFound))
    );
    assert_eq!(p.resource_to_bridge_index(&rid(2)), 0);
}

#[test]
fn set_metadata_checks_origin_and_fields() {
    let mut p = genesis_pallet();
    assert_eq!(p.set_metadata(false, 1, info(0)), Err(DispatchError::BadOrigin));
    assert_eq!(p.set_metadata(true, 1, info(3)), Err(DispatchError::Module(Error::TooManyFields)));
    assert!(!p.bridge_exists(1));
    assert_eq!(p.set_metadata(true, 1, info(2)), Ok(()));
    assert_eq!(p.bridges(1).unwrap().info.additional.len(), 2);
    assert_eq!(p.bridges(1).unwrap().resource_ids.len(), 0);
}

#[test]
fn set_metadata_keeps_resources() {
    let mut p = genesis_pallet();
    assert_eq!(p.on_signed_proposal(&signed_anchor_update(rid(1), rid(2))), Ok(()));
    assert_eq!(p.set_metadata(true, 1, info(1)), Ok(()));
    let bridge = p.bridges(1).unwrap();
    assert_eq!(bridge.resource_ids.len(), 2);
    assert_eq!(bridge.info.additional.len(), 1);
    assert_eq!(bridge.info.display, vec![9]);
}

#[test]
fn force_reset_indices_writes_every_resource() {
    let mut p = genesis_pallet();
    assert_eq!(p.force_reset_indices(false, vec![rid(1)], 4), Err(DispatchError::BadOrigin));
    assert_eq!(
        p.force_reset_indices(true, vec![rid(1), rid(2), rid(3), rid(4)], 4),
        Err(DispatchError::Module(Error::TooManyResources))
    );
    assert_eq!(p.resource_to_bridge_index(&rid(1)), 0);
    assert_eq!(p.force_reset_indices(true, vec![rid(1), rid(2)], 4), Ok(()));
    assert_eq!(p.resource_to_bridge_index(&rid(1)), 4);
    assert_eq!(p.resource_to_bridge_index(&rid(2)), 4);
    assert_eq!(p.resource_to_bridge_index(&rid(3)), 0);
    assert_eq!(p.force_reset_indices(true, vec![rid(2)], 7), Ok(()));
    assert_eq!(p.resource_to_bridge_index(&rid(1)), 4);
    assert_eq!(p.resource_to_bridge_index(&rid(2)), 7);
}

#[test]
fn creates_new_bridge_only_for_two_unlinked_resources() {
    let mut p = genesis_pallet();
    assert!(p.creates_new_bridge(&anchor_update_data(rid(1), rid(2))));
    assert_eq!(p.on_signed_proposal(&signed_anchor_update(rid(1), rid(2))), Ok(()));
    // One of the two resources now has a bridge.
    assert!(!p.creates_new_bridge(&anchor_update_data(rid(3), rid(2))));
    assert!(p.creates_new_bridge(&anchor_update_data(rid(3), rid(4))));
    let small = GenesisConfig { bridges: vec![] }.build(Config { max_additional_fields: 2, max_resources: 1 });
    assert!(!small.creates_new_bridge(&anchor_update_data(rid(3), rid(4))));
}

#[test]
fn bridge_records_map_back_to_their_bridge() {
    let mut p = genesis_pallet();
    assert_eq!(p.on_signed_proposal(&signed_anchor_update(rid(1), rid(2))), Ok(()));
    assert_eq!(p.on_signed_proposal(&signed_anchor_update(rid(3), rid(2))), Ok(()));
    assert_eq!(p.on_signed_proposal(&signed_anchor_update(rid(5), rid(4))), Ok(()));
    assert_eq!(p.set_metadata(true, 1, info(1)), Ok(()));
    for index in 1..p.next_bridge_index() {
        for r in &p.bridges(index).unwrap().resource_ids {
            assert_eq!(p.resource_to_bridge_index(r), index);
        }
    }
    assert_eq!(p.bridges(1).unwrap().resource_ids.len(), 3);
    assert_eq!(p.bridges(2).unwrap().resource_ids.len(), 2);
}
