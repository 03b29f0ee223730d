use dkg::block_signing::{on_block_finalized_step, BatchInfo, BlockSigning, SigningAction, SigningEvent};
use dkg::offline::DKGError;
use dkg::signing::signing_seed;
use dkg::work_manager::WorkManager;

fn batch(timestamp: u64, hash: Option<u8>, encoded: Vec<u8>) -> BatchInfo {
    BatchInfo { timestamp, hash: hash.map(|b| [b; 32]), encoded, first_chain_id_none: false }
}

fn step(state: BlockSigning, event: SigningEvent, wm: &WorkManager) -> (BlockSigning, SigningAction) {
    on_block_finalized_step(state, event, wm)
}

fn finished_ok(a: &SigningAction) -> bool {
    matches!(a, SigningAction::Finish(Ok(())))
}

/// Runs the steps up to the read of the batches, with party 1 and DKG key [7, 7].
fn up_to_batches(wm: &WorkManager) -> BlockSigning {
    let (s, a) = step(BlockSigning::Idle, SigningEvent::Begin { locked: false, block_number: 42 }, wm);
    assert!(matches!(a, SigningAction::FetchDkgKey));
    let (s, a) = step(s, SigningEvent::DkgKey { session_id: 9, dkg_pub_key: vec![7, 7] }, wm);
    assert!(matches!(a, SigningAction::FetchPartyIndex));
    let (s, a) = step(s, SigningEvent::PartyIndex(Some(Ok(1))), wm);
    assert!(matches!(a, SigningAction::FetchBatches));
    s
}

#[test]
fn locked_block_is_skipped() {
    let wm = WorkManager::new(4);
    let (s, a) = step(BlockSigning::Idle, SigningEvent::Begin { locked: true, block_number: 42 }, &wm);
    assert!(matches!(s, BlockSigning::Done));
    assert!(finished_ok(&a));
}

#[test]
fn non_signer_stops_and_bad_party_id_fails() {
    let wm = WorkManager::new(4);
    let (s, _) = step(BlockSigning::Idle, SigningEvent::Begin { locked: false, block_number: 42 }, &wm);
    let (s, _) = step(s, SigningEvent::DkgKey { session_id: 1, dkg_pub_key: vec![] }, &wm);
    let (_, a) = step(s, SigningEvent::PartyIndex(None), &wm);
    assert!(finished_ok(&a));
    let s = BlockSigning::AwaitPartyIndex { block_number: 42, session_id: 1, dkg_pub_key: vec![] };
    let err = DKGError::GenericError { reason: "bad id".to_string() };
    let (_, a) = step(s, SigningEvent::PartyIndex(Some(Err(err))), &wm);
    assert!(matches!(a, SigningAction::Finish(Err(DKGError::GenericError { ref reason })) if reason == "bad id"));
}

#[test]
fn failing_batch_read_is_reported() {
    let wm = WorkManager::new(4);
    let s = up_to_batches(&wm);
    let (s, a) = step(s, SigningEvent::Batches(Err("boom".to_string())), &wm);
    assert!(matches!(s, BlockSigning::Done));
    match a {
        SigningAction::Finish(Err(DKGError::GenericError { reason })) => {
            assert_eq!(reason, "Failed to get unsigned proposals: boom")
        },
        _ => panic!("expected the read error"),
    }
}

#[test]
fn nothing_to_sign_finishes() {
    let mut wm = WorkManager::new(4);
    wm.push_task([1; 32]);
    let s = up_to_batches(&wm);
    let batches = vec![batch(1, None, vec![]), batch(2, Some(1), vec![])];
    let (s, a) = step(s, SigningEvent::Batches(Ok(batches)), &wm);
    assert!(matches!(s, BlockSigning::Done));
    assert!(finished_ok(&a));
}

#[test]
fn batches_are_signed_oldest_first() {
    let wm = WorkManager::new(4);
    let s = up_to_batches(&wm);
    let mut rotation = batch(20, Some(1), vec![0xa]);
    rotation.first_chain_id_none = true;
    let batches = vec![rotation, batch(10, Some(2), vec![0xb]), batch(5, None, vec![0xc])];
    let (s, a) = step(s, SigningEvent::Batches(Ok(batches)), &wm);
    assert!(matches!(a, SigningAction::FetchSigningContext));
    assert_eq!(s.context().unwrap().order, vec![1, 0]);
    let (s, a) = step(s, SigningEvent::SigningContextRead, &wm);
    assert!(matches!(a, SigningAction::CheckCapacity));
    // Batch 1: one draw, seeded with the key, the block and the batch digest.
    let (s, a) = step(s, SigningEvent::Capacity { can_submit_more_tasks: true }, &wm);
    match &a {
        SigningAction::DrawSigningSets { draws } => {
            assert_eq!(draws, &vec![(0, signing_seed(&[7, 7], 42, &[0xb]))]);
        },
        _ => panic!("expected draws"),
    }
    let (s, a) = step(s, SigningEvent::Draws { selected: vec![Some(vec![2, 1])] }, &wm);
    match &a {
        SigningAction::StartSigning { batch, hash, ssid, signers, block_number, force_start } => {
            assert_eq!((*batch, *hash, *ssid), (1, [2; 32], 0));
            assert_eq!(signers, &vec![1, 2]);
            assert_eq!((*block_number, *force_start), (42, false));
        },
        _ => panic!("expected a job"),
    }
    // One job per batch: the next batch follows.
    let (s, a) = step(s, SigningEvent::JobQueued(Ok(())), &wm);
    assert!(matches!(a, SigningAction::CheckCapacity));

    // Batch 0, the session rotation batch.
    let (s, a) = step(s, SigningEvent::Capacity { can_submit_more_tasks: true }, &wm);
    match &a {
        SigningAction::DrawSigningSets { draws } => {
            assert_eq!(draws, &vec![(0, signing_seed(&[7, 7], 42, &[0xa]))]);
        },
        _ => panic!("expected draws"),
    }
    let (s, a) = step(s, SigningEvent::Draws { selected: vec![Some(vec![4, 1])] }, &wm);
    match &a {
        SigningAction::StartSigning { batch, hash, ssid, signers, block_number, force_start } => {
            assert_eq!((*batch, *hash, *ssid), (0, [1; 32], 0));
            assert_eq!(signers, &vec![1, 4]);
            assert_eq!((*block_number, *force_start), (42, true));
        },
        _ => panic!("expected a job"),
    }

    // The protocol cannot be set up: the error is reported, then returned.
    let err = DKGError::CriticalError { reason: "no protocol".to_string() };
    let (s, a) = step(s, SigningEvent::ProtocolFailed(err), &wm);
    assert!(matches!(a, SigningAction::ReportError(DKGError::CriticalError { ref reason }) if reason == "no protocol"));
    let (s, a) = step(s, SigningEvent::ErrorReported, &wm);
    assert!(matches!(s, BlockSigning::Done));
    assert!(matches!(a, SigningAction::Finish(Err(DKGError::CriticalError { .. }))));
}

#[test]
fn batch_without_local_party_is_passed_over() {
    let wm = WorkManager::new(4);
    let s = up_to_batches(&wm);
    let (s, _) = step(s, SigningEvent::Batches(Ok(vec![batch(1, Some(5), vec![])])), &wm);
    let (s, _) = step(s, SigningEvent::SigningContextRead, &wm);
    let (s, _) = step(s, SigningEvent::Capacity { can_submit_more_tasks: true }, &wm);
    let (s, a) = step(s, SigningEvent::Draws { selected: vec![Some(vec![2, 3])] }, &wm);
    assert!(matches!(s, BlockSigning::Done));
    assert!(finished_ok(&a));
}

#[test]
fn full_work_manager_stops_scheduling() {
    let wm = WorkManager::new(4);
    let s = up_to_batches(&wm);
    let batches = vec![batch(1, Some(5), vec![]), batch(2, Some(6), vec![])];
    let (s, _) = step(s, SigningEvent::Batches(Ok(batches)), &wm);
    let (s, a) = step(s, SigningEvent::SigningContextRead, &wm);
    assert!(matches!(a, SigningAction::CheckCapacity));
    let (s, a) = step(s, SigningEvent::Capacity { can_submit_more_tasks: false }, &wm);
    assert!(matches!(s, BlockSigning::Done));
    assert!(finished_ok(&a));
}
