use dkg::handlers::add_token_to_pool_share;
use dkg::handlers::evm_tx::{self, recovery_signature, EvmTxFields, EvmTxKind};
use dkg::handlers::ValidationError;
use dkg::metadata::RoundMetadata;
use dkg::offline::{
    offline_decode_error, offline_handling_outcome, offline_message_is_for_party,
    offline_stage_progress, outgoing_offline_messages, proceed_error_to_dkg_error,
    screen_offline_message, vec_usize_to_u16, DKGError, DKGOfflineMessage, OfflineProceedError,
    PreOfflineRounds,
};
use dkg::proposal_votes::{ProposalStatus, ProposalVotes};
use dkg::utils::{
    find_authorities_change, find_index, find_mmr_root_digest, is_next_authorities_or_rounds_empty,
    is_queued_authorities_or_rounds_empty, match_consensus_log, set_up_rounds, validate_threshold,
    AuthoritySet, ConsensusLog,
};

#[test]
fn find_index_returns_first_match() {
    assert_eq!(find_index(&[3, 5, 7, 5], &5), Some(1));
    assert_eq!(find_index(&[3, 5, 7], &4), None);
    assert_eq!(find_index::<u8>(&[], &4), None);
}

#[test]
fn validate_threshold_clamps() {
    assert_eq!(validate_threshold(5, 3), 3);
    assert_eq!(validate_threshold(5, 4), 4);
    assert_eq!(validate_threshold(5, 5), 4);
    assert_eq!(validate_threshold(5, 0), 4);
    assert_eq!(validate_threshold(1, 0), 0);
}

#[test]
fn set_up_rounds_computes_parameters() {
    let set = AuthoritySet { authorities: vec![10u64, 20, 30], id: 7 };
    let reps = vec![(30u64, 5i64), (10, -2)];
    let r = set_up_rounds(&set, &20, 2, Some("keys/local".to_string()), &reps);
    assert_eq!(r.round_id, 7);
    assert_eq!(r.party_index, 2);
    assert_eq!(r.parties, 3);
    assert_eq!(r.threshold, 2);
    assert_eq!(r.reputations, vec![-2, 0, 5]);
    assert_eq!(r.authorities, vec![10, 20, 30]);
    assert_eq!(r.local_key_path.as_deref(), Some("keys/local"));
}

fn change(id: u64) -> ConsensusLog<u64> {
    ConsensusLog::AuthoritiesChange {
        next_authorities: AuthoritySet { authorities: vec![1, 2], id },
        next_queued_authorities: AuthoritySet { authorities: vec![3], id: id + 1 },
    }
}

#[test]
fn consensus_log_matching() {
    let (a, q) = match_consensus_log(change(4)).unwrap();
    assert_eq!(a.id, 4);
    assert_eq!(q.authorities, vec![3]);
    assert!(match_consensus_log(ConsensusLog::<u64>::OnDisabled(1)).is_none());
    assert!(match_consensus_log(ConsensusLog::<u64>::MmrRoot([0; 32])).is_none());
}

#[test]
fn digest_scans_take_first_match() {
    let logs = vec![None, Some(ConsensusLog::<u64>::OnDisabled(1)), Some(ConsensusLog::MmrRoot([1; 32])), Some(ConsensusLog::MmrRoot([2; 32]))];
    assert_eq!(find_mmr_root_digest(&logs), Some([1; 32]));
    assert_eq!(find_mmr_root_digest::<u64>(&vec![None]), None);
    let logs = vec![Some(ConsensusLog::MmrRoot([1; 32])), Some(change(8)), Some(change(9))];
    let (a, _) = find_authorities_change(logs).unwrap();
    assert_eq!(a.id, 8);
    assert!(find_authorities_change::<u64>(vec![None, Some(ConsensusLog::OnDisabled(0))]).is_none());
}

#[test]
fn authority_set_emptiness_checks() {
    let empty = AuthoritySet::<u64> { authorities: vec![], id: 3 };
    let full = AuthoritySet::<u64> { authorities: vec![1], id: 3 };
    assert!(is_next_authorities_or_rounds_empty(None, &empty));
    assert!(is_next_authorities_or_rounds_empty(Some(3), &full));
    assert!(!is_next_authorities_or_rounds_empty(Some(2), &full));
    assert!(!is_next_authorities_or_rounds_empty(None, &full));
    assert!(is_queued_authorities_or_rounds_empty(Some(3), &full));
    assert!(!is_queued_authorities_or_rounds_empty(None, &full));
    assert!(is_queued_authorities_or_rounds_empty(Some(9), &empty));
}

fn votes(for_: usize, against: usize) -> ProposalVotes<u32, u64> {
    ProposalVotes {
        votes_for: (0..for_ as u32).collect(),
        votes_against: (100..100 + against as u32).collect(),
        status: ProposalStatus::Initiated,
        expiry: 10,
    }
}

#[test]
fn votes_approve_at_threshold() {
    let mut v = votes(2, 0);
    assert_eq!(v.try_to_complete(2, 5), ProposalStatus::Approved);
    assert_eq!(v.status, ProposalStatus::Approved);
    assert!(v.is_complete());
}

#[test]
fn votes_reject_when_threshold_unreachable() {
    let mut v = votes(1, 3);
    // 3 against + threshold 3 > 5 proposers: approval is out of reach.
    assert_eq!(v.try_to_complete(3, 5), ProposalStatus::Rejected);
    assert_eq!(v.status, ProposalStatus::Rejected);
    let mut w = votes(1, 2);
    assert_eq!(w.try_to_complete(3, 5), ProposalStatus::Initiated);
    assert_eq!(w.status, ProposalStatus::Initiated);
    assert!(!w.is_complete());
    // Fewer proposers than the threshold: never rejected.
    let mut x = votes(0, 3);
    assert_eq!(x.try_to_complete(4, 3), ProposalStatus::Initiated);
}

#[test]
fn settled_votes_stay_settled() {
    let mut v = votes(0, 0);
    v.status = ProposalStatus::Approved;
    assert_eq!(v.try_to_complete(3, 5), ProposalStatus::Initiated);
    assert_eq!(v.status, ProposalStatus::Approved);
}

#[test]
fn votes_voters_and_expiry() {
    let v = votes(2, 1);
    assert!(v.has_voted(&1));
    assert!(v.has_voted(&100));
    assert!(!v.has_voted(&50));
    assert!(v.is_expired(10));
    assert!(v.is_expired(11));
    assert!(!v.is_expired(9));
    let d: ProposalVotes<u32, u64> = Default::default();
    assert_eq!(d.status, ProposalStatus::Initiated);
    assert_eq!(d.expiry, 0);
    assert!(d.votes_for.is_empty() && d.votes_against.is_empty());
}

fn msg(key: u8, set: u64, payload: Vec<u8>) -> DKGOfflineMessage {
    DKGOfflineMessage { key: vec![key], signer_set_id: set, offline_msg: payload }
}

#[test]
fn pre_offline_rounds_buffer_in_order() {
    let mut pre = PreOfflineRounds::new(4);
    assert!(pre.handle_incoming(msg(1, 4, vec![1])).is_ok());
    assert!(pre.handle_incoming(msg(2, 4, vec![2])).is_ok());
    assert!(pre.is_finished());
    let msgs = pre.try_finish().ok().unwrap();
    assert_eq!(msgs.len(), 2);
    assert_eq!(msgs[0].key, vec![1]);
    assert_eq!(msgs[1].key, vec![2]);
}

#[test]
fn proceed_errors_are_classified() {
    match proceed_error_to_dkg_error(OfflineProceedError::Round3 { bad_actors: vec![1, 4] }) {
        DKGError::OfflineMisbehaviour { bad_actors } => assert_eq!(bad_actors, vec![1, 4]),
        _ => panic!("expected misbehaviour"),
    }
    match proceed_error_to_dkg_error(OfflineProceedError::Other { reason: "boom".to_string() }) {
        DKGError::GenericError { reason } => assert_eq!(reason, "boom"),
        _ => panic!("expected generic error"),
    }
    assert_eq!(vec_usize_to_u16(&vec![1, 65536 + 2]), vec![1, 2]);
}

#[test]
fn offline_progress_and_timeout() {
    assert!(matches!(offline_stage_progress(true, 0, None, 10, vec![]), Ok(true)));
    assert!(matches!(offline_stage_progress(false, 15, Some(10), 10, vec![2]), Ok(false)));
    match offline_stage_progress(false, 21, Some(10), 10, vec![2, 3]) {
        Err(DKGError::OfflineTimeout { bad_actors }) => assert_eq!(bad_actors, vec![2, 3]),
        _ => panic!("expected timeout"),
    }
    // Past the timeout but nobody to blame.
    assert!(matches!(offline_stage_progress(false, 21, Some(10), 10, vec![]), Ok(false)));
    assert!(matches!(offline_stage_progress(false, 11, None, 10, vec![1]), Err(DKGError::OfflineTimeout { .. })));
}

#[test]
fn outgoing_messages_carry_key_and_set() {
    let out = outgoing_offline_messages(&vec![9, 9], 3, vec![vec![1], vec![2, 2]]);
    assert_eq!(out.len(), 2);
    assert_eq!(out[0].key, vec![9, 9]);
    assert_eq!(out[1].signer_set_id, 3);
    assert_eq!(out[1].offline_msg, vec![2, 2]);
}

#[test]
fn incoming_offline_messages_are_screened() {
    match screen_offline_message(&msg(1, 5, vec![1]), 4, true) {
        Err(DKGError::GenericError { reason }) => assert_eq!(reason, "Signer set ids do not match"),
        _ => panic!("expected mismatch"),
    }
    assert!(matches!(screen_offline_message(&msg(1, 4, vec![1]), 4, false), Ok(false)));
    assert!(matches!(screen_offline_message(&msg(1, 4, vec![]), 4, true), Ok(false)));
    assert!(matches!(screen_offline_message(&msg(1, 4, vec![1]), 4, true), Ok(true)));
    match offline_decode_error() {
        DKGError::GenericError { reason } => assert_eq!(reason, "Error deserializing offline msg"),
        _ => panic!("expected generic error"),
    }
    assert!(offline_message_is_for_party(2, 1, None));
    assert!(!offline_message_is_for_party(2, 2, None));
    assert!(offline_message_is_for_party(2, 1, Some(2)));
    assert!(!offline_message_is_for_party(2, 1, Some(3)));
    match offline_handling_outcome(Some(true)) {
        Err(DKGError::CriticalError { reason }) => assert_eq!(reason, "Offline critical error encountered"),
        _ => panic!("expected critical error"),
    }
    assert!(offline_handling_outcome(Some(false)).is_ok());
    assert!(offline_handling_outcome(None).is_ok());
}

fn invalid(r: Result<impl Sized, ValidationError>) -> String {
    match r {
        Err(ValidationError::InvalidParameter(s)) => s,
        Err(ValidationError::InvalidProposalBytesLength) => "too short".to_string(),
        Ok(_) => panic!("expected an error"),
    }
}

fn u256_le(v: u64, high: u64) -> Vec<u8> {
    let mut out = Vec::new();
    out.extend_from_slice(&v.to_le_bytes());
    out.extend_from_slice(&high.to_le_bytes());
    out.extend_from_slice(&[0u8; 16]);
    out
}

/// SCALE encoding of an EIP-2930 transaction wrapped in `TransactionV2`.
fn eip2930_bytes(chain_id: u64, nonce: u64, nonce_high: u64) -> Vec<u8> {
    let mut out = vec![1u8];
    out.extend_from_slice(&chain_id.to_le_bytes());
    out.extend(u256_le(nonce, nonce_high));
    out.extend(u256_le(1, 0));
    out.extend(u256_le(21000, 0));
    out.push(1); // action: create
    out.extend(u256_le(0, 0));
    out.push(0); // empty input
    out.push(0); // empty access list
    out.push(0); // even y parity
    out.extend_from_slice(&[1u8; 32]);
    out.extend_from_slice(&[2u8; 32]);
    out
}

#[test]
fn evm_proposal_decodes_chain_and_nonce() {
    let p = evm_tx::create(&eip2930_bytes(5, 7, 0)).ok().unwrap();
    assert_eq!(p.chain_id, 5);
    assert_eq!(p.nonce, 7);
}

#[test]
fn evm_proposal_errors() {
    assert_eq!(invalid(evm_tx::create(&[9, 9, 9])), "Invalid transaction");
    assert_eq!(invalid(evm_tx::create(&eip2930_bytes(1 << 40, 7, 0))), "Invalid chain id (could not fit into u32)");
}

#[test]
fn evm_proposal_with_oversized_nonce_is_not_created() {
    assert!(evm_tx::try_create(&eip2930_bytes(5, 7, 1)).is_none());
    // A chain id that does not fit is reported before the nonce is read.
    let r = evm_tx::try_create(&eip2930_bytes(1 << 40, 7, 1)).unwrap();
    assert_eq!(invalid(r), "Invalid chain id (could not fit into u32)");
    let p = evm_tx::try_create(&eip2930_bytes(5, 7, 0)).unwrap().ok().unwrap();
    assert_eq!((p.chain_id, p.nonce), (5, 7));
}

#[test]
fn evm_transaction_fields() {
    let legacy = EvmTxFields { kind: EvmTxKind::Legacy, nonce: [9, 0, 0, 0] };
    assert!(matches!(evm_tx::decode_evm_transaction(&legacy), Ok((0, 9))));
    let typed = EvmTxFields { kind: EvmTxKind::EIP1559 { chain_id: 42 }, nonce: [3, 0, 0, 0] };
    assert!(matches!(evm_tx::decode_evm_transaction(&typed), Ok((42, 3))));
    assert!(evm_tx::validate_ethereum_tx(&typed));
    let wide = EvmTxFields { kind: EvmTxKind::EIP2930 { chain_id: 1 << 40 }, nonce: [1, 0, 0, 0] };
    assert_eq!(invalid(evm_tx::decode_evm_transaction(&wide)), "Invalid chain id (could not fit into u32)");
}

#[test]
fn recovery_signature_layout() {
    let sig = recovery_signature(&[1u8; 32], &[2u8; 32], 1);
    assert_eq!(&sig[0..32], &[1u8; 32]);
    assert_eq!(&sig[32..64], &[2u8; 32]);
    assert_eq!(sig[64], 1);
}

#[test]
fn add_token_proposal_decodes() {
    let mut data = vec![3u8; 32];
    data.extend_from_slice(&[0, 0, 0, 0]);
    data.extend_from_slice(&[0, 0, 1, 2]);
    data.extend_from_slice(&[8, 9]);
    let p = add_token_to_pool_share::create(&data).ok().unwrap();
    assert_eq!(p.header.resource_id.0, [3u8; 32]);
    assert_eq!(p.header.nonce, 258);
    assert_eq!(p.header.function_signature, [0, 0, 0, 0]);
    assert_eq!(p.encoded_call, vec![8, 9]);
    let mut bad = vec![3u8; 32];
    bad.extend_from_slice(&[0, 0, 0, 1, 0, 0, 0, 0]);
    assert_eq!(invalid(add_token_to_pool_share::create(&bad)), "Function Sig should be zero");
    assert_eq!(add_token_to_pool_share::u32_from_be_bytes([1, 2, 3, 4]), 0x01020304);
}

#[test]
fn add_token_proposal_shorter_than_header_is_refused() {
    let short = vec![0u8; 39];
    assert!(matches!(
        add_token_to_pool_share::create(&short),
        Err(ValidationError::InvalidProposalBytesLength)
    ));
    assert!(matches!(add_token_to_pool_share::create(&[]), Err(ValidationError::InvalidProposalBytesLength)));
}

#[test]
fn round_metadata_default_is_empty() {
    let m = RoundMetadata::default();
    assert!(m.curr_round_pub_key.is_empty());
    assert!(m.next_round_pub_key.is_empty());
    assert!(m.refresh_signature.is_empty());
}
