use dkg::signing::{
    batch_signing_sets, maybe_add_signing_set, select_unsigned_proposals, signer_candidates, signing_seed,
    signing_seed_preimage, signing_set_plan, unique_signing_sets, ProposedSigningSet,
};
use dkg::work_manager::WorkManager;
use std::hash::{Hash, Hasher};

fn digest(set: &ProposedSigningSet) -> u64 {
    let mut state = std::collections::hash_map::DefaultHasher::new();
    set.hash(&mut state);
    state.finish()
}

fn h(b: u8) -> [u8; 32] {
    [b; 32]
}

#[test]
fn ordered_vec_is_sorted_and_deduplicated() {
    let set = ProposedSigningSet::from_signers(3, &vec![5, 1, 9, 1, 4]);
    assert_eq!(set.ssid, 3);
    assert_eq!(set.into_ordered_vec(), vec![1, 4, 5, 9]);
}

#[test]
fn ordered_vec_of_empty_set() {
    let set = ProposedSigningSet::from_signers(0, &vec![]);
    assert_eq!(set.into_ordered_vec(), Vec::<u16>::new());
}

#[test]
fn equality_ignores_ssid_and_order() {
    let a = ProposedSigningSet::from_signers(0, &vec![1, 2, 3]);
    let b = ProposedSigningSet::from_signers(1, &vec![3, 2, 1]);
    let c = ProposedSigningSet::from_signers(0, &vec![1, 2]);
    assert!(a.same_signing_set(&b));
    assert!(a == b);
    assert!(!a.same_signing_set(&c));
    assert!(a != c);
    assert!(c != a);
}

#[test]
fn unique_keeps_first_of_each_set() {
    let sets = vec![
        ProposedSigningSet::from_signers(0, &vec![1, 2]),
        ProposedSigningSet::from_signers(1, &vec![2, 1]),
        ProposedSigningSet::from_signers(2, &vec![3]),
        ProposedSigningSet::from_signers(3, &vec![3]),
    ];
    let unique = unique_signing_sets(sets);
    assert_eq!(unique.len(), 2);
    assert_eq!(unique[0].ssid, 0);
    assert_eq!(unique[1].ssid, 2);
}

#[test]
fn candidates_top_up_with_jailed() {
    // Two unjailed signers, threshold 3: two jailed signers are added to reach t + 1 = 4.
    assert_eq!(signer_candidates(&vec![1, 2], &vec![7, 8, 9], 3), vec![1, 2, 7, 8]);
    // Not enough jailed signers: all of them are added.
    assert_eq!(signer_candidates(&vec![1], &vec![7], 3), vec![1, 7]);
    // More than t unjailed signers: nothing is added.
    assert_eq!(signer_candidates(&vec![1, 2, 3], &vec![7], 1), vec![1, 2, 3]);
    // Exactly t unjailed signers: one jailed signer is added.
    assert_eq!(signer_candidates(&vec![1, 2], &vec![7, 8], 2), vec![1, 2, 7]);
}

#[test]
fn signing_set_added_only_with_local_party() {
    let mut sets = Vec::new();
    maybe_add_signing_set(Some(vec![1, 2, 3]), false, None, 2, 0, &mut sets);
    assert_eq!(sets.len(), 1);
    assert_eq!(sets[0].ssid, 0);
    maybe_add_signing_set(Some(vec![1, 3]), false, None, 2, 0, &mut sets);
    assert_eq!(sets.len(), 1);
    maybe_add_signing_set(None, false, None, 2, 0, &mut sets);
    assert_eq!(sets.len(), 1);
}

#[test]
fn wildcard_set_uses_filtered_signers() {
    let mut sets = Vec::new();
    // The filter replaced party 2 by party 4: the local party 2 is no longer in the set.
    maybe_add_signing_set(Some(vec![1, 2, 3]), true, Some(vec![1, 3, 4]), 2, 1, &mut sets);
    assert_eq!(sets.len(), 0);
    maybe_add_signing_set(Some(vec![1, 2, 3]), true, Some(vec![1, 3, 4]), 4, 1, &mut sets);
    assert_eq!(sets.len(), 1);
    assert_eq!(sets.remove(0).into_ordered_vec(), vec![1, 3, 4]);
    // Without a filtered set, the drawn set stands.
    maybe_add_signing_set(Some(vec![1, 2, 3]), true, None, 2, 1, &mut sets);
    assert_eq!(sets.len(), 1);
    // A filtered set is ignored for a regular set.
    maybe_add_signing_set(Some(vec![1, 2]), false, Some(vec![5]), 2, 0, &mut sets);
    assert_eq!(sets.len(), 2);
}

#[test]
fn plan_draws_one_set_per_proposal() {
    assert_eq!(signing_set_plan(), vec![0]);
}

#[test]
fn seed_preimage_concatenates() {
    let mut expected = vec![1u8, 2, 5, 1, 0, 0, 0, 0, 0, 0];
    expected.extend_from_slice(&[9u8; 32]);
    assert_eq!(signing_seed_preimage(&[1, 2], 0x0105, &[9; 32]), expected);
    let mut expected = u64::MAX.to_le_bytes().to_vec();
    expected.extend_from_slice(&[0u8; 32]);
    assert_eq!(signing_seed_preimage(&[], u64::MAX, &[0; 32]), expected);
}

#[test]
fn seed_hashes_key_block_and_proposal_digest() {
    let seed = signing_seed(&[1, 2], 7, &[3]);
    let mut preimage = vec![1u8, 2];
    preimage.extend_from_slice(&7u64.to_le_bytes());
    preimage.extend_from_slice(&sp_core::hashing::keccak_256(&[3]));
    assert_eq!(seed, sp_core::hashing::keccak_256(&preimage));
    // Another block gives another seed.
    assert_ne!(signing_seed(&[1, 2], 8, &[3]), seed);
}

#[test]
fn seed_is_deterministic() {
    let key = [4u8, 5, 6];
    let proposal = [9u8; 20];
    assert_eq!(signing_seed(&key, 11, &proposal), signing_seed(&key, 11, &proposal));
    assert_ne!(signing_seed(&key, 11, &proposal), signing_seed(&key, 11, &proposal[1..]));
}

#[test]
fn proposals_sorted_oldest_first_and_filtered() {
    let mut wm = WorkManager::new(4);
    wm.push_task(h(3));
    let timestamps = vec![30, 10, 20, 10, 5];
    let hashes = vec![Some(h(1)), Some(h(2)), Some(h(3)), None, Some(h(5))];
    // Batch 2 already has a job and batch 3 has no hash.
    assert_eq!(select_unsigned_proposals(&timestamps, &hashes, &wm), vec![4, 1, 0]);
}

#[test]
fn equal_timestamps_keep_list_order() {
    let wm = WorkManager::new(1);
    let timestamps = vec![7, 7, 7];
    let hashes = vec![Some(h(1)), Some(h(2)), Some(h(3))];
    assert_eq!(select_unsigned_proposals(&timestamps, &hashes, &wm), vec![0, 1, 2]);
}

#[test]
fn work_manager_starts_fifo_within_limit() {
    let mut wm = WorkManager::new(2);
    wm.push_task(h(1));
    wm.push_task(h(2));
    wm.push_task(h(3));
    assert!(wm.job_exists(&h(3)));
    assert!(!wm.job_exists(&h(4)));
    let started = wm.poll(&vec![]);
    assert_eq!(started, vec![h(1), h(2)]);
    assert!(wm.job_exists(&h(1)));
    assert!(wm.job_exists(&h(3)));
    // No free slot: nothing starts.
    assert_eq!(wm.poll(&vec![]), Vec::<[u8; 32]>::new());
    // Job 1 is done: job 3 starts.
    assert_eq!(wm.poll(&vec![h(1)]), vec![h(3)]);
    assert!(!wm.job_exists(&h(1)));
    wm.finish_job(&h(2));
    assert!(!wm.job_exists(&h(2)));
    assert!(wm.job_exists(&h(3)));
    assert_eq!(wm.poll(&vec![]), Vec::<[u8; 32]>::new());
}

#[test]
fn batch_has_at_most_one_set() {
    let sets = batch_signing_sets(vec![Some(vec![3, 1, 2])], 1);
    assert_eq!(sets, vec![(0, vec![1, 2, 3])]);
}

#[test]
fn batch_sets_without_local_party_or_draw() {
    assert!(batch_signing_sets(vec![Some(vec![3, 4])], 1).is_empty());
    assert!(batch_signing_sets(vec![None], 1).is_empty());
}

#[test]
fn equal_sets_hash_alike() {
    let a = ProposedSigningSet::from_signers(0, &vec![9, 2, 5]);
    let b = ProposedSigningSet::from_signers(3, &vec![5, 9, 2, 2]);
    assert!(a == b);
    assert_eq!(digest(&a), digest(&b));
    let mut expected = std::collections::hash_map::DefaultHasher::new();
    vec![2u16, 5, 9].hash(&mut expected);
    assert_eq!(digest(&a), expected.finish());
}
