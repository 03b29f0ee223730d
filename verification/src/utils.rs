//! Helpers of the DKG worker: authority lookup, threshold clamping, the
//! parameters of a new set of signing rounds, and the scan of a block's
//! consensus digest for authority changes and MMR roots.
use vstd::prelude::*;
use vstd::std_specs::cmp::PartialEqSpec;

verus! {

/// Identifier of an authority set (and of the rounds run by it).
pub type AuthoritySetId = u64;

/// Hash of an MMR root carried in a block digest.
pub type MmrRootHash = [u8; 32];

/// A set of DKG authorities together with its identifier.
pub struct AuthoritySet<A> {
    pub authorities: Vec<A>,
    pub id: AuthoritySetId,
}

/// The consensus digest items that the DKG runtime emits.
pub enum ConsensusLog<A> {
    /// The authority set changed: the new active set and the set queued after it.
    AuthoritiesChange { next_authorities: AuthoritySet<A>, next_queued_authorities: AuthoritySet<A> },
    /// An authority was disabled.
    OnDisabled(u64),
    /// The MMR root of the block.
    MmrRoot(MmrRootHash),
}

/// `x` and `y` are equal as the `PartialEq` of `B` says.
pub open spec fn same<B: PartialEq>(x: B, y: B) -> bool {
    x.eq_spec(&y)
}

/// Position of the first element of `queue` equal to `value`, if there is one.
pub fn find_index<B: Eq>(queue: &[B], value: &B) -> (r: Option<usize>)
    ensures
        B::obeys_eq_spec() ==> match r {
            Some(i) => {
                &&& i < queue@.len()
                &&& same(*value, queue@[i as int])
                &&& forall|j: int| 0 <= j < i ==> !same(*value, #[trigger] queue@[j])
            },
            None => forall|j: int| 0 <= j < queue@.len() ==> !same(*value, #[trigger] queue@[j]),
        },
{
    let mut i: usize = 0;
    while i < queue.len()
        invariant
            i <= queue@.len(),
            B::obeys_eq_spec() ==> forall|j: int| 0 <= j < i ==> !same(*value, #[trigger] queue@[j]),
        decreases queue@.len() - i,
    {
        if *value == queue[i] {
            return Some(i);
        }
        i = i + 1;
    }
    None
}

/// The threshold `t` when `1 <= t <= n - 1`, otherwise the largest valid threshold `n - 1`.
pub fn validate_threshold(n: u16, t: u16) -> (r: u16)
    requires
        n >= 1,
    ensures
        r == (if 1 <= t && t <= n - 1 { t } else { (n - 1) as u16 }),
        n >= 2 ==> 1 <= r <= n - 1,
{
    let max_thresh = n - 1;
    if t >= 1 && t <= max_thresh {
        return t;
    }
    max_thresh
}

/// The reputation recorded for `id` in `reputations` (a map given as distinct
/// key/value pairs), or `0` when it has none.
pub open spec fn reputation_of<A: PartialEq>(reputations: Seq<(A, i64)>, id: A) -> i64
    decreases reputations.len(),
{
    if reputations.len() == 0 {
        0
    } else if same(reputations[0].0, id) {
        reputations[0].1
    } else {
        reputation_of(reputations.drop_first(), id)
    }
}

/// The parameters of a fresh set of multi-party ECDSA rounds for one authority.
pub struct RoundsSetup<A, P> {
    /// Identifier of the rounds: the authority set's id.
    pub round_id: AuthoritySetId,
    /// 1-based index of the local authority in the set.
    pub party_index: u16,
    pub threshold: u16,
    /// Number of authorities in the set.
    pub parties: u16,
    /// Where the local key of the rounds is stored, if anywhere.
    pub local_key_path: Option<P>,
    /// Reputation of each authority of the set, in the set's order.
    pub reputations: Vec<i64>,
    /// The authorities of the set.
    pub authorities: Vec<A>,
}

fn lookup_reputation<A: Eq>(reputations: &Vec<(A, i64)>, id: &A) -> (r: i64)
    requires
        A::obeys_eq_spec(),
    ensures
        r == reputation_of(reputations@, *id),
{
    let mut i: usize = 0;
    assert(reputations@.skip(0) =~= reputations@);
    while i < reputations.len()
        invariant
            A::obeys_eq_spec(),
            i <= reputations@.len(),
            reputation_of(reputations@, *id) == reputation_of(reputations@.skip(i as int), *id),
        decreases reputations@.len() - i,
    {
        assert(reputations@.skip(i as int).drop_first() =~= reputations@.skip(i + 1));
        if reputations[i].0 == *id {
            return reputations[i].1;
        }
        i = i + 1;
    }
    0
}

/// Computes the parameters of the rounds that `public` runs within
/// `authority_set`: its 1-based index, the number of parties, the threshold,
/// the local key path, the authorities, and each authority's reputation (`0`
/// for one without a recorded reputation).
pub fn set_up_rounds<A: Eq + Clone, P>(
    authority_set: &AuthoritySet<A>,
    public: &A,
    thresh: u16,
    local_key_path: Option<P>,
    reputations: &Vec<(A, i64)>,
) -> (r: RoundsSetup<A, P>)
    requires
        A::obeys_eq_spec(),
        exists|i: int|
            0 <= i < authority_set.authorities@.len() && same(
                *public,
                #[trigger] authority_set.authorities@[i],
            ),
        authority_set.authorities@.len() <= u16::MAX,
    ensures
        r.round_id == authority_set.id,
        r.threshold == thresh,
        r.parties == authority_set.authorities@.len(),
        1 <= r.party_index <= r.parties,
        same(*public, authority_set.authorities@[r.party_index - 1]),
        forall|j: int|
            0 <= j < r.party_index - 1 ==> !same(*public, #[trigger] authority_set.authorities@[j]),
        r.reputations@.len() == authority_set.authorities@.len(),
        forall|j: int|
            0 <= j < r.reputations@.len() ==> #[trigger] r.reputations@[j] == reputation_of(
                reputations@,
                authority_set.authorities@[j],
            ),
        r.local_key_path == local_key_path,
        r.authorities@.len() == authority_set.authorities@.len(),
        forall|j: int|
            0 <= j < r.authorities@.len() ==> cloned::<A>(authority_set.authorities@[j], #[trigger] r.authorities@[j]),
{
    let idx = find_index(authority_set.authorities.as_slice(), public);
    let party_inx = match idx {
        Some(i) => i + 1,
        None => {
            proof {
                let k = choose|i: int|
                    0 <= i < authority_set.authorities@.len() && same(
                        *public,
                        #[trigger] authority_set.authorities@[i],
                    );
                assert(!same(*public, authority_set.authorities@[k]));
            }
            0
        },
    };
    let mut reps: Vec<i64> = Vec::new();
    let mut j: usize = 0;
    while j < authority_set.authorities.len()
        invariant
            A::obeys_eq_spec(),
            j <= authority_set.authorities@.len(),
            reps@.len() == j,
            forall|k: int|
                0 <= k < j ==> #[trigger] reps@[k] == reputation_of(
                    reputations@,
                    authority_set.authorities@[k],
                ),
        decreases authority_set.authorities@.len() - j,
    {
        let rep = lookup_reputation(reputations, &authority_set.authorities[j]);
        reps.push(rep);
        j = j + 1;
    }
    RoundsSetup {
        round_id: authority_set.id,
        party_index: party_inx as u16,
        threshold: thresh,
        parties: authority_set.authorities.len() as u16,
        local_key_path,
        reputations: reps,
        authorities: authority_set.authorities.clone(),
    }
}

/// The new active and queued authority sets, when `log` signals an authority change.
pub fn match_consensus_log<A>(log: ConsensusLog<A>) -> (r: Option<(AuthoritySet<A>, AuthoritySet<A>)>)
    ensures
        match log {
            ConsensusLog::AuthoritiesChange { next_authorities, next_queued_authorities } => r
                == Some((next_authorities, next_queued_authorities)),
            _ => r is None,
        },
{
    match log {
        ConsensusLog::AuthoritiesChange { next_authorities: validator_set, next_queued_authorities } =>
            Some((validator_set, next_queued_authorities)),
        _ => None,
    }
}

/// The MMR root carried by a decoded digest item, if it carries one.
pub open spec fn mmr_root_of<A>(log: Option<ConsensusLog<A>>) -> Option<MmrRootHash> {
    match log {
        Some(ConsensusLog::MmrRoot(root)) => Some(root),
        _ => None,
    }
}

/// The digest item signals an authority change.
pub open spec fn is_authorities_change<A>(log: Option<ConsensusLog<A>>) -> bool {
    log matches Some(ConsensusLog::AuthoritiesChange { .. })
}

/// The MMR root of the first digest item that carries one. `logs` holds the
/// header's digest items decoded as DKG consensus logs (`None` for an item
/// that is not one).
pub fn find_mmr_root_digest<A>(logs: &Vec<Option<ConsensusLog<A>>>) -> (r: Option<MmrRootHash>)
    ensures
        match r {
            Some(root) => exists|i: int|
                0 <= i < logs@.len() && mmr_root_of(#[trigger] logs@[i]) == Some(root) && forall|
                    j: int,
                | 0 <= j < i ==> mmr_root_of(#[trigger] logs@[j]) is None,
            None => forall|j: int| 0 <= j < logs@.len() ==> mmr_root_of(#[trigger] logs@[j]) is None,
        },
{
    let mut i: usize = 0;
    while i < logs.len()
        invariant
            i <= logs@.len(),
            forall|j: int| 0 <= j < i ==> mmr_root_of(#[trigger] logs@[j]) is None,
        decreases logs@.len() - i,
    {
        match &logs[i] {
            Some(ConsensusLog::MmrRoot(root)) => {
                return Some(*root);
            },
            _ => {},
        }
        i = i + 1;
    }
    None
}

/// The active and queued authority sets of the first digest item that signals
/// an authority change, or `None` when no item does.
pub fn find_authorities_change<A>(logs: Vec<Option<ConsensusLog<A>>>) -> (r: Option<
    (AuthoritySet<A>, AuthoritySet<A>),
>)
    ensures
        match r {
            Some(sets) => exists|i: int|
                #![trigger logs@[i]]
                0 <= i < logs@.len() && logs@[i] == Some(
                    ConsensusLog::AuthoritiesChange {
                        next_authorities: sets.0,
                        next_queued_authorities: sets.1,
                    },
                ) && forall|j: int| 0 <= j < i ==> !is_authorities_change(#[trigger] logs@[j]),
            None => forall|j: int| 0 <= j < logs@.len() ==> !is_authorities_change(#[trigger] logs@[j]),
        },
{
    let ghost orig = logs@;
    let mut items = logs;
    let mut i: usize = 0;
    while i < items.len()
        invariant
            items@ == orig,
            orig == logs@,
            i <= items@.len(),
            forall|j: int| 0 <= j < i ==> !is_authorities_change(#[trigger] items@[j]),
        decreases items@.len() - i,
    {
        let found = match &items[i] {
            Some(ConsensusLog::AuthoritiesChange { .. }) => true,
            _ => false,
        };
        if found {
            let item = items.remove(i);
            assert(item == orig[i as int]);
            match item {
                Some(log) => {
                    return match_consensus_log(log);
                },
                None => {
                    return None;
                },
            }
        }
        i = i + 1;
    }
    None
}

/// The next authority set needs no new rounds: it is empty, or the rounds
/// already running (`rounds_id`) belong to it.
pub fn is_next_authorities_or_rounds_empty<A>(
    rounds_id: Option<AuthoritySetId>,
    next_authorities: &AuthoritySet<A>,
) -> (r: bool)
    ensures
        r == (next_authorities.authorities@.len() == 0 || rounds_id == Some(next_authorities.id)),
{
    if next_authorities.authorities.len() == 0 {
        return true;
    }
    match rounds_id {
        Some(id) => id == next_authorities.id,
        None => false,
    }
}

/// The queued authority set needs no new rounds: it is empty, or the next
/// rounds already prepared (`next_rounds_id`) belong to it.
pub fn is_queued_authorities_or_rounds_empty<A>(
    next_rounds_id: Option<AuthoritySetId>,
    queued_authorities: &AuthoritySet<A>,
) -> (r: bool)
    ensures
        r == (queued_authorities.authorities@.len() == 0 || next_rounds_id == Some(
            queued_authorities.id,
        )),
{
    if queued_authorities.authorities.len() == 0 {
        return true;
    }
    match next_rounds_id {
        Some(id) => id == queued_authorities.id,
        None => false,
    }
}

} // verus!
