//! The handling of a finalized block, as a state machine: which chain state
//! to read next, which signing sets to draw, which signing jobs to start and
//! when to stop. The caller performs each action and reports its outcome as
//! the next event.
use vstd::prelude::*;
use crate::offline::DKGError;
use crate::signing::{
    batch_before, batch_eligible, batch_signing_sets, keccak_256_of, le_bytes_u64, proposed_sets,
    select_unsigned_proposals, signing_plan, signing_seed, signing_set_plan, strictly_increasing,
    MAX_POTENTIAL_SIGNING_SETS_PER_PROPOSAL,
    unique_pairs, KeygenPartyId,
};
use crate::work_manager::{ProposalHash, WorkManager};

verus! {

/// An unsigned proposal batch, as the signing decisions read it.
#[derive(Clone, Debug)]
pub struct BatchInfo {
    /// When the batch was queued; older batches are signed first.
    pub timestamp: u64,
    /// The batch's hash, if it has one.
    pub hash: Option<ProposalHash>,
    /// The SCALE encoding of the batch.
    pub encoded: Vec<u8>,
    /// The batch's first proposal has no typed chain id: it serves the
    /// rotation of sessions, and its job is to start at once.
    pub first_chain_id_none: bool,
}

/// What is known while the batches of a block are signed.
pub struct SigningContext {
    /// The finalized block the signing jobs are associated with.
    pub block_number: u64,
    pub session_id: u64,
    pub dkg_pub_key: Vec<u8>,
    /// The local party.
    pub party_i: KeygenPartyId,
    pub batches: Vec<BatchInfo>,
    /// The batches to sign, oldest first, as indices into `batches`.
    pub order: Vec<usize>,
}

/// Where the handling of a finalized block stands.
pub enum BlockSigning {
    /// Nothing has happened yet.
    Idle,
    AwaitDkgKey { block_number: u64 },
    AwaitPartyIndex { block_number: u64, session_id: u64, dkg_pub_key: Vec<u8> },
    AwaitBatches { block_number: u64, session_id: u64, dkg_pub_key: Vec<u8>, party_i: KeygenPartyId },
    /// Waiting for the best authorities and the signature threshold.
    AwaitSigningContext { ctx: SigningContext },
    /// Waiting to learn whether the work manager takes more tasks, before
    /// batch `ctx.order[pos]` is handled.
    AwaitCapacity { ctx: SigningContext, pos: usize },
    /// Waiting for the draws of the signing set of batch `ctx.order[pos]`.
    AwaitDraws { ctx: SigningContext, pos: usize },
    /// Waiting for the job of signing set `sets[k]` of batch `ctx.order[pos]`.
    AwaitJob { ctx: SigningContext, pos: usize, sets: Vec<(u8, Vec<KeygenPartyId>)>, k: usize },
    /// Waiting for a failure to start a protocol to be reported.
    AwaitErrorReport { error: DKGError },
    Done,
}

/// The outcome of the last action.
pub enum SigningEvent {
    /// Block `block_number` is finalized; `locked` while a keygen runs.
    Begin { locked: bool, block_number: u64 },
    DkgKey { session_id: u64, dkg_pub_key: Vec<u8> },
    /// The local party's id, if it is among the best authorities (an error
    /// when its index is no valid party id).
    PartyIndex(Option<Result<KeygenPartyId, DKGError>>),
    /// The unsigned proposal batches, or the text of the error that reading them met.
    Batches(Result<Vec<BatchInfo>, String>),
    SigningContextRead,
    Capacity { can_submit_more_tasks: bool },
    /// For each requested draw, the set drawn, if one could be.
    Draws { selected: Vec<Option<Vec<KeygenPartyId>>> },
    /// The protocol started and its job was queued, or queueing failed.
    JobQueued(Result<(), DKGError>),
    /// The protocol could not be set up.
    ProtocolFailed(DKGError),
    ErrorReported,
}

/// What the caller is to do next.
pub enum SigningAction {
    FetchDkgKey,
    FetchPartyIndex,
    FetchBatches,
    /// Read the best authorities and the signature threshold.
    FetchSigningContext,
    /// Tell whether the work manager takes more tasks.
    CheckCapacity,
    /// Draw a signing set for each `(ssid, seed)`.
    DrawSigningSets { draws: Vec<(u8, [u8; 32])> },
    /// Start the signing protocol of batch `batch` (hashed `hash`) with
    /// `signers` under `ssid`, associated with block `block_number`, and
    /// queue its job, to be started at once when `force_start`.
    StartSigning {
        batch: usize,
        hash: ProposalHash,
        ssid: u8,
        signers: Vec<KeygenPartyId>,
        block_number: u64,
        force_start: bool,
    },
    /// Report a failure to start a protocol.
    ReportError(DKGError),
    /// The handling of the block is over.
    Finish(Result<(), DKGError>),
}

impl BlockSigning {
    /// What is known about the block's batches, while they are signed.
    pub fn context(&self) -> (r: Option<&SigningContext>)
        ensures
            match self {
                BlockSigning::AwaitSigningContext { ctx } => r == Some(ctx),
                BlockSigning::AwaitCapacity { ctx, .. } => r == Some(ctx),
                BlockSigning::AwaitDraws { ctx, .. } => r == Some(ctx),
                BlockSigning::AwaitJob { ctx, .. } => r == Some(ctx),
                _ => r is None,
            },
    {
        match self {
            BlockSigning::AwaitSigningContext { ctx } => Some(ctx),
            BlockSigning::AwaitCapacity { ctx, .. } => Some(ctx),
            BlockSigning::AwaitDraws { ctx, .. } => Some(ctx),
            BlockSigning::AwaitJob { ctx, .. } => Some(ctx),
            _ => None,
        }
    }
}

/// The batches' timestamps.
pub open spec fn timestamps_of(batches: Seq<BatchInfo>) -> Seq<u64> {
    batches.map_values(|b: BatchInfo| b.timestamp)
}

/// The batches' hashes.
pub open spec fn hashes_of(batches: Seq<BatchInfo>) -> Seq<Option<ProposalHash>> {
    batches.map_values(|b: BatchInfo| b.hash)
}

/// `order` lists the batches to sign given the jobs of `manager`: each batch
/// that has a hash and no job, once, oldest first (ties in list order).
pub open spec fn is_signing_order(order: Seq<usize>, batches: Seq<BatchInfo>, manager: WorkManager) -> bool {
    &&& forall|p: int| 0 <= p < order.len() ==> #[trigger] order[p] < batches.len()
    &&& forall|p: int, q: int|
        0 <= p < q < order.len() ==> batch_before(timestamps_of(batches), #[trigger] order[p] as int, #[trigger] order[q] as int)
    &&& forall|i: int| 0 <= i < batches.len() ==> (batch_eligible(hashes_of(batches), manager, i) <==> order.contains(i as usize))
}

/// Every batch listed in the context exists and has a hash.
pub open spec fn context_ok(ctx: SigningContext) -> bool {
    forall|p: int|
        0 <= p < ctx.order@.len() ==> #[trigger] ctx.order@[p] < ctx.batches@.len() && ctx.batches@[ctx.order@[p] as int].hash is Some
}

/// The signing sets of a batch are ordered and hold the local party.
pub open spec fn sets_ok(sets: Seq<(u8, Vec<KeygenPartyId>)>, party: KeygenPartyId) -> bool {
    forall|j: int| 0 <= j < sets.len() ==> strictly_increasing((#[trigger] sets[j]).1@) && sets[j].1@.contains(party)
}

/// `sets` are the signing sets of a batch: those of `expected`, each with its
/// signers in increasing order.
pub open spec fn sets_match(sets: Seq<(u8, Vec<KeygenPartyId>)>, expected: Seq<(u8, Set<KeygenPartyId>)>) -> bool {
    &&& sets.len() == expected.len()
    &&& forall|j: int|
        0 <= j < sets.len() ==> (#[trigger] sets[j]).0 == expected[j].0 && strictly_increasing(sets[j].1@)
            && sets[j].1@.to_set() == expected[j].1
}

/// The consistency of a state.
pub open spec fn state_ok(s: BlockSigning) -> bool {
    match s {
        BlockSigning::AwaitSigningContext { ctx } => context_ok(ctx) && ctx.order@.len() > 0,
        BlockSigning::AwaitCapacity { ctx, pos } => context_ok(ctx) && pos < ctx.order@.len(),
        BlockSigning::AwaitDraws { ctx, pos, .. } => context_ok(ctx) && pos < ctx.order@.len(),
        BlockSigning::AwaitJob { ctx, pos, sets, k } => {
            &&& context_ok(ctx)
            &&& pos < ctx.order@.len()
            &&& k < sets@.len()
            &&& sets@.len() <= MAX_POTENTIAL_SIGNING_SETS_PER_PROPOSAL
            &&& sets_ok(sets@, ctx.party_i)
        },
        _ => true,
    }
}

/// The event is the outcome of the action that led to state `s`.
pub open spec fn accepts(s: BlockSigning, e: SigningEvent) -> bool {
    match s {
        BlockSigning::Idle => e is Begin,
        BlockSigning::AwaitDkgKey { .. } => e is DkgKey,
        BlockSigning::AwaitPartyIndex { .. } => e is PartyIndex,
        BlockSigning::AwaitBatches { .. } => e is Batches,
        BlockSigning::AwaitSigningContext { .. } => e is SigningContextRead,
        BlockSigning::AwaitCapacity { .. } => e is Capacity,
        BlockSigning::AwaitDraws { .. } => e matches SigningEvent::Draws { selected }
            && selected@.len() == signing_plan().len(),
        BlockSigning::AwaitJob { .. } => e is JobQueued || e is ProtocolFailed,
        BlockSigning::AwaitErrorReport { .. } => e is ErrorReported,
        BlockSigning::Done => false,
    }
}

/// The handling ends successfully.
pub open spec fn finished_ok(r: (BlockSigning, SigningAction)) -> bool {
    r.0 is Done && r.1 matches SigningAction::Finish(Ok(()))
}

/// What follows the last signing set of batch `ctx.order[pos]`: the capacity
/// check before the next batch, or the end of the handling after the last batch.
pub open spec fn advanced(ctx: SigningContext, pos: int, r: (BlockSigning, SigningAction)) -> bool {
    if pos + 1 < ctx.order@.len() {
        r.0 == (BlockSigning::AwaitCapacity { ctx, pos: (pos + 1) as usize }) && r.1 is CheckCapacity
    } else {
        finished_ok(r)
    }
}

/// The action starts the job of signing set `sets[k]` of batch `ctx.order[pos]`.
pub open spec fn starts_set(ctx: SigningContext, pos: int, sets: Seq<(u8, Vec<KeygenPartyId>)>, k: int, a: SigningAction) -> bool {
    a matches SigningAction::StartSigning { batch, hash, ssid, signers, block_number, force_start }
        && batch == ctx.order@[pos] && ctx.batches@[batch as int].hash == Some(hash) && ssid == sets[k].0
        && signers@ == sets[k].1@ && block_number == ctx.block_number
        && force_start == ctx.batches@[batch as int].first_chain_id_none
}

/// Continues after the job of set `k` of batch `ctx.order[pos]`.
fn next_set(ctx: SigningContext, pos: usize, sets: Vec<(u8, Vec<KeygenPartyId>)>, k: usize) -> (r: (BlockSigning, SigningAction))
    requires
        context_ok(ctx),
        pos < ctx.order@.len(),
        k <= sets@.len(),
        sets@.len() <= MAX_POTENTIAL_SIGNING_SETS_PER_PROPOSAL,
        sets_ok(sets@, ctx.party_i),
    ensures
        state_ok(r.0),
        k < sets@.len() ==> r.0 == (BlockSigning::AwaitJob { ctx, pos, sets, k }) && starts_set(ctx, pos as int, sets@, k as int, r.1),
        k == sets@.len() ==> advanced(ctx, pos as int, r),
{
    if k < sets.len() {
        let batch = ctx.order[pos];
        proof {
            assert(ctx.batches@[ctx.order@[pos as int] as int].hash is Some);
        }
        let hash = ctx.batches[batch].hash.unwrap();
        let ssid = sets[k].0;
        let signers = sets[k].1.clone();
        proof {
            assert(signers@ == sets@[k as int].1@);
        }
        let block_number = ctx.block_number;
        let force_start = ctx.batches[batch].first_chain_id_none;
        (
            BlockSigning::AwaitJob { ctx, pos, sets, k },
            SigningAction::StartSigning { batch, hash, ssid, signers, block_number, force_start },
        )
    } else if pos < ctx.order.len() - 1 {
        (BlockSigning::AwaitCapacity { ctx, pos: pos + 1 }, SigningAction::CheckCapacity)
    } else {
        (BlockSigning::Done, SigningAction::Finish(Ok(())))
    }
}

/// The seed of the signing set of batch `ctx.order[pos]`: the digest of the
/// DKG key, the block number and the digest of the encoded batch.
pub open spec fn batch_seed(ctx: SigningContext, pos: int) -> Seq<u8> {
    let encoded = ctx.batches@[ctx.order@[pos] as int].encoded@;
    keccak_256_of(ctx.dkg_pub_key@ + le_bytes_u64(ctx.block_number) + keccak_256_of(encoded))
}

/// The draws requested for batch `ctx.order[pos]`: one per entry of the
/// signing plan, with its ssid and the batch's seed.
pub open spec fn draws_for(ctx: SigningContext, pos: int, draws: Seq<(u8, [u8; 32])>) -> bool {
    let plan = signing_plan();
    &&& draws.len() == plan.len()
    &&& forall|i: int|
        0 <= i < draws.len() ==> (#[trigger] draws[i]).0 == plan[i] && draws[i].1@ == batch_seed(ctx, pos)
}

/// Every set proposed for a batch holds the local party.
proof fn lemma_proposed_sets_hold_party(plan: Seq<u8>, selected: Seq<Option<Vec<KeygenPartyId>>>, party: KeygenPartyId)
    ensures
        forall|j: int|
            0 <= j < proposed_sets(plan, selected, party).len() ==> (#[trigger] proposed_sets(
                plan,
                selected,
                party,
            )[j]).1.contains(party),
    decreases plan.len(),
{
    if plan.len() > 0 {
        let i = plan.len() - 1;
        let prev = proposed_sets(plan.drop_last(), selected.take(i), party);
        let cur = proposed_sets(plan, selected, party);
        lemma_proposed_sets_hold_party(plan.drop_last(), selected.take(i), party);
        if let Some(set) = selected[i] {
            if set@.contains(party) {
                assert(set@.to_set().contains(party));
                assert forall|j: int| 0 <= j < cur.len() implies (#[trigger] cur[j]).1.contains(party) by {
                    if j < prev.len() {
                        assert(cur[j] == prev[j]);
                    }
                }
            }
        }
    }
}

/// Leaving out repeated sets keeps a property that every set has.
proof fn lemma_unique_pairs_hold_party(s: Seq<(u8, Set<KeygenPartyId>)>, party: KeygenPartyId)
    requires
        forall|j: int| 0 <= j < s.len() ==> (#[trigger] s[j]).1.contains(party),
    ensures
        forall|j: int| 0 <= j < unique_pairs(s).len() ==> (#[trigger] unique_pairs(s)[j]).1.contains(party),
    decreases s.len(),
{
    if s.len() > 0 {
        let p = s.drop_last();
        assert forall|j: int| 0 <= j < p.len() implies (#[trigger] p[j]).1.contains(party) by {
            assert(p[j] == s[j]);
        }
        lemma_unique_pairs_hold_party(p, party);
        let kept = unique_pairs(p);
        let u = unique_pairs(s);
        assert(s.last() == s[s.len() - 1]);
        assert forall|j: int| 0 <= j < u.len() implies (#[trigger] u[j]).1.contains(party) by {
            if j < kept.len() {
                assert(u[j] == kept[j]);
            } else {
                assert(u[j] == s.last());
            }
        }
    }
}

/// The batches to sign given the jobs of `manager`, oldest first.
fn signing_order(batches: &Vec<BatchInfo>, manager: &WorkManager) -> (r: Vec<usize>)
    ensures
        is_signing_order(r@, batches@, *manager),
{
    let mut timestamps: Vec<u64> = Vec::new();
    let mut hashes: Vec<Option<ProposalHash>> = Vec::new();
    let mut i: usize = 0;
    while i < batches.len()
        invariant
            i <= batches@.len(),
            timestamps@ == timestamps_of(batches@).take(i as int),
            hashes@ == hashes_of(batches@).take(i as int),
        decreases batches@.len() - i,
    {
        timestamps.push(batches[i].timestamp);
        hashes.push(batches[i].hash);
        proof {
            assert(timestamps@ =~= timestamps_of(batches@).take(i + 1));
            assert(hashes@ =~= hashes_of(batches@).take(i + 1));
        }
        i = i + 1;
    }
    proof {
        assert(timestamps@ =~= timestamps_of(batches@));
        assert(hashes@ =~= hashes_of(batches@));
    }
    select_unsigned_proposals(&timestamps, &hashes, manager)
}

/// The seeded draws of the signing plan for batch `ctx.order[pos]`.
fn plan_draws(ctx: &SigningContext, pos: usize) -> (r: Vec<(u8, [u8; 32])>)
    requires
        context_ok(*ctx),
        pos < ctx.order@.len(),
    ensures
        draws_for(*ctx, pos as int, r@),
{
    let plan = signing_set_plan();
    let batch = ctx.order[pos];
    let seed = signing_seed(ctx.dkg_pub_key.as_slice(), ctx.block_number, ctx.batches[batch].encoded.as_slice());
    let mut draws: Vec<(u8, [u8; 32])> = Vec::new();
    let mut i: usize = 0;
    while i < plan.len()
        invariant
            plan@ == signing_plan(),
            seed@ == batch_seed(*ctx, pos as int),
            i <= plan@.len(),
            draws@.len() == i,
            forall|j: int| 0 <= j < i ==> (#[trigger] draws@[j]).0 == plan@[j] && draws@[j].1@ == batch_seed(*ctx, pos as int),
        decreases plan@.len() - i,
    {
        draws.push((plan[i], seed));
        i = i + 1;
    }
    draws
}

/// One step of the handling of a finalized block: from the state and the
/// outcome of the last action, the next state and action.
///
/// A keygen in progress, or a local party outside the best authorities, ends
/// the handling at once. The batches are signed oldest first, leaving out
/// those without a hash and those whose job exists, until the work manager
/// takes no more tasks; for each, one signing set is drawn from the seed
/// `keccak256(pk, fN, keccak256(batch))`, and when it holds the local party
/// one job is started for the batch, associated with the block and forced to
/// start when the batch's first proposal has no typed chain id.
/// A protocol that cannot be set up is reported and ends the handling with
/// its error.
pub fn on_block_finalized_step(state: BlockSigning, event: SigningEvent, manager: &WorkManager) -> (r: (
    BlockSigning,
    SigningAction,
))
    requires
        state_ok(state),
        accepts(state, event),
    ensures
        state_ok(r.0),
        r.1 matches SigningAction::StartSigning { batch, hash, signers, block_number, force_start, .. } ==> (
        r.0 matches BlockSigning::AwaitJob { ctx, sets, k, .. } && k == 0 && sets@.len() == 1
            && signers@.contains(ctx.party_i) && strictly_increasing(
            signers@,
        ) && batch < ctx.batches@.len() && ctx.batches@[batch as int].hash == Some(hash) && block_number
            == ctx.block_number && force_start == ctx.batches@[batch as int].first_chain_id_none),
        state is Idle ==> (event matches SigningEvent::Begin { locked, block_number } ==> if locked {
            finished_ok(r)
        } else {
            r.0 == (BlockSigning::AwaitDkgKey { block_number }) && r.1 is FetchDkgKey
        }),
        state matches BlockSigning::AwaitDkgKey { block_number } ==> (event matches SigningEvent::DkgKey {
            session_id,
            dkg_pub_key,
        } ==> r.0 == (BlockSigning::AwaitPartyIndex { block_number, session_id, dkg_pub_key })
            && r.1 is FetchPartyIndex),
        state matches BlockSigning::AwaitPartyIndex { block_number, session_id, dkg_pub_key } ==> (event matches SigningEvent::PartyIndex(
            p,
        ) ==> match p {
            None => finished_ok(r),
            Some(Err(e)) => r.0 is Done && r.1 == SigningAction::Finish(Err(e)),
            Some(Ok(party_i)) => r.0 == (BlockSigning::AwaitBatches { block_number, session_id, dkg_pub_key, party_i })
                && r.1 is FetchBatches,
        }),
        state matches BlockSigning::AwaitBatches { block_number, session_id, dkg_pub_key, party_i } ==> (event matches SigningEvent::Batches(
            b,
        ) ==> match b {
            Err(text) => r.0 is Done && (r.1 matches SigningAction::Finish(Err(DKGError::GenericError { reason }))
                && reason@ == "Failed to get unsigned proposals: "@ + text@),
            Ok(batches) => if exists|i: int| 0 <= i < batches@.len() && batch_eligible(hashes_of(batches@), *manager, i) {
                &&& r.0 matches BlockSigning::AwaitSigningContext { ctx }
                &&& ctx.block_number == block_number && ctx.session_id == session_id
                &&& ctx.dkg_pub_key == dkg_pub_key && ctx.party_i == party_i
                &&& ctx.batches == batches
                &&& is_signing_order(ctx.order@, batches@, *manager)
                &&& r.1 is FetchSigningContext
            } else {
                finished_ok(r)
            },
        }),
        state matches BlockSigning::AwaitSigningContext { ctx } ==> r.0 == (BlockSigning::AwaitCapacity {
            ctx,
            pos: 0,
        }) && r.1 is CheckCapacity,
        state matches BlockSigning::AwaitCapacity { ctx, pos } ==> (event matches SigningEvent::Capacity {
            can_submit_more_tasks,
        } ==> if can_submit_more_tasks {
            r.0 == (BlockSigning::AwaitDraws { ctx, pos }) && (r.1 matches SigningAction::DrawSigningSets { draws }
                && draws_for(ctx, pos as int, draws@))
        } else {
            finished_ok(r)
        }),
        state matches BlockSigning::AwaitDraws { ctx, pos } ==> (event matches SigningEvent::Draws { selected } ==> ({
            let expected = unique_pairs(proposed_sets(signing_plan(), selected@, ctx.party_i));
            if expected.len() == 0 {
                advanced(ctx, pos as int, r)
            } else {
                &&& r.0 matches BlockSigning::AwaitJob { ctx: c, pos: p, sets, k }
                &&& c == ctx && p == pos && k == 0
                &&& sets_match(sets@, expected)
                &&& starts_set(ctx, pos as int, sets@, 0, r.1)
            }
        })),
        state matches BlockSigning::AwaitJob { ctx, pos, sets, k } ==> match event {
            SigningEvent::JobQueued(Ok(())) => if k + 1 < sets@.len() {
                r.0 == (BlockSigning::AwaitJob { ctx, pos, sets, k: (k + 1) as usize }) && starts_set(
                    ctx,
                    pos as int,
                    sets@,
                    k + 1,
                    r.1,
                )
            } else {
                advanced(ctx, pos as int, r)
            },
            SigningEvent::JobQueued(Err(e)) => r.0 is Done && r.1 == SigningAction::Finish(Err(e)),
            SigningEvent::ProtocolFailed(e) => r.0 == (BlockSigning::AwaitErrorReport { error: e }) && (r.1 matches SigningAction::ReportError(
                reported,
            ) && reported.same_as(&e)),
            _ => false,
        },
        state matches BlockSigning::AwaitErrorReport { error } ==> r.0 is Done && r.1 == SigningAction::Finish(
            Err(error),
        ),
{
    match state {
        BlockSigning::Idle => {
            match event {
                SigningEvent::Begin { locked, block_number } => {
                    if locked {
                        (BlockSigning::Done, SigningAction::Finish(Ok(())))
                    } else {
                        (BlockSigning::AwaitDkgKey { block_number }, SigningAction::FetchDkgKey)
                    }
                },
                _ => {
                    proof {
                        assert(false);
                    }
                    (BlockSigning::Done, SigningAction::Finish(Ok(())))
                },
            }
        },
        BlockSigning::AwaitDkgKey { block_number } => {
            match event {
                SigningEvent::DkgKey { session_id, dkg_pub_key } => (
                    BlockSigning::AwaitPartyIndex { block_number, session_id, dkg_pub_key },
                    SigningAction::FetchPartyIndex,
                ),
                _ => {
                    proof {
                        assert(false);
                    }
                    (BlockSigning::Done, SigningAction::Finish(Ok(())))
                },
            }
        },
        BlockSigning::AwaitPartyIndex { block_number, session_id, dkg_pub_key } => {
            match event {
                SigningEvent::PartyIndex(None) => (BlockSigning::Done, SigningAction::Finish(Ok(()))),
                SigningEvent::PartyIndex(Some(Err(e))) => (BlockSigning::Done, SigningAction::Finish(Err(e))),
                SigningEvent::PartyIndex(Some(Ok(party_i))) => (
                    BlockSigning::AwaitBatches { block_number, session_id, dkg_pub_key, party_i },
                    SigningAction::FetchBatches,
                ),
                _ => {
                    proof {
                        assert(false);
                    }
                    (BlockSigning::Done, SigningAction::Finish(Ok(())))
                },
            }
        },
        BlockSigning::AwaitBatches { block_number, session_id, dkg_pub_key, party_i } => {
            match event {
                SigningEvent::Batches(Err(text)) => {
                    let reason = String::from_str("Failed to get unsigned proposals: ").concat(text.as_str());
                    (BlockSigning::Done, SigningAction::Finish(Err(DKGError::GenericError { reason })))
                },
                SigningEvent::Batches(Ok(batches)) => {
                    let order = signing_order(&batches, manager);
                    if order.len() == 0 {
                        proof {
                            assert forall|i: int|
                                0 <= i < batches@.len() implies !batch_eligible(hashes_of(batches@), *manager, i) by {
                                if batch_eligible(hashes_of(batches@), *manager, i) {
                                    assert(order@.contains(i as usize));
                                }
                            }
                        }
                        (BlockSigning::Done, SigningAction::Finish(Ok(())))
                    } else {
                        proof {
                            let i = order@[0] as int;
                            assert(order@.contains(order@[0]));
                            assert(batch_eligible(hashes_of(batches@), *manager, i));
                            assert forall|p: int|
                                0 <= p < order@.len() implies #[trigger] order@[p] < batches@.len()
                                    && batches@[order@[p] as int].hash is Some by {
                                assert(order@.contains(order@[p]));
                                assert(batch_eligible(hashes_of(batches@), *manager, order@[p] as int));
                                assert(hashes_of(batches@)[order@[p] as int] == batches@[order@[p] as int].hash);
                            }
                        }
                        let ctx = SigningContext { block_number, session_id, dkg_pub_key, party_i, batches, order };
                        (BlockSigning::AwaitSigningContext { ctx }, SigningAction::FetchSigningContext)
                    }
                },
                _ => {
                    proof {
                        assert(false);
                    }
                    (BlockSigning::Done, SigningAction::Finish(Ok(())))
                },
            }
        },
        BlockSigning::AwaitSigningContext { ctx } => (
            BlockSigning::AwaitCapacity { ctx, pos: 0 },
            SigningAction::CheckCapacity,
        ),
        BlockSigning::AwaitCapacity { ctx, pos } => {
            match event {
                SigningEvent::Capacity { can_submit_more_tasks } => {
                    if can_submit_more_tasks {
                        let draws = plan_draws(&ctx, pos);
                        (BlockSigning::AwaitDraws { ctx, pos }, SigningAction::DrawSigningSets { draws })
                    } else {
                        (BlockSigning::Done, SigningAction::Finish(Ok(())))
                    }
                },
                _ => {
                    proof {
                        assert(false);
                    }
                    (BlockSigning::Done, SigningAction::Finish(Ok(())))
                },
            }
        },
        BlockSigning::AwaitDraws { ctx, pos } => {
            match event {
                SigningEvent::Draws { selected } => {
                    let ghost sel = selected@;
                    let sets = batch_signing_sets(selected, ctx.party_i);
                    proof {
                        let proposed = proposed_sets(signing_plan(), sel, ctx.party_i);
                        let expected = unique_pairs(proposed);
                        lemma_proposed_sets_hold_party(signing_plan(), sel, ctx.party_i);
                        lemma_unique_pairs_hold_party(proposed, ctx.party_i);
                        assert forall|j: int| 0 <= j < sets@.len() implies strictly_increasing(
                            (#[trigger] sets@[j]).1@,
                        ) && sets@[j].1@.contains(ctx.party_i) by {
                            assert(expected[j].1.contains(ctx.party_i));
                            assert(sets@[j].1@.to_set().contains(ctx.party_i));
                        }
                    }
                    next_set(ctx, pos, sets, 0)
                },
                _ => {
                    proof {
                        assert(false);
                    }
                    (BlockSigning::Done, SigningAction::Finish(Ok(())))
                },
            }
        },
        BlockSigning::AwaitJob { ctx, pos, sets, k } => {
            match event {
                SigningEvent::JobQueued(Ok(())) => {
                    let n = sets.len();
                    assert(k < n);
                    next_set(ctx, pos, sets, k + 1)
                },
                SigningEvent::JobQueued(Err(e)) => (BlockSigning::Done, SigningAction::Finish(Err(e))),
                SigningEvent::ProtocolFailed(e) => {
                    let reported = e.duplicate();
                    (BlockSigning::AwaitErrorReport { error: e }, SigningAction::ReportError(reported))
                },
                _ => {
                    proof {
                        assert(false);
                    }
                    (BlockSigning::Done, SigningAction::Finish(Ok(())))
                },
            }
        },
        BlockSigning::AwaitErrorReport { error } => (BlockSigning::Done, SigningAction::Finish(Err(error))),
        BlockSigning::Done => {
            proof {
                assert(false);
            }
            (BlockSigning::Done, SigningAction::Finish(Ok(())))
        },
    }
}

} // verus!
