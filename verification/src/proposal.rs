//! Proposals and their byte layout: resource ids, proposal headers and the
//! signed/unsigned proposal envelope.
use vstd::prelude::*;

verus! {

/// 32-byte identifier of a resource (a target system on a typed chain).
#[derive(Clone, Copy, Debug)]
pub struct ResourceId(pub [u8; 32]);

/// Whether two resource ids hold the same bytes.
pub fn resource_id_eq(a: &ResourceId, b: &ResourceId) -> (r: bool)
    ensures
        r == (*a == *b),
{
    let mut i: usize = 0;
    while i < 32
        invariant
            i <= 32,
            forall|j: int| 0 <= j < i ==> a.0[j] == b.0[j],
        decreases 32 - i,
    {
        if a.0[i] != b.0[i] {
            return false;
        }
        i = i + 1;
    }
    assert(a.0 =~= b.0);
    true
}

/// Kinds of proposals.
#[derive(PartialEq, Eq, Structural, Clone, Copy, Debug)]
pub enum ProposalKind {
    /// Refresh proposal for DKG rotation
    Refresh,
    /// Proposer set update for emergency fallback mechanism
    ProposerSetUpdate,
    /// EVM transaction proposal
    EVM,
    /// Anchor create proposal for linking anchors together
    AnchorCreate,
    /// Anchor update proposal for linking anchors together
    AnchorUpdate,
    /// Token add proposal
    TokenAdd,
    /// Token remove proposal
    TokenRemove,
    /// Wrapping fee update proposal
    WrappingFeeUpdate,
    /// Resource id update
    ResourceIdUpdate,
    /// Rescue tokens proposal
    RescueTokens,
    /// Max deposit limit update
    MaxDepositLimitUpdate,
    /// Min withdrawal limit update
    MinWithdrawalLimitUpdate,
    /// Set verifier proposal
    SetVerifier,
    /// Set treasury handler proposal
    SetTreasuryHandler,
    /// Fee recipient update
    FeeRecipientUpdate,
}

/// A proposal, signed by the DKG or still unsigned.
pub enum Proposal {
    Signed { kind: ProposalKind, data: Vec<u8>, signature: Vec<u8> },
    Unsigned { kind: ProposalKind, data: Vec<u8> },
}

impl Proposal {
    /// The proposal's kind.
    pub open spec fn spec_kind(&self) -> ProposalKind {
        match self {
            Proposal::Signed { kind, .. } => *kind,
            Proposal::Unsigned { kind, .. } => *kind,
        }
    }

    /// The proposal's bytes.
    pub open spec fn spec_data(&self) -> Seq<u8> {
        match self {
            Proposal::Signed { data, .. } => data@,
            Proposal::Unsigned { data, .. } => data@,
        }
    }

    /// The proposal's kind.
    pub fn kind(&self) -> (r: ProposalKind)
        ensures
            r == self.spec_kind(),
    {
        match self {
            Proposal::Signed { kind, .. } => *kind,
            Proposal::Unsigned { kind, .. } => *kind,
        }
    }

    /// The proposal's bytes.
    pub fn data(&self) -> (r: &Vec<u8>)
        ensures
            r@ == self.spec_data(),
    {
        match self {
            Proposal::Signed { data, .. } => data,
            Proposal::Unsigned { data, .. } => data,
        }
    }

    /// Whether the proposal carries a signature.
    pub fn is_signed(&self) -> (r: bool)
        ensures
            r == self is Signed,
    {
        match self {
            Proposal::Signed { .. } => true,
            Proposal::Unsigned { .. } => false,
        }
    }
}

/// A resource id whose bytes are `bytes[from..from + 32]` is the one `resource_id_at` names.
pub proof fn lemma_resource_id_at(bytes: Seq<u8>, from: int, a: [u8; 32])
    requires
        a@ == bytes.subrange(from, from + 32),
    ensures
        resource_id_at(bytes, from) == ResourceId(a),
{
    let c = choose|c: [u8; 32]| c@ == bytes.subrange(from, from + 32);
    assert(c@ == a@);
    assert forall|i: int| 0 <= i < 32 implies c[i] == a[i] by {
        assert(c@[i] == a@[i]);
    }
    assert(c =~= a);
}

/// Length in bytes of an anchor-update proposal: a 40-byte header, a 32-byte
/// merkle root and the 32-byte source resource id.
pub const ANCHOR_UPDATE_PROPOSAL_LENGTH: usize = 104;

/// The resource id held in `bytes[from..from + 32]`.
pub open spec fn resource_id_at(bytes: Seq<u8>, from: int) -> ResourceId {
    ResourceId(choose|a: [u8; 32]| a@ == bytes.subrange(from, from + 32))
}

/// Decodes an anchor-update proposal with
/// `webb_proposals::evm::AnchorUpdateProposal::from` and returns its target
/// resource id (`header().resource_id()`, bytes `0..32`) and its source
/// resource id (`src_resource_id()`, bytes `72..104`), as that crate's source
/// lays the proposal out.
#[verifier::external_body]
pub(crate) fn anchor_update_resource_ids(data: &[u8]) -> (r: (ResourceId, ResourceId))
    requires
        data@.len() == ANCHOR_UPDATE_PROPOSAL_LENGTH,
    ensures
        r.0.0@ == data@.subrange(0, 32),
        r.1.0@ == data@.subrange(72, 104),
{
    let mut buf = [0u8; webb_proposals::evm::AnchorUpdateProposal::LENGTH];
    buf.clone_from_slice(data);
    let proposal = webb_proposals::evm::AnchorUpdateProposal::from(buf);
    (ResourceId(proposal.header().resource_id().0), ResourceId(proposal.src_resource_id().0))
}

/// The header at the front of every proposal.
#[derive(Clone, Copy, Debug)]
pub struct ProposalHeader {
    pub resource_id: ResourceId,
    pub function_signature: [u8; 4],
    pub nonce: u32,
}

/// Big-endian value of four bytes.
pub open spec fn be_u32(b: Seq<u8>) -> int {
    b[0] * 0x1000000 + b[1] * 0x10000 + b[2] * 0x100 + b[3]
}

/// Decodes the 40-byte proposal header at the front of `data` with
/// `webb_proposals::ProposalHeader::from`: bytes `0..32` are the resource id,
/// `32..36` the function signature and `36..40` the big-endian nonce, as that
/// crate's source lays the header out.
#[verifier::external_body]
pub(crate) fn decode_proposal_header(data: &[u8]) -> (r: ProposalHeader)
    requires
        data@.len() >= 40,
    ensures
        r.resource_id.0@ == data@.subrange(0, 32),
        r.function_signature@ == data@.subrange(32, 36),
        r.nonce == be_u32(data@.subrange(36, 40)),
{
    let mut buf = [0u8; webb_proposals::ProposalHeader::LENGTH];
    buf.copy_from_slice(&data[0..webb_proposals::ProposalHeader::LENGTH]);
    let header = webb_proposals::ProposalHeader::from(buf);
    ProposalHeader {
        resource_id: ResourceId(header.resource_id().0),
        function_signature: header.function_signature().to_bytes(),
        nonce: header.nonce().to_u32(),
    }
}

} // verus!
