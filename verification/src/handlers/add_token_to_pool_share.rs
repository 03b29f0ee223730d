//! Proposals adding a token to a pool share.
use vstd::prelude::*;
use crate::handlers::ValidationError;
use crate::proposal::{be_u32, decode_proposal_header, ProposalHeader};

verus! {

/// A proposal adding a token to a pool share: its header and the encoded call.
pub struct AddTokenProposal {
    pub header: ProposalHeader,
    pub encoded_call: Vec<u8>,
}

/// The big-endian `u32` of four bytes.
pub fn u32_from_be_bytes(b: [u8; 4]) -> (r: u32)
    ensures
        r == be_u32(b@),
{
    (b[0] as u32) * 0x1000000 + (b[1] as u32) * 0x10000 + (b[2] as u32) * 0x100 + (b[3] as u32)
}

/// Decodes an add-token proposal: a 40-byte header whose function signature
/// must be zero, followed by the encoded call. A payload shorter than the
/// header is refused.
pub fn create(data: &[u8]) -> (r: Result<AddTokenProposal, ValidationError>)
    ensures
        data@.len() < 40 ==> r matches Err(ValidationError::InvalidProposalBytesLength),
        data@.len() >= 40 && be_u32(data@.subrange(32, 36)) != 0 ==> (r matches Err(ValidationError::InvalidParameter(s))
            && s@ == "Function Sig should be zero"@),
        data@.len() >= 40 && be_u32(data@.subrange(32, 36)) == 0 ==> (r matches Ok(p) && {
            &&& p.header.resource_id.0@ == data@.subrange(0, 32)
            &&& p.header.function_signature@ == data@.subrange(32, 36)
            &&& p.header.nonce == be_u32(data@.subrange(36, 40))
            &&& p.encoded_call@ == data@.subrange(40, data@.len() as int)
        }),
{
    if data.len() < 40 {
        return Err(ValidationError::InvalidProposalBytesLength);
    }
    let header = decode_proposal_header(data);
    let zeroes = header.function_signature;
    proof {
        assert(zeroes@ =~= data@.subrange(32, 36));
    }
    if u32_from_be_bytes(zeroes) != 0 {
        return Err(ValidationError::InvalidParameter(String::from_str("Function Sig should be zero")));
    }
    let mut encoded_call: Vec<u8> = Vec::new();
    let mut i: usize = 40;
    while i < data.len()
        invariant
            40 <= i <= data@.len(),
            encoded_call@ == data@.subrange(40, i as int),
        decreases data@.len() - i,
    {
        encoded_call.push(data[i]);
        proof {
            assert(encoded_call@ =~= data@.subrange(40, i + 1));
        }
        i = i + 1;
    }
    Ok(AddTokenProposal { header, encoded_call })
}

} // verus!
