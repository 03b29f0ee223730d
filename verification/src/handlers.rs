//! Decoding of proposal payloads: EVM transaction proposals and
//! add-token-to-pool-share proposals.
use vstd::prelude::*;

pub mod evm_tx;
pub mod add_token_to_pool_share;

verus! {

/// Why a proposal payload was refused.
pub enum ValidationError {
    InvalidParameter(String),
    /// The payload is too short to hold what its kind of proposal holds.
    InvalidProposalBytesLength,
}

} // verus!
