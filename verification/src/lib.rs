//! Verified core of a threshold-ECDSA distributed key generation system.
use vstd::prelude::*;

pub mod utils;
pub mod storage;
pub mod proposal;
pub mod bridge_registry;
pub mod proposal_votes;
pub mod work_manager;
pub mod signing;
pub mod block_signing;
pub mod offline;
pub mod handlers;
pub mod metadata;
pub mod weights;

verus! {

} // verus!
