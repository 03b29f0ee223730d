//! Metadata of DKG rounds.
use vstd::prelude::*;

verus! {

/// The public keys of the current and next rounds, and the signature that
/// refreshes the one into the other.
#[derive(Clone)]
pub struct RoundMetadata {
    pub curr_round_pub_key: Vec<u8>,
    pub next_round_pub_key: Vec<u8>,
    pub refresh_signature: Vec<u8>,
}

impl Default for RoundMetadata {
    /// Metadata with every key and the signature empty.
    fn default() -> (r: Self)
        ensures
            r.curr_round_pub_key@.len() == 0,
            r.next_round_pub_key@.len() == 0,
            r.refresh_signature@.len() == 0,
    {
        RoundMetadata {
            curr_round_pub_key: Vec::new(),
            next_round_pub_key: Vec::new(),
            refresh_signature: Vec::new(),
        }
    }
}

/// Different types of aggregated public key.
pub enum AggregatedPublicKeyType {
    /// The aggregated public keys on chain at genesis.
    AggregatedPublicKeysAtGenesis,
    /// The next aggregated public keys on chain.
    AggregatedPublicKeys,
}

} // verus!
