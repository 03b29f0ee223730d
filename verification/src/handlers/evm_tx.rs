//! EVM transaction proposals.
use vstd::prelude::*;
use crate::handlers::ValidationError;

verus! {

#[verifier::external_type_specification]
#[verifier::external_body]
pub struct ExTransactionV2(ethereum::TransactionV2);

/// The kind of an Ethereum transaction, with the chain id that the typed
/// kinds carry.
#[derive(PartialEq, Eq, Structural, Clone, Copy, Debug)]
pub enum EvmTxKind {
    Legacy,
    EIP2930 { chain_id: u64 },
    EIP1559 { chain_id: u64 },
}

/// What the proposal logic reads of a decoded Ethereum transaction: its kind
/// (and chain id) and the 256-bit nonce as four little-endian 64-bit limbs.
#[derive(Clone, Copy, Debug)]
pub struct EvmTxFields {
    pub kind: EvmTxKind,
    pub nonce: [u64; 4],
}

/// The transaction that SCALE-decoding `data` as an `ethereum::TransactionV2`
/// yields, if it decodes.
pub uninterp spec fn decoded_evm_transaction(data: Seq<u8>) -> Option<EvmTxFields>;

/// Decodes `data` with `<ethereum::TransactionV2 as parity_scale_codec::Decode>::decode`
/// and reads its kind, chain id and nonce. The contract names the decoding and
/// claims nothing more about it.
#[verifier::external_body]
fn decode_transaction(data: &[u8]) -> (r: Option<(ethereum::TransactionV2, EvmTxFields)>)
    ensures
        r is Some <==> decoded_evm_transaction(data@) is Some,
        r matches Some(p) ==> p.1 == decoded_evm_transaction(data@).unwrap(),
{
    let tx = <ethereum::TransactionV2 as parity_scale_codec::Decode>::decode(&mut &*data).ok()?;
    let fields = match &tx {
        ethereum::TransactionV2::Legacy(t) => EvmTxFields { kind: EvmTxKind::Legacy, nonce: t.nonce.0 },
        ethereum::TransactionV2::EIP2930(t) => EvmTxFields {
            kind: EvmTxKind::EIP2930 { chain_id: t.chain_id },
            nonce: t.nonce.0,
        },
        ethereum::TransactionV2::EIP1559(t) => EvmTxFields {
            kind: EvmTxKind::EIP1559 { chain_id: t.chain_id },
            nonce: t.nonce.0,
        },
    };
    Some((tx, fields))
}

/// An EVM transaction proposal.
pub struct EvmTxProposal {
    pub chain_id: u32,
    pub nonce: u32,
    pub tx: ethereum::TransactionV2,
}

/// The nonce fits in 32 bits.
pub open spec fn nonce_fits_u32(nonce: [u64; 4]) -> bool {
    nonce[1] == 0 && nonce[2] == 0 && nonce[3] == 0 && nonce[0] <= u32::MAX
}

/// The chain id of the transaction, if it carries one.
pub open spec fn chain_id_of(kind: EvmTxKind) -> Option<u64> {
    match kind {
        EvmTxKind::Legacy => None,
        EvmTxKind::EIP2930 { chain_id } => Some(chain_id),
        EvmTxKind::EIP1559 { chain_id } => Some(chain_id),
    }
}

/// The chain id of the transaction fits in 32 bits (a legacy one has none).
pub open spec fn chain_id_fits(f: EvmTxFields) -> bool {
    match chain_id_of(f.kind) {
        Some(c) => c <= u32::MAX,
        None => true,
    }
}

/// The chain id a proposal records: the transaction's, `0` for a legacy one.
pub open spec fn proposal_chain_id(f: EvmTxFields) -> u32 {
    match chain_id_of(f.kind) {
        Some(c) => c as u32,
        None => 0,
    }
}

/// Every transaction kind is accepted.
pub fn validate_ethereum_tx(tx: &EvmTxFields) -> (r: bool)
    ensures
        r,
{
    match tx.kind {
        EvmTxKind::Legacy => true,
        EvmTxKind::EIP2930 { .. } => true,
        EvmTxKind::EIP1559 { .. } => true,
    }
}

/// The chain id as a `u32`, or the error for one that does not fit.
fn chain_id_u32(chain_id: u64) -> (r: Result<u32, ValidationError>)
    ensures
        chain_id <= u32::MAX ==> r == Ok::<u32, ValidationError>(chain_id as u32),
        chain_id > u32::MAX ==> (r matches Err(ValidationError::InvalidParameter(s)) && s@
            == "Invalid chain id (could not fit into u32)"@),
{
    if chain_id > u32::MAX as u64 {
        return Err(ValidationError::InvalidParameter(String::from_str("Invalid chain id (could not fit into u32)")));
    }
    Ok(chain_id as u32)
}

/// The chain id (`0` for a legacy transaction) and the nonce of a transaction,
/// or an error when its chain id does not fit in 32 bits.
pub fn decode_evm_transaction(tx: &EvmTxFields) -> (r: Result<(u32, u32), ValidationError>)
    requires
        chain_id_fits(*tx) ==> nonce_fits_u32(tx.nonce),
    ensures
        chain_id_fits(*tx) ==> r == Ok::<(u32, u32), ValidationError>((proposal_chain_id(*tx), tx.nonce[0] as u32)),
        !chain_id_fits(*tx) ==> (r matches Err(ValidationError::InvalidParameter(s)) && s@
            == "Invalid chain id (could not fit into u32)"@),
{
    let chain_id: u32 = match tx.kind {
        EvmTxKind::Legacy => 0,
        EvmTxKind::EIP2930 { chain_id } => chain_id_u32(chain_id)?,
        EvmTxKind::EIP1559 { chain_id } => chain_id_u32(chain_id)?,
    };
    let nonce = tx.nonce[0] as u32;
    Ok((chain_id, nonce))
}

/// The transaction `f` has a nonce that fits in 32 bits wherever its chain id
/// does: reading a larger nonce as a `u32` is refused by its number type.
pub open spec fn nonce_readable(f: EvmTxFields) -> bool {
    chain_id_fits(f) ==> nonce_fits_u32(f.nonce)
}

/// What `create` makes of the decoded transaction `f`: its chain id and nonce,
/// or the reason for refusing it.
pub open spec fn evm_tx_outcome(f: EvmTxFields) -> Result<(u32, u32), Seq<char>> {
    if !chain_id_fits(f) {
        Err("Invalid chain id (could not fit into u32)"@)
    } else {
        Ok((proposal_chain_id(f), f.nonce[0] as u32))
    }
}

/// A proposal records the chain its transaction targets: a typed (EIP-2930
/// or EIP-1559) transaction whose chain id fits in 32 bits gives that chain id,
/// a legacy one gives `0`; the nonce is the transaction's; and a typed one
/// whose chain id does not fit is refused. This is what
/// `decode_evm_transaction` reads of the same transaction.
pub proof fn lemma_proposal_keeps_chain_and_nonce(f: EvmTxFields)
    requires
        nonce_readable(f),
    ensures
        f.kind is Legacy ==> evm_tx_outcome(f) == Ok::<(u32, u32), Seq<char>>((0u32, f.nonce[0] as u32)),
        f.kind matches EvmTxKind::EIP2930 { chain_id } ==> (if chain_id <= u32::MAX {
            evm_tx_outcome(f) == Ok::<(u32, u32), Seq<char>>((chain_id as u32, f.nonce[0] as u32))
        } else {
            evm_tx_outcome(f) is Err
        }),
        f.kind matches EvmTxKind::EIP1559 { chain_id } ==> (if chain_id <= u32::MAX {
            evm_tx_outcome(f) == Ok::<(u32, u32), Seq<char>>((chain_id as u32, f.nonce[0] as u32))
        } else {
            evm_tx_outcome(f) is Err
        }),
{
}

/// Builds the proposal from a decoded transaction and what was read of it.
pub fn evm_tx_proposal_from(tx: ethereum::TransactionV2, fields: EvmTxFields) -> (r: Result<
    EvmTxProposal,
    ValidationError,
>)
    requires
        nonce_readable(fields),
    ensures
        match evm_tx_outcome(fields) {
            Ok((c, n)) => r matches Ok(p) && p.chain_id == c && p.nonce == n && p.tx == tx,
            Err(msg) => r matches Err(ValidationError::InvalidParameter(s)) && s@ == msg,
        },
{
    if !validate_ethereum_tx(&fields) {
        return Err(ValidationError::InvalidParameter(String::from_str("Ethereum transaction is invalid")));
    }
    let (chain_id, nonce) = decode_evm_transaction(&fields)?;
    Ok(EvmTxProposal { chain_id, nonce, tx })
}

/// Decodes an EVM transaction proposal from its payload.
pub fn create(data: &[u8]) -> (r: Result<EvmTxProposal, ValidationError>)
    requires
        decoded_evm_transaction(data@) matches Some(f) ==> nonce_readable(f),
    ensures
        match decoded_evm_transaction(data@) {
            None => r matches Err(ValidationError::InvalidParameter(s)) && s@ == "Invalid transaction"@,
            Some(f) => match evm_tx_outcome(f) {
                Ok((c, n)) => r matches Ok(p) && p.chain_id == c && p.nonce == n,
                Err(msg) => r matches Err(ValidationError::InvalidParameter(s)) && s@ == msg,
            },
        },
{
    match decode_transaction(data) {
        None => Err(ValidationError::InvalidParameter(String::from_str("Invalid transaction"))),
        Some((tx, fields)) => evm_tx_proposal_from(tx, fields),
    }
}

/// `create` on payloads of every kind: `None` when the payload decodes to a
/// transaction whose nonce cannot be read as a `u32` (where `create` does not
/// apply), otherwise what `create` gives.
pub fn try_create(data: &[u8]) -> (r: Option<Result<EvmTxProposal, ValidationError>>)
    ensures
        match decoded_evm_transaction(data@) {
            None => r matches Some(Err(ValidationError::InvalidParameter(s))) && s@ == "Invalid transaction"@,
            Some(f) => if !nonce_readable(f) {
                r is None
            } else {
                match evm_tx_outcome(f) {
                    Ok((c, n)) => r matches Some(Ok(p)) && p.chain_id == c && p.nonce == n,
                    Err(msg) => r matches Some(Err(ValidationError::InvalidParameter(s))) && s@ == msg,
                }
            },
        },
{
    match decode_transaction(data) {
        Some((_, fields)) => {
            let fits = match fields.kind {
                EvmTxKind::Legacy => true,
                EvmTxKind::EIP2930 { chain_id } | EvmTxKind::EIP1559 { chain_id } => chain_id <= u32::MAX as u64,
            };
            if fits && !(fields.nonce[1] == 0 && fields.nonce[2] == 0 && fields.nonce[3] == 0
                && fields.nonce[0] <= u32::MAX as u64) {
                return None;
            }
        },
        None => {},
    }
    Some(create(data))
}

/// The 65-byte recoverable signature `r || s || v` that secp256k1 public-key
/// recovery takes.
pub fn recovery_signature(sig_r: &[u8; 32], sig_s: &[u8; 32], sig_v: u8) -> (r: [u8; 65])
    ensures
        r@ == sig_r@ + sig_s@ + seq![sig_v],
{
    let mut sig = [0u8; 65];
    let mut i: usize = 0;
    while i < 32
        invariant
            i <= 32,
            forall|k: int| 0 <= k < i ==> sig@[k] == sig_r@[k],
        decreases 32 - i,
    {
        sig[i] = sig_r[i];
        i = i + 1;
    }
    let mut j: usize = 0;
    while j < 32
        invariant
            j <= 32,
            forall|k: int| 0 <= k < 32 ==> sig@[k] == sig_r@[k],
            forall|k: int| 0 <= k < j ==> sig@[32 + k] == sig_s@[k],
        decreases 32 - j,
    {
        sig[32 + j] = sig_s[j];
        j = j + 1;
    }
    sig[64] = sig_v;
    proof {
        assert(sig@ =~= sig_r@ + sig_s@ + seq![sig_v]);
    }
    sig
}

} // verus!
