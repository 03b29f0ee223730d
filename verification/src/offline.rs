//! Decisions of the offline stage of threshold signing: buffering messages
//! before the stage starts, screening incoming messages, classifying
//! failures, and detecting a timed-out stage.
use vstd::prelude::*;

verus! {

/// Identifier of a signer set.
pub type SignerSetId = u64;

/// Errors of the DKG protocols.
#[derive(Clone, Debug)]
pub enum DKGError {
    GenericError { reason: String },
    OfflineMisbehaviour { bad_actors: Vec<u16> },
    OfflineTimeout { bad_actors: Vec<u16> },
    CriticalError { reason: String },
    CreateOfflineStage { reason: String },
}

impl DKGError {
    /// `self` and `other` are the same error: the same variant, with the same
    /// reason or the same parties.
    pub open spec fn same_as(&self, other: &DKGError) -> bool {
        match (self, other) {
            (DKGError::GenericError { reason: a }, DKGError::GenericError { reason: b }) => a@ == b@,
            (DKGError::OfflineMisbehaviour { bad_actors: a }, DKGError::OfflineMisbehaviour { bad_actors: b }) => a@
                == b@,
            (DKGError::OfflineTimeout { bad_actors: a }, DKGError::OfflineTimeout { bad_actors: b }) => a@ == b@,
            (DKGError::CriticalError { reason: a }, DKGError::CriticalError { reason: b }) => a@ == b@,
            (DKGError::CreateOfflineStage { reason: a }, DKGError::CreateOfflineStage { reason: b }) => a@ == b@,
            _ => false,
        }
    }

    /// A copy of the error.
    pub fn duplicate(&self) -> (r: DKGError)
        ensures
            r.same_as(self),
    {
        match self {
            DKGError::GenericError { reason } => DKGError::GenericError { reason: reason.clone() },
            DKGError::OfflineMisbehaviour { bad_actors } => {
                let copy = bad_actors.clone();
                proof {
                    assert(copy@ =~= bad_actors@);
                }
                DKGError::OfflineMisbehaviour { bad_actors: copy }
            },
            DKGError::OfflineTimeout { bad_actors } => {
                let copy = bad_actors.clone();
                proof {
                    assert(copy@ =~= bad_actors@);
                }
                DKGError::OfflineTimeout { bad_actors: copy }
            },
            DKGError::CriticalError { reason } => DKGError::CriticalError { reason: reason.clone() },
            DKGError::CreateOfflineStage { reason } => DKGError::CreateOfflineStage { reason: reason.clone() },
        }
    }
}

/// A message of the offline stage, addressed to the stage with `key`.
#[derive(Clone, Debug)]
pub struct DKGOfflineMessage {
    pub key: Vec<u8>,
    pub signer_set_id: SignerSetId,
    /// The serialized protocol message.
    pub offline_msg: Vec<u8>,
}

/// Offline messages received before the offline stage has started.
pub struct PreOfflineRounds {
    signer_set_id: SignerSetId,
    pending_offline_msgs: Vec<DKGOfflineMessage>,
}

impl PreOfflineRounds {
    /// The signer set the buffered messages belong to.
    pub closed spec fn spec_signer_set_id(&self) -> SignerSetId {
        self.signer_set_id
    }

    /// The buffered messages, oldest first.
    pub closed spec fn pending(&self) -> Seq<DKGOfflineMessage> {
        self.pending_offline_msgs@
    }

    /// An empty buffer for `signer_set_id`.
    pub fn new(signer_set_id: SignerSetId) -> (r: Self)
        ensures
            r.spec_signer_set_id() == signer_set_id,
            r.pending() == Seq::<DKGOfflineMessage>::empty(),
    {
        PreOfflineRounds { signer_set_id, pending_offline_msgs: Vec::new() }
    }

    /// Buffers `data`.
    pub fn handle_incoming(&mut self, data: DKGOfflineMessage) -> (r: Result<(), DKGError>)
        ensures
            r is Ok,
            final(self).pending() == old(self).pending().push(data),
            final(self).spec_signer_set_id() == old(self).spec_signer_set_id(),
    {
        self.pending_offline_msgs.push(data);
        Ok(())
    }

    /// Buffering is always complete.
    pub fn is_finished(&self) -> (r: bool)
        ensures
            r,
    {
        true
    }

    /// Hands over the buffered messages, oldest first.
    pub fn try_finish(self) -> (r: Result<Vec<DKGOfflineMessage>, DKGError>)
        ensures
            r matches Ok(msgs) && msgs@ == self.pending(),
    {
        Ok(self.pending_offline_msgs)
    }
}

/// Party indices as `u16`, each cast from its `usize`.
pub fn vec_usize_to_u16(v: &Vec<usize>) -> (r: Vec<u16>)
    ensures
        r@.len() == v@.len(),
        forall|i: int| 0 <= i < v@.len() ==> #[trigger] r@[i] == v@[i] as u16,
{
    let mut out: Vec<u16> = Vec::new();
    let mut i: usize = 0;
    while i < v.len()
        invariant
            i <= v@.len(),
            out@.len() == i,
            forall|k: int| 0 <= k < i ==> #[trigger] out@[k] == v@[k] as u16,
        decreases v@.len() - i,
    {
        out.push(v[i] as u16);
        i = i + 1;
    }
    out
}

/// Why proceeding the offline stage failed, as its round reports it.
#[derive(Clone, Debug)]
pub enum OfflineProceedError {
    /// A round that names the parties that misbehaved.
    Round1 { bad_actors: Vec<usize> },
    Round2Stage4 { bad_actors: Vec<usize> },
    Round3 { bad_actors: Vec<usize> },
    Round5 { bad_actors: Vec<usize> },
    Round6VerifyProof { bad_actors: Vec<usize> },
    /// Another failure of a round, with its description.
    OtherRound { reason: String },
    /// A failure outside the rounds, with its description.
    Other { reason: String },
}

/// The DKG error reported for a failure to proceed the offline stage:
/// misbehaviour of the named parties when a round names them, otherwise a
/// generic error carrying the failure's description.
pub fn proceed_error_to_dkg_error(err: OfflineProceedError) -> (r: DKGError)
    ensures
        match err {
            OfflineProceedError::Round1 { bad_actors }
            | OfflineProceedError::Round2Stage4 { bad_actors }
            | OfflineProceedError::Round3 { bad_actors }
            | OfflineProceedError::Round5 { bad_actors }
            | OfflineProceedError::Round6VerifyProof { bad_actors } => r matches DKGError::OfflineMisbehaviour { bad_actors: b } && b@.len() == bad_actors@.len()
                && forall|i: int| 0 <= i < b@.len() ==> #[trigger] b@[i] == bad_actors@[i] as u16,
            OfflineProceedError::OtherRound { reason } | OfflineProceedError::Other { reason } =>
                r matches DKGError::GenericError { reason: s } && s@ == reason@,
        },
{
    match err {
        OfflineProceedError::Round1 { bad_actors }
        | OfflineProceedError::Round2Stage4 { bad_actors }
        | OfflineProceedError::Round3 { bad_actors }
        | OfflineProceedError::Round5 { bad_actors }
        | OfflineProceedError::Round6VerifyProof { bad_actors } => DKGError::OfflineMisbehaviour {
            bad_actors: vec_usize_to_u16(&bad_actors),
        },
        OfflineProceedError::OtherRound { reason } | OfflineProceedError::Other { reason } =>
            DKGError::GenericError { reason },
    }
}

/// What follows an attempt to proceed the offline stage: `Ok(true)` once the
/// stage has finished; otherwise, past the timeout (`at` is more than `timeout`
/// blocks after `started_at`, `0` when unknown), a timeout blaming the parties
/// still awaited, if any; otherwise `Ok(false)`.
pub fn offline_stage_progress(
    finished: bool,
    at: u64,
    started_at: Option<u64>,
    timeout: u64,
    blame_vec: Vec<u16>,
) -> (r: Result<bool, DKGError>)
    requires
        !finished ==> at >= (match started_at {
            Some(s) => s,
            None => 0,
        }),
    ensures
        ({
            let start = match started_at {
                Some(s) => s,
                None => 0u64,
            };
            if finished {
                r == Ok::<bool, DKGError>(true)
            } else if at - start > timeout && blame_vec@.len() > 0 {
                r matches Err(DKGError::OfflineTimeout { bad_actors }) && bad_actors@ == blame_vec@
            } else {
                r == Ok::<bool, DKGError>(false)
            }
        }),
{
    if finished {
        return Ok(true);
    }
    let start = match started_at {
        Some(s) => s,
        None => 0,
    };
    if at - start > timeout {
        if blame_vec.len() > 0 {
            return Err(DKGError::OfflineTimeout { bad_actors: blame_vec });
        }
    }
    Ok(false)
}

/// The outgoing offline messages for the stage with `key`: one per serialized
/// protocol message, in order.
pub fn outgoing_offline_messages(key: &Vec<u8>, signer_set_id: SignerSetId, serialized: Vec<Vec<u8>>) -> (r: Vec<
    DKGOfflineMessage,
>)
    ensures
        r@.len() == serialized@.len(),
        forall|i: int|
            0 <= i < r@.len() ==> {
                &&& (#[trigger] r@[i]).key@ == key@
                &&& r@[i].signer_set_id == signer_set_id
                &&& r@[i].offline_msg == serialized@[i]
            },
{
    let ghost orig = serialized@;
    let mut rest = serialized;
    let mut out: Vec<DKGOfflineMessage> = Vec::new();
    while rest.len() > 0
        invariant
            out@.len() + rest@.len() == orig.len(),
            rest@ == orig.skip(out@.len() as int),
            forall|i: int|
                0 <= i < out@.len() ==> {
                    &&& (#[trigger] out@[i]).key@ == key@
                    &&& out@[i].signer_set_id == signer_set_id
                    &&& out@[i].offline_msg == orig[i]
                },
        decreases rest@.len(),
    {
        let ghost n: int = out@.len() as int;
        let m = rest.remove(0);
        proof {
            assert(m == orig[n]);
            assert(rest@ =~= orig.skip(n + 1));
        }
        out.push(DKGOfflineMessage { key: key.clone(), signer_set_id, offline_msg: m });
    }
    out
}

/// The first screening of an incoming offline message: `Err` when it belongs
/// to another signer set; `Ok(false)` when it is to be ignored (no stage for
/// its key, or an empty payload); `Ok(true)` when its payload is to be decoded.
pub fn screen_offline_message(data: &DKGOfflineMessage, signer_set_id: SignerSetId, has_stage: bool) -> (r:
    Result<bool, DKGError>)
    ensures
        data.signer_set_id != signer_set_id ==> (r matches Err(DKGError::GenericError { reason })
            && reason@ == "Signer set ids do not match"@),
        data.signer_set_id == signer_set_id ==> r == Ok::<bool, DKGError>(
            has_stage && data.offline_msg@.len() > 0,
        ),
{
    if data.signer_set_id != signer_set_id {
        return Err(DKGError::GenericError { reason: String::from_str("Signer set ids do not match") });
    }
    if !has_stage {
        return Ok(false);
    }
    if data.offline_msg.len() == 0 {
        return Ok(false);
    }
    Ok(true)
}

/// The error reported when an incoming payload cannot be decoded.
pub fn offline_decode_error() -> (r: DKGError)
    ensures
        r matches DKGError::GenericError { reason } && reason@ == "Error deserializing offline msg"@,
{
    DKGError::GenericError { reason: String::from_str("Error deserializing offline msg") }
}

/// Whether party `party_ind` takes in a decoded message from `sender` to
/// `receiver` (`None` for a broadcast): messages addressed to another party,
/// and broadcasts it sent itself, are ignored.
pub fn offline_message_is_for_party(party_ind: u16, sender: u16, receiver: Option<u16>) -> (r: bool)
    ensures
        r == !(Some(party_ind) != receiver && (receiver is Some || sender == party_ind)),
{
    let addressed_elsewhere = match receiver {
        Some(to) => to != party_ind,
        None => sender == party_ind,
    };
    !addressed_elsewhere
}

/// What the stage's handling of a message amounts to: `handled` is `None` on
/// success and `Some(critical)` on an error; only a critical error is reported.
pub fn offline_handling_outcome(handled: Option<bool>) -> (r: Result<(), DKGError>)
    ensures
        handled == Some(true) ==> (r matches Err(DKGError::CriticalError { reason }) && reason@
            == "Offline critical error encountered"@),
        handled != Some(true) ==> r is Ok,
{
    match handled {
        Some(true) => Err(
            DKGError::CriticalError { reason: String::from_str("Offline critical error encountered") },
        ),
        _ => Ok(()),
    }
}

} // verus!
