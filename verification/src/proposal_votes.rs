//! Votes of the proposers on a proposal, and how a vote count settles it.
use vstd::prelude::*;
use vstd::std_specs::cmp::{PartialEqSpec, PartialOrdSpec};
use core::cmp::Ordering;
use crate::utils::same;

verus! {

/// Threshold of proposer votes used when none is configured.
pub const DKG_DEFAULT_PROPOSER_THRESHOLD: u32 = 1;

/// Where a proposal stands.
#[derive(PartialEq, Eq, Structural, Clone, Copy, Debug)]
pub enum ProposalStatus {
    Initiated,
    Approved,
    Rejected,
}

/// The votes cast on a proposal, its status and the block at which it expires.
pub struct ProposalVotes<AccountId, BlockNumber> {
    pub votes_for: Vec<AccountId>,
    pub votes_against: Vec<AccountId>,
    pub status: ProposalStatus,
    pub expiry: BlockNumber,
}

/// Some element of `s` equals `who`.
pub open spec fn voted_in<A: PartialEq>(s: Seq<A>, who: A) -> bool {
    exists|i: int| 0 <= i < s.len() && same(#[trigger] s[i], who)
}

/// The status a tally settles on: approved once `threshold` votes are for it;
/// rejected once so many votes are against it that `threshold` can no longer
/// be reached among `total` proposers; otherwise still open.
pub open spec fn tally(votes_for: nat, votes_against: u32, threshold: u32, total: u32) -> ProposalStatus {
    if votes_for >= threshold {
        ProposalStatus::Approved
    } else if total >= threshold && votes_against + threshold > total {
        ProposalStatus::Rejected
    } else {
        ProposalStatus::Initiated
    }
}

/// How a tally settles: approved exactly when `threshold` votes are for it;
/// otherwise rejected exactly when approval has become unreachable (at least
/// `threshold` proposers exist and more than `total - threshold` voted
/// against), and still open while the proposers who have not voted against
/// can still reach the threshold.
pub proof fn lemma_tally_settles(votes_for: nat, votes_against: u32, threshold: u32, total: u32)
    ensures
        (tally(votes_for, votes_against, threshold, total) == ProposalStatus::Approved) <==> votes_for >= threshold,
        votes_for < threshold ==> ((tally(votes_for, votes_against, threshold, total) == ProposalStatus::Rejected)
            <==> (total >= threshold && votes_against + threshold > total)),
        votes_for < threshold && total >= votes_against && total - votes_against >= threshold ==> tally(
            votes_for,
            votes_against,
            threshold,
            total,
        ) == ProposalStatus::Initiated,
        votes_for < threshold && total < threshold ==> tally(votes_for, votes_against, threshold, total)
            == ProposalStatus::Initiated,
{
}

fn contains_voter<A: PartialEq>(s: &Vec<A>, who: &A) -> (r: bool)
    ensures
        A::obeys_eq_spec() ==> r == voted_in(s@, *who),
{
    let mut i: usize = 0;
    while i < s.len()
        invariant
            i <= s@.len(),
            A::obeys_eq_spec() ==> forall|j: int| 0 <= j < i ==> !same(#[trigger] s@[j], *who),
        decreases s@.len() - i,
    {
        if s[i] == *who {
            return true;
        }
        i = i + 1;
    }
    false
}

impl<A: PartialEq, B: PartialOrd> ProposalVotes<A, B> {
    /// Attempts to mark the proposal as approved or rejected, and returns the
    /// status the tally settles on (`Initiated` when it settles on nothing, in
    /// which case the status is left as it was).
    pub fn try_to_complete(&mut self, threshold: u32, total: u32) -> (r: ProposalStatus)
        requires
            old(self).votes_for@.len() < threshold && total >= threshold ==> (old(
                self,
            ).votes_against@.len() as u32) + threshold <= u32::MAX,
        ensures
            r == tally(
                old(self).votes_for@.len(),
                old(self).votes_against@.len() as u32,
                threshold,
                total,
            ),
            final(self).status == (if r == ProposalStatus::Initiated {
                old(self).status
            } else {
                r
            }),
            final(self).votes_for == old(self).votes_for,
            final(self).votes_against == old(self).votes_against,
            final(self).expiry == old(self).expiry,
            old(self).status != ProposalStatus::Initiated ==> final(self).status
                != ProposalStatus::Initiated,
            r != ProposalStatus::Initiated ==> final(self).status == r,
    {
        if self.votes_for.len() >= threshold as usize {
            self.status = ProposalStatus::Approved;
            ProposalStatus::Approved
        } else if total >= threshold && self.votes_against.len() as u32 + threshold > total {
            self.status = ProposalStatus::Rejected;
            ProposalStatus::Rejected
        } else {
            ProposalStatus::Initiated
        }
    }

    /// Whether the proposal has been approved or rejected.
    pub fn is_complete(&self) -> (r: bool)
        ensures
            r == (self.status != ProposalStatus::Initiated),
    {
        self.status != ProposalStatus::Initiated
    }

    /// Whether `who` has voted for or against the proposal.
    pub fn has_voted(&self, who: &A) -> (r: bool)
        ensures
            A::obeys_eq_spec() ==> r == (voted_in(self.votes_for@, *who) || voted_in(
                self.votes_against@,
                *who,
            )),
    {
        contains_voter(&self.votes_for, who) || contains_voter(&self.votes_against, who)
    }

    /// Whether the expiry block has been reached at block `now`.
    pub fn is_expired(&self, now: B) -> (r: bool)
        ensures
            B::obeys_partial_cmp_spec() ==> (r <==> self.expiry.partial_cmp_spec(&now) matches Some(
                Ordering::Less
                | Ordering::Equal,
            )),
    {
        self.expiry <= now
    }
}

impl<A, B: Default> Default for ProposalVotes<A, B> {
    /// A proposal with no votes, still open, expiring at `B`'s default block.
    fn default() -> (r: Self)
        ensures
            r.votes_for@.len() == 0,
            r.votes_against@.len() == 0,
            r.status == ProposalStatus::Initiated,
            call_ensures(B::default, (), r.expiry),
    {
        ProposalVotes {
            votes_for: Vec::new(),
            votes_against: Vec::new(),
            status: ProposalStatus::Initiated,
            expiry: B::default(),
        }
    }
}

} // verus!
