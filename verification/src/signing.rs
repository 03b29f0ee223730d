//! Signing sets: which authorities take part in signing a proposal.
use vstd::prelude::*;
use std::collections::HashSet;
use vstd::std_specs::iter::IteratorSpec;
use crate::work_manager::{ProposalHash, WorkManager};

verus! {

broadcast use vstd::std_specs::hash::group_hash_axioms;

/// Index of a party in the keygen/signing protocol.
pub type KeygenPartyId = u16;

/// A proposed set of signers for one signing-set id.
pub struct ProposedSigningSet {
    pub ssid: u8,
    pub signing_set: HashSet<KeygenPartyId>,
}

/// The sequence is strictly increasing.
pub open spec fn strictly_increasing(s: Seq<u16>) -> bool {
    forall|i: int, j: int| 0 <= i < j < s.len() ==> s[i] < s[j]
}

fn set_elements(set: &HashSet<u16>) -> (r: Vec<u16>)
    ensures
        r@.no_duplicates(),
        r@.to_set() == set@,
{
    let mut items: Vec<u16> = Vec::new();
    let ghost keys = vstd::std_specs::hash::spec_hash_keys_iter(set).remaining();
    for x in it: set.iter()
        invariant
            it.seq() == keys,
            items@.len() == it.index(),
            forall|i: int| 0 <= i < it.index() ==> items@[i] == *it.seq()[i],
    {
        items.push(*x);
    }
    proof {
        assert(items@ =~= keys.unref());
    }
    items
}


/// Inserts `x`, which `v` lacks, into the strictly increasing `v`.
fn insert_sorted(v: &mut Vec<u16>, x: u16)
    requires
        strictly_increasing(old(v)@),
        !old(v)@.contains(x),
    ensures
        strictly_increasing(final(v)@),
        final(v)@.to_set() == old(v)@.to_set().insert(x),
        final(v)@.len() == old(v)@.len() + 1,
{
    let mut p: usize = 0;
    while p < v.len() && v[p] < x
        invariant
            p <= v@.len(),
            forall|k: int| 0 <= k < p ==> v@[k] < x,
        decreases v@.len() - p,
    {
        p = p + 1;
    }
    let ghost before = v@;
    v.insert(p, x);
    proof {
        assert(v@ =~= before.insert(p as int, x));
        assert forall|i: int, j: int| 0 <= i < j < v@.len() implies v@[i] < v@[j] by {
            if p < before.len() {
                assert(before[p as int] >= x);
                assert(before[p as int] != x);
            }
            if i < p && j > p {
                assert(v@[i] == before[i]);
                assert(v@[j] == before[j - 1]);
            }
        }
        assert forall|y: u16| #[trigger] v@.to_set().contains(y) == before.to_set().insert(x).contains(y) by {
            if v@.contains(y) {
                let k = choose|k: int| 0 <= k < v@.len() && v@[k] == y;
                if k < p {
                    assert(before[k] == y);
                } else if k > p {
                    assert(before[k - 1] == y);
                }
            }
            if before.contains(y) {
                let k = choose|k: int| 0 <= k < before.len() && before[k] == y;
                if k < p {
                    assert(v@[k] == y);
                } else {
                    assert(v@[k + 1] == y);
                }
            }
            if y == x {
                assert(v@[p as int] == x);
            }
        }
        assert(v@.to_set() =~= before.to_set().insert(x));
    }
}

/// The elements of `s`, strictly increasing.
fn sort_distinct(s: &Vec<u16>) -> (r: Vec<u16>)
    requires
        s@.no_duplicates(),
    ensures
        strictly_increasing(r@),
        r@.to_set() == s@.to_set(),
{
    let mut r: Vec<u16> = Vec::new();
    let mut i: usize = 0;
    proof {
        assert(r@.to_set() =~= s@.take(0).to_set());
    }
    while i < s.len()
        invariant
            s@.no_duplicates(),
            i <= s@.len(),
            strictly_increasing(r@),
            r@.to_set() == s@.take(i as int).to_set(),
        decreases s@.len() - i,
    {
        let x = s[i];
        proof {
            assert(!s@.take(i as int).contains(x)) by {
                if s@.take(i as int).contains(x) {
                    let k = choose|k: int| 0 <= k < i && s@.take(i as int)[k] == x;
                    assert(s@[k] == s@[i as int]);
                }
            }
            assert(!r@.contains(x)) by {
                if r@.contains(x) {
                    assert(r@.to_set().contains(x));
                }
            }
        }
        insert_sorted(&mut r, x);
        proof {
            Seq::lemma_to_set_insert_commutes(s@.take(i as int), x);
            assert(s@.take(i + 1) =~= s@.take(i as int) + seq![x]);
        }
        i = i + 1;
    }
    proof {
        assert(s@.take(i as int) =~= s@);
    }
    r
}

impl ProposedSigningSet {
    /// The signing set `signers` under signing-set id `ssid`.
    pub fn from_signers(ssid: u8, signers: &Vec<KeygenPartyId>) -> (r: ProposedSigningSet)
        ensures
            r.ssid == ssid,
            r.signing_set@ == signers@.to_set(),
    {
        let mut set: HashSet<u16> = HashSet::new();
        let mut i: usize = 0;
        while i < signers.len()
            invariant
                i <= signers@.len(),
                set@ == signers@.take(i as int).to_set(),
            decreases signers@.len() - i,
        {
            set.insert(signers[i]);
            proof {
                Seq::lemma_to_set_insert_commutes(signers@.take(i as int), signers@[i as int]);
                assert(signers@.take(i + 1) =~= signers@.take(i as int) + seq![signers@[i as int]]);
            }
            i = i + 1;
        }
        proof {
            assert(signers@.take(i as int) =~= signers@);
        }
        ProposedSigningSet { ssid, signing_set: set }
    }

    /// The signers in increasing order.
    pub fn into_ordered_vec(self) -> (r: Vec<KeygenPartyId>)
        ensures
            strictly_increasing(r@),
            r@.to_set() == self.signing_set@,
    {
        let items = set_elements(&self.signing_set);
        sort_distinct(&items)
    }

    /// Whether `self` and `other` propose the same signers (whatever their ids).
    pub fn same_signing_set(&self, other: &ProposedSigningSet) -> (r: bool)
        ensures
            r == (self.signing_set@ == other.signing_set@),
    {
        let mine = set_elements(&self.signing_set);
        let theirs = set_elements(&other.signing_set);
        let mut i: usize = 0;
        while i < mine.len()
            invariant
                mine@.to_set() == self.signing_set@,
                i <= mine@.len(),
                forall|k: int| 0 <= k < i ==> other.signing_set@.contains(#[trigger] mine@[k]),
            decreases mine@.len() - i,
        {
            if !other.signing_set.contains(&mine[i]) {
                proof {
                    assert(mine@.to_set().contains(mine@[i as int]));
                    assert(self.signing_set@.contains(mine@[i as int]));
                }
                return false;
            }
            i = i + 1;
        }
        let mut j: usize = 0;
        while j < theirs.len()
            invariant
                theirs@.to_set() == other.signing_set@,
                j <= theirs@.len(),
                forall|k: int| 0 <= k < j ==> self.signing_set@.contains(#[trigger] theirs@[k]),
            decreases theirs@.len() - j,
        {
            if !self.signing_set.contains(&theirs[j]) {
                proof {
                    assert(theirs@.to_set().contains(theirs@[j as int]));
                    assert(other.signing_set@.contains(theirs@[j as int]));
                }
                return false;
            }
            j = j + 1;
        }
        proof {
            assert forall|x: u16| self.signing_set@.contains(x) == other.signing_set@.contains(x) by {
                if self.signing_set@.contains(x) {
                    assert(mine@.to_set().contains(x));
                    let k = choose|k: int| 0 <= k < mine@.len() && mine@[k] == x;
                }
                if other.signing_set@.contains(x) {
                    assert(theirs@.to_set().contains(x));
                    let k = choose|k: int| 0 <= k < theirs@.len() && theirs@[k] == x;
                }
            }
            assert(self.signing_set@ =~= other.signing_set@);
        }
        true
    }
}


impl PartialEq for ProposedSigningSet {
    /// Two proposed sets are equal when they hold the same signers, whatever their ids.
    fn eq(&self, other: &Self) -> (r: bool) {
        self.same_signing_set(other)
    }
}

impl vstd::std_specs::cmp::PartialEqSpecImpl for ProposedSigningSet {
    open spec fn obeys_eq_spec() -> bool {
        true
    }

    open spec fn eq_spec(&self, other: &Self) -> bool {
        self.signing_set@ == other.signing_set@
    }
}

impl Eq for ProposedSigningSet {}

/// Feeds `signers` into `state` with the `Hash` of `Vec<u16>`.
#[verifier::external_body]
fn hash_signers<H: core::hash::Hasher>(signers: &Vec<KeygenPartyId>, state: &mut H) {
    core::hash::Hash::hash(signers, state)
}

impl core::hash::Hash for ProposedSigningSet {
    /// Hashes the signers in increasing order, so that equal sets hash alike
    /// (see `lemma_ordered_signers_canonical`).
    fn hash<H: core::hash::Hasher>(&self, state: &mut H) {
        let items = set_elements(&self.signing_set);
        let ordered = sort_distinct(&items);
        hash_signers(&ordered, state);
    }
}

/// Keeps, in order, each proposed set whose signers differ from those of
/// every set kept before it.
pub open spec fn unique_sets(s: Seq<ProposedSigningSet>) -> Seq<ProposedSigningSet>
    decreases s.len(),
{
    if s.len() == 0 {
        Seq::empty()
    } else {
        let kept = unique_sets(s.drop_last());
        if exists|j: int| 0 <= j < kept.len() && #[trigger] kept[j].signing_set@ == s.last().signing_set@ {
            kept
        } else {
            kept.push(s.last())
        }
    }
}

/// The proposed sets with repeated signing sets left out: the first set with
/// given signers stays, later ones with the same signers go.
pub fn unique_signing_sets(sets: Vec<ProposedSigningSet>) -> (r: Vec<ProposedSigningSet>)
    ensures
        r@ == unique_sets(sets@),
{
    let ghost orig = sets@;
    let mut rest = sets;
    let mut kept: Vec<ProposedSigningSet> = Vec::new();
    proof {
        assert(orig.skip(0) =~= orig);
        assert(orig.take(0) =~= Seq::<ProposedSigningSet>::empty());
    }
    while rest.len() > 0
        invariant
            orig == sets@,
            rest@.len() <= orig.len(),
            rest@ == orig.skip(orig.len() - rest@.len()),
            kept@ == unique_sets(orig.take(orig.len() - rest@.len())),
        decreases rest@.len(),
    {
        let ghost i = orig.len() - rest@.len();
        let item = rest.remove(0);
        proof {
            assert(item == orig[i]);
            assert(rest@ =~= orig.skip(i + 1));
            assert(orig.take(i + 1).drop_last() =~= orig.take(i));
            assert(orig.take(i + 1).last() == item);
        }
        let mut seen = false;
        let mut j: usize = 0;
        while j < kept.len()
            invariant
                j <= kept@.len(),
                seen == exists|k: int| 0 <= k < j && #[trigger] kept@[k].signing_set@ == item.signing_set@,
            decreases kept@.len() - j,
        {
            if !seen && kept[j].same_signing_set(&item) {
                seen = true;
            }
            proof {
                if kept@[j as int].signing_set@ == item.signing_set@ {
                    assert(exists|k: int| 0 <= k < j + 1 && #[trigger] kept@[k].signing_set@ == item.signing_set@);
                }
            }
            j = j + 1;
        }
        if !seen {
            kept.push(item);
        }
    }
    proof {
        assert(orig.take(orig.len() as int) =~= orig);
    }
    kept
}

/// The candidates for a signing set: the unjailed signers, topped up with
/// jailed ones (in order) when there are not more than `t` of them, so that
/// `t + 1` signers can be chosen whenever enough exist.
pub open spec fn candidates(unjailed: Seq<u16>, jailed: Seq<u16>, t: u16) -> Seq<u16> {
    if unjailed.len() <= t {
        let diff = t + 1 - unjailed.len();
        unjailed + jailed.take(if diff < jailed.len() { diff } else { jailed.len() as int })
    } else {
        unjailed
    }
}

/// Every unjailed signer is a candidate: the candidates are the unjailed
/// signers in order, followed, only when there are not more than `t` of
/// them, by the first jailed signers, as many as make `t + 1` (or all of
/// them when fewer are jailed).
pub proof fn lemma_candidates_keep_unjailed(unjailed: Seq<u16>, jailed: Seq<u16>, t: u16)
    ensures
        candidates(unjailed, jailed, t).take(unjailed.len() as int) == unjailed,
        forall|x: u16| unjailed.contains(x) ==> #[trigger] candidates(unjailed, jailed, t).contains(x),
        unjailed.len() > t ==> candidates(unjailed, jailed, t) == unjailed,
        unjailed.len() <= t ==> candidates(unjailed, jailed, t).len() == (if jailed.len() < t + 1 - unjailed.len() {
            (unjailed.len() + jailed.len()) as int
        } else {
            t + 1
        }),
        unjailed.len() <= t ==> candidates(unjailed, jailed, t).skip(unjailed.len() as int) == jailed.take(
            candidates(unjailed, jailed, t).len() - unjailed.len(),
        ),
{
    let c = candidates(unjailed, jailed, t);
    assert(c.take(unjailed.len() as int) =~= unjailed);
    if unjailed.len() <= t {
        assert(c.skip(unjailed.len() as int) =~= jailed.take(c.len() - unjailed.len()));
    }
    assert forall|x: u16| unjailed.contains(x) implies #[trigger] c.contains(x) by {
        let k = choose|k: int| 0 <= k < unjailed.len() && unjailed[k] == x;
        assert(c[k] == c.take(unjailed.len() as int)[k]);
    }
}

/// The candidate signers a signing set of `t + 1` is drawn from.
pub fn signer_candidates(unjailed: &Vec<u16>, jailed: &Vec<u16>, t: u16) -> (r: Vec<u16>)
    ensures
        r@ == candidates(unjailed@, jailed@, t),
{
    let mut final_set: Vec<u16> = Vec::new();
    let mut i: usize = 0;
    while i < unjailed.len()
        invariant
            i <= unjailed@.len(),
            final_set@ == unjailed@.take(i as int),
        decreases unjailed@.len() - i,
    {
        final_set.push(unjailed[i]);
        proof {
            assert(unjailed@.take(i + 1) =~= unjailed@.take(i as int).push(unjailed@[i as int]));
        }
        i = i + 1;
    }
    proof {
        assert(unjailed@.take(i as int) =~= unjailed@);
    }
    if unjailed.len() <= t as usize {
        let diff: usize = t as usize + 1 - unjailed.len();
        let mut j: usize = 0;
        while j < diff && j < jailed.len()
            invariant
                j <= jailed@.len(),
                j <= diff,
                final_set@ == unjailed@ + jailed@.take(j as int),
            decreases jailed@.len() - j,
        {
            final_set.push(jailed[j]);
            proof {
                assert(jailed@.take(j + 1) =~= jailed@.take(j as int).push(jailed@[j as int]));
                assert(final_set@ =~= unjailed@ + jailed@.take(j + 1));
            }
            j = j + 1;
        }
    }
    final_set
}

/// The signers kept for a set: for a wildcard set, the set after the blame
/// filter has left out blamed signers, when the filter produced one.
pub open spec fn kept_signers(selected: Seq<u16>, wildcard: bool, filtered: Option<Vec<u16>>) -> Seq<u16> {
    if wildcard && filtered is Some {
        filtered.unwrap()@
    } else {
        selected
    }
}

fn contains_party(s: &Vec<u16>, party: u16) -> (r: bool)
    ensures
        r == s@.contains(party),
{
    let mut i: usize = 0;
    while i < s.len()
        invariant
            i <= s@.len(),
            forall|k: int| 0 <= k < i ==> s@[k] != party,
        decreases s@.len() - i,
    {
        if s[i] == party {
            return true;
        }
        i = i + 1;
    }
    false
}

/// Adds the signing set drawn for `ssid` to `signing_sets` when the local party
/// `party_i` belongs to it. `selected` is the set drawn (if one could be);
/// `filtered` is, for a wildcard set, that set with blamed parties replaced.
pub fn maybe_add_signing_set(
    selected: Option<Vec<KeygenPartyId>>,
    wildcard: bool,
    filtered: Option<Vec<KeygenPartyId>>,
    party_i: KeygenPartyId,
    ssid: u8,
    signing_sets: &mut Vec<ProposedSigningSet>,
)
    ensures
        match selected {
            Some(set) => {
                let kept = kept_signers(set@, wildcard, filtered);
                if kept.contains(party_i) {
                    &&& final(signing_sets)@.len() == old(signing_sets)@.len() + 1
                    &&& final(signing_sets)@.drop_last() == old(signing_sets)@
                    &&& final(signing_sets)@.last().ssid == ssid
                    &&& final(signing_sets)@.last().signing_set@ == kept.to_set()
                } else {
                    final(signing_sets)@ == old(signing_sets)@
                }
            },
            None => final(signing_sets)@ == old(signing_sets)@,
        },
{
    if let Some(signing_set) = selected {
        let signing_set = if wildcard {
            match filtered {
                Some(f) => f,
                None => signing_set,
            }
        } else {
            signing_set
        };
        if contains_party(&signing_set, party_i) {
            let proposed = ProposedSigningSet::from_signers(ssid, &signing_set);
            signing_sets.push(proposed);
            proof {
                assert(signing_sets@.drop_last() =~= old(signing_sets)@);
            }
        }
    }
}

/// Number of signing sets drawn per proposal.
pub const MAX_POTENTIAL_SIGNING_SETS_PER_PROPOSAL: u8 = 1;

/// The signing-set ids drawn for a proposal: `0..P`, one set per proposal.
pub open spec fn signing_plan() -> Seq<u8> {
    Seq::new(MAX_POTENTIAL_SIGNING_SETS_PER_PROPOSAL as nat, |i: int| i as u8)
}

/// The signing-set ids drawn for one proposal.
pub fn signing_set_plan() -> (r: Vec<u8>)
    ensures
        r@ == signing_plan(),
        r@.len() == MAX_POTENTIAL_SIGNING_SETS_PER_PROPOSAL,
{
    let mut plan: Vec<u8> = Vec::new();
    let mut ssid: u8 = 0;
    while ssid < MAX_POTENTIAL_SIGNING_SETS_PER_PROPOSAL
        invariant
            ssid <= MAX_POTENTIAL_SIGNING_SETS_PER_PROPOSAL,
            plan@ == Seq::new(ssid as nat, |i: int| i as u8),
        decreases MAX_POTENTIAL_SIGNING_SETS_PER_PROPOSAL - ssid,
    {
        plan.push(ssid);
        proof {
            assert(plan@ =~= Seq::new((ssid + 1) as nat, |i: int| i as u8));
        }
        ssid = ssid + 1;
    }
    proof {
        assert(plan@ =~= signing_plan());
    }
    plan
}

/// A proposed set as its id and its signers.
pub open spec fn as_pair(p: ProposedSigningSet) -> (u8, Set<u16>) {
    (p.ssid, p.signing_set@)
}

/// The proposed sets as (ssid, signers) pairs.
pub open spec fn as_pairs(s: Seq<ProposedSigningSet>) -> Seq<(u8, Set<u16>)> {
    s.map_values(|p: ProposedSigningSet| as_pair(p))
}

/// The sets proposed for one batch, as (ssid, signers): for each planned draw
/// in order (`plan[i]` is its ssid, `selected[i]` the set drawn if one could
/// be), the drawn signers when `party` is among them.
pub open spec fn proposed_sets(plan: Seq<u8>, selected: Seq<Option<Vec<u16>>>, party: u16) -> Seq<(u8, Set<u16>)>
    decreases plan.len(),
{
    if plan.len() == 0 {
        Seq::empty()
    } else {
        let i = plan.len() - 1;
        let prev = proposed_sets(plan.drop_last(), selected.take(i), party);
        match selected[i] {
            Some(set) => {
                if set@.contains(party) {
                    prev.push((plan[i], set@.to_set()))
                } else {
                    prev
                }
            },
            None => prev,
        }
    }
}

/// No more sets are proposed than draws are planned.
proof fn lemma_proposed_sets_len(plan: Seq<u8>, selected: Seq<Option<Vec<u16>>>, party: u16)
    ensures
        proposed_sets(plan, selected, party).len() <= plan.len(),
    decreases plan.len(),
{
    if plan.len() > 0 {
        lemma_proposed_sets_len(plan.drop_last(), selected.take(plan.len() - 1), party);
    }
}

/// Keeps, in order, each (ssid, signers) pair whose signers differ from those
/// of every pair kept before it.
pub open spec fn unique_pairs(s: Seq<(u8, Set<u16>)>) -> Seq<(u8, Set<u16>)>
    decreases s.len(),
{
    if s.len() == 0 {
        Seq::empty()
    } else {
        let kept = unique_pairs(s.drop_last());
        if exists|j: int| 0 <= j < kept.len() && #[trigger] kept[j].1 == s.last().1 {
            kept
        } else {
            kept.push(s.last())
        }
    }
}

/// Leaving out repeated sets keeps no more sets than there were.
proof fn lemma_unique_pairs_len(s: Seq<(u8, Set<u16>)>)
    ensures
        unique_pairs(s).len() <= s.len(),
    decreases s.len(),
{
    if s.len() > 0 {
        lemma_unique_pairs_len(s.drop_last());
    }
}

/// Leaving out repeated signing sets commutes with viewing the sets as pairs.
proof fn lemma_unique_as_pairs(s: Seq<ProposedSigningSet>)
    ensures
        as_pairs(unique_sets(s)) == unique_pairs(as_pairs(s)),
    decreases s.len(),
{
    if s.len() > 0 {
        let p = s.drop_last();
        lemma_unique_as_pairs(p);
        assert(as_pairs(s).drop_last() =~= as_pairs(p));
        let kept = unique_sets(p);
        let kp = unique_pairs(as_pairs(p));
        assert(kp == as_pairs(kept));
        let found = exists|j: int| 0 <= j < kept.len() && #[trigger] kept[j].signing_set@ == s.last().signing_set@;
        let found_p = exists|j: int| 0 <= j < kp.len() && #[trigger] kp[j].1 == as_pairs(s).last().1;
        assert(found == found_p) by {
            if found {
                let j = choose|j: int| 0 <= j < kept.len() && #[trigger] kept[j].signing_set@ == s.last().signing_set@;
                assert(kp[j].1 == as_pairs(s).last().1);
            }
            if found_p {
                let j = choose|j: int| 0 <= j < kp.len() && #[trigger] kp[j].1 == as_pairs(s).last().1;
                assert(kept[j].signing_set@ == s.last().signing_set@);
            }
        }
        if !found {
            assert(as_pairs(kept.push(s.last())) =~= kp.push(as_pairs(s).last()));
        }
    } else {
        assert(as_pairs(unique_sets(s)) =~= unique_pairs(as_pairs(s)));
    }
}

/// The signing sets to start for one unsigned proposal batch, as (ssid,
/// signers in increasing order): the sets of `proposed_sets` over the plan,
/// with repeated signer sets left out (the first one stays); at most one per
/// proposal. `selected[i]` is the draw for the `i`-th entry of
/// `signing_set_plan()`.
pub fn batch_signing_sets(selected: Vec<Option<Vec<KeygenPartyId>>>, party_i: KeygenPartyId) -> (r: Vec<
    (u8, Vec<KeygenPartyId>),
>)
    requires
        selected@.len() == signing_plan().len(),
    ensures
        ({
            let expected = unique_pairs(proposed_sets(signing_plan(), selected@, party_i));
            &&& r@.len() == expected.len()
            &&& forall|i: int|
                0 <= i < r@.len() ==> {
                    &&& (#[trigger] r@[i]).0 == expected[i].0
                    &&& strictly_increasing(r@[i].1@)
                    &&& r@[i].1@.to_set() == expected[i].1
                }
        }),
        r@.len() <= MAX_POTENTIAL_SIGNING_SETS_PER_PROPOSAL,
{
    let plan = signing_set_plan();
    let ghost sel = selected@;
    let mut sel_rest = selected;
    let mut sets: Vec<ProposedSigningSet> = Vec::new();
    let mut i: usize = 0;
    proof {
        assert(sel.skip(0) =~= sel);
        assert(as_pairs(sets@) =~= proposed_sets(plan@.take(0), sel.take(0), party_i));
    }
    while i < plan.len()
        invariant
            plan@ == signing_plan(),
            sel.len() == plan@.len(),
            i <= plan@.len(),
            sel_rest@ == sel.skip(i as int),
            as_pairs(sets@) == proposed_sets(plan@.take(i as int), sel.take(i as int), party_i),
        decreases plan@.len() - i,
    {
        let ssid = plan[i];
        let drawn = sel_rest.remove(0);
        proof {
            assert(drawn == sel[i as int]);
            assert(sel_rest@ =~= sel.skip(i + 1));
        }
        let ghost before = sets@;
        maybe_add_signing_set(drawn, false, None, party_i, ssid, &mut sets);
        proof {
            let pl = plan@.take(i + 1);
            assert(pl.drop_last() =~= plan@.take(i as int));
            assert(sel.take(i + 1).take(i as int) =~= sel.take(i as int));
            assert(pl[i as int] == plan@[i as int]);
            assert(sel.take(i + 1)[i as int] == sel[i as int]);
            if sets@.len() == before.len() + 1 {
                assert(sets@ =~= before.push(sets@.last()));
                assert(as_pairs(sets@) =~= as_pairs(before).push(as_pair(sets@.last())));
            }
        }
        i = i + 1;
    }
    proof {
        assert(plan@.take(i as int) =~= plan@);
        assert(sel.take(i as int) =~= sel);
    }
    let ghost all = sets@;
    let unique = unique_signing_sets(sets);
    proof {
        lemma_unique_as_pairs(all);
    }
    let ghost u = unique@;
    let mut rest = unique;
    let mut out: Vec<(u8, Vec<KeygenPartyId>)> = Vec::new();
    proof {
        assert(u.skip(0) =~= u);
    }
    while rest.len() > 0
        invariant
            out@.len() + rest@.len() == u.len(),
            rest@ == u.skip(out@.len() as int),
            forall|k: int|
                0 <= k < out@.len() ==> {
                    &&& (#[trigger] out@[k]).0 == u[k].ssid
                    &&& strictly_increasing(out@[k].1@)
                    &&& out@[k].1@.to_set() == u[k].signing_set@
                },
        decreases rest@.len(),
    {
        let ghost n = out@.len() as int;
        let set = rest.remove(0);
        proof {
            assert(set == u[n]);
            assert(rest@ =~= u.skip(n + 1));
        }
        let ssid = set.ssid;
        let ordered = set.into_ordered_vec();
        out.push((ssid, ordered));
    }
    proof {
        let proposed = proposed_sets(signing_plan(), sel, party_i);
        let expected = unique_pairs(proposed);
        assert(as_pairs(u) == expected);
        assert forall|k: int| 0 <= k < out@.len() implies (#[trigger] out@[k]).0 == expected[k].0
            && out@[k].1@.to_set() == expected[k].1 by {
            assert(as_pairs(u)[k] == as_pair(u[k]));
        }
        lemma_proposed_sets_len(signing_plan(), sel, party_i);
        lemma_unique_pairs_len(proposed);
        assert(as_pairs(u).len() == u.len());
    }
    out
}

/// The Keccak-256 digest of `data`, as `sp_core` computes it.
pub uninterp spec fn keccak_256_of(data: Seq<u8>) -> Seq<u8>;

/// Hashes `data` with `sp_core::hashing::keccak_256`. The contract names the
/// digest and claims nothing more about it.
#[verifier::external_body]
fn keccak_256(data: &[u8]) -> (r: [u8; 32])
    ensures
        r@ == keccak_256_of(data@),
{
    sp_core::hashing::keccak_256(data)
}

/// The SCALE encoding of a `u64`: its eight bytes, least significant first.
pub open spec fn le_bytes_u64(n: u64) -> Seq<u8> {
    Seq::new(8, |i: int| ((n >> ((8 * i) as u64)) & 0xff) as u8)
}

/// Appends `bytes` to `data`.
fn append_bytes(data: &mut Vec<u8>, bytes: &[u8])
    ensures
        final(data)@ == old(data)@ + bytes@,
{
    let ghost start = data@;
    let mut i: usize = 0;
    while i < bytes.len()
        invariant
            i <= bytes@.len(),
            data@ == start + bytes@.take(i as int),
        decreases bytes@.len() - i,
    {
        data.push(bytes[i]);
        proof {
            assert(data@ =~= start + bytes@.take(i + 1));
        }
        i = i + 1;
    }
    proof {
        assert(bytes@.take(i as int) =~= bytes@);
    }
}

/// The bytes hashed into the seed of a proposal's signing set: the DKG public
/// key, the finalized block number (SCALE-encoded) and the Keccak-256 digest
/// of the unsigned proposal.
pub fn signing_seed_preimage(dkg_pub_key: &[u8], block_number: u64, proposal_digest: &[u8; 32]) -> (r: Vec<u8>)
    ensures
        r@ == dkg_pub_key@ + le_bytes_u64(block_number) + proposal_digest@,
{
    let mut data: Vec<u8> = Vec::new();
    append_bytes(&mut data, dkg_pub_key);
    let mut k: u64 = 0;
    while k < 8
        invariant
            k <= 8,
            data@ == dkg_pub_key@ + le_bytes_u64(block_number).take(k as int),
        decreases 8 - k,
    {
        data.push(((block_number >> (8 * k)) & 0xff) as u8);
        proof {
            assert(data@ =~= dkg_pub_key@ + le_bytes_u64(block_number).take(k + 1));
        }
        k = k + 1;
    }
    proof {
        assert(le_bytes_u64(block_number).take(8) =~= le_bytes_u64(block_number));
    }
    append_bytes(&mut data, proposal_digest.as_slice());
    data
}

/// The seed from which the signing set of an unsigned proposal is drawn:
/// `keccak256(pk, fN, keccak256(unsignedProposal))`, the digest of the DKG
/// public key, the finalized block number and the digest of the encoded
/// proposal.
pub fn signing_seed(dkg_pub_key: &[u8], block_number: u64, unsigned_proposal_bytes: &[u8]) -> (r: [u8; 32])
    ensures
        r@ == keccak_256_of(dkg_pub_key@ + le_bytes_u64(block_number) + keccak_256_of(unsigned_proposal_bytes@)),
{
    let digest = keccak_256(unsigned_proposal_bytes);
    let data = signing_seed_preimage(dkg_pub_key, block_number, &digest);
    keccak_256(data.as_slice())
}

/// The seed of a signing set is deterministic: every node that computes it
/// for the same DKG public key, block and encoded proposal gets the same
/// seed, and so draws the same signing set.
pub proof fn lemma_signing_seed_deterministic(
    key: Seq<u8>,
    block_number: u64,
    proposal: Seq<u8>,
    seed1: [u8; 32],
    seed2: [u8; 32],
)
    requires
        seed1@ == keccak_256_of(key + le_bytes_u64(block_number) + keccak_256_of(proposal)),
        seed2@ == keccak_256_of(key + le_bytes_u64(block_number) + keccak_256_of(proposal)),
    ensures
        seed1 == seed2,
{
    assert(seed1@ =~= seed2@);
}

/// Batch `a` comes before batch `b`: it is older, or as old and earlier in the list.
pub open spec fn batch_before(timestamps: Seq<u64>, a: int, b: int) -> bool {
    timestamps[a] < timestamps[b] || (timestamps[a] == timestamps[b] && a < b)
}

/// Batch `i` is to be signed: it has a hash and no job for that hash exists.
pub open spec fn batch_eligible(hashes: Seq<Option<ProposalHash>>, manager: WorkManager, i: int) -> bool {
    match hashes[i] {
        Some(h) => !(manager.running().contains(h) || manager.enqueued().contains(h)),
        None => false,
    }
}

/// The unsigned proposal batches to sign, oldest first (ties kept in list
/// order), leaving out those without a hash and those whose job already exists.
/// `timestamps[i]` and `hashes[i]` describe batch `i`; the result lists batch indices.
pub fn select_unsigned_proposals(
    timestamps: &Vec<u64>,
    hashes: &Vec<Option<ProposalHash>>,
    manager: &WorkManager,
) -> (r: Vec<usize>)
    requires
        timestamps@.len() == hashes@.len(),
    ensures
        forall|p: int| 0 <= p < r@.len() ==> #[trigger] r@[p] < hashes@.len(),
        forall|p: int, q: int|
            0 <= p < q < r@.len() ==> batch_before(timestamps@, #[trigger] r@[p] as int, #[trigger] r@[q] as int),
        forall|i: int|
            0 <= i < hashes@.len() ==> (batch_eligible(hashes@, *manager, i) <==> r@.contains(i as usize)),
{
    let ghost ts = timestamps@;
    let mut order: Vec<usize> = Vec::new();
    let mut i: usize = 0;
    while i < hashes.len()
        invariant
            ts == timestamps@,
            ts.len() == hashes@.len(),
            i <= hashes@.len(),
            forall|p: int| 0 <= p < order@.len() ==> #[trigger] order@[p] < i,
            forall|p: int, q: int|
                0 <= p < q < order@.len() ==> batch_before(ts, #[trigger] order@[p] as int, #[trigger] order@[q] as int),
            forall|k: int| 0 <= k < i ==> (batch_eligible(hashes@, *manager, k) <==> order@.contains(k as usize)),
        decreases hashes@.len() - i,
    {
        let wanted = match &hashes[i] {
            Some(h) => !manager.job_exists(h),
            None => false,
        };
        let ghost before = order@;
        if wanted {
            let mut p: usize = 0;
            while p < order.len() && timestamps[order[p]] <= timestamps[i]
                invariant
                    ts == timestamps@,
                    ts.len() == hashes@.len(),
                    i < ts.len(),
                    order@ == before,
                    p <= order@.len(),
                    forall|p2: int| 0 <= p2 < order@.len() ==> #[trigger] order@[p2] < i,
                    forall|k: int| 0 <= k < p ==> ts[#[trigger] order@[k] as int] <= ts[i as int],
                decreases order@.len() - p,
            {
                p = p + 1;
            }
            order.insert(p, i);
            proof {
                assert(order@ =~= before.insert(p as int, i));
                assert forall|a: int, b: int| 0 <= a < b < order@.len() implies batch_before(
                    ts,
                    #[trigger] order@[a] as int,
                    #[trigger] order@[b] as int,
                ) by {
                    if a < p && b == p {
                        assert(ts[before[a] as int] <= ts[i as int]);
                    } else if a == p && b > p {
                        assert(ts[before[p as int] as int] > ts[i as int]);
                        if b - 1 > p {
                            assert(batch_before(ts, before[p as int] as int, before[b - 1] as int));
                        }
                    } else if a < p && b > p {
                        assert(batch_before(ts, before[a] as int, before[b - 1] as int));
                    } else if a > p {
                        assert(batch_before(ts, before[a - 1] as int, before[b - 1] as int));
                    }
                }
                assert forall|k: int| 0 <= k < i + 1 implies (batch_eligible(hashes@, *manager, k) <==> order@.contains(k as usize)) by {
                    if k < i {
                        if before.contains(k as usize) {
                            let q = choose|q: int| 0 <= q < before.len() && before[q] == k as usize;
                            if q < p {
                                assert(order@[q] == k as usize);
                            } else {
                                assert(order@[q + 1] == k as usize);
                            }
                        }
                        if order@.contains(k as usize) {
                            let q = choose|q: int| 0 <= q < order@.len() && order@[q] == k as usize;
                            if q < p {
                                assert(before[q] == k as usize);
                            } else if q > p {
                                assert(before[q - 1] == k as usize);
                            }
                        }
                    } else {
                        assert(order@[p as int] == i);
                    }
                }
            }
        } else {
            proof {
                assert(!order@.contains(i)) by {
                    if order@.contains(i) {
                        let q = choose|q: int| 0 <= q < order@.len() && order@[q] == i;
                    }
                }
            }
        }
        i = i + 1;
    }
    order
}


/// Once the job for a batch's hash has been queued, the batch is no longer
/// selected for signing: later blocks do not start a second job for it.
pub proof fn lemma_queued_batch_not_selected_again(
    pre: WorkManager,
    post: WorkManager,
    hashes: Seq<Option<ProposalHash>>,
    i: int,
    h: ProposalHash,
)
    requires
        post.enqueued() == pre.enqueued().push(h),
        0 <= i < hashes.len(),
        hashes[i] == Some(h),
    ensures
        !batch_eligible(hashes, post, i),
{
    crate::work_manager::lemma_pushed_job_exists(pre, post, h);
}

/// Two strictly increasing sequences with the same elements are equal: the
/// ordered list of a signing set depends only on its signers, so two proposed
/// sets that are equal also hash alike.
pub proof fn lemma_ordered_signers_canonical(a: Seq<u16>, b: Seq<u16>)
    requires
        strictly_increasing(a),
        strictly_increasing(b),
        a.to_set() == b.to_set(),
    ensures
        a == b,
    decreases a.len() + b.len(),
{
    if a.len() == 0 || b.len() == 0 {
        if a.len() > 0 {
            assert(a.to_set().contains(a[0]));
        }
        if b.len() > 0 {
            assert(b.to_set().contains(b[0]));
        }
        assert(a =~= b);
    } else {
        // The smallest elements agree.
        assert(a.to_set().contains(a[0]));
        assert(b.to_set().contains(b[0]));
        let ka = choose|k: int| 0 <= k < b.len() && b[k] == a[0];
        let kb = choose|k: int| 0 <= k < a.len() && a[k] == b[0];
        assert(a[0] == b[0]) by {
            if a[0] < b[0] {
                assert(b[ka] == a[0]);
                assert(ka == 0 || b[0] < b[ka]);
            } else if b[0] < a[0] {
                assert(a[kb] == b[0]);
                assert(kb == 0 || a[0] < a[kb]);
            }
        }
        let a1 = a.drop_first();
        let b1 = b.drop_first();
        assert forall|x: u16| a1.to_set().contains(x) == b1.to_set().contains(x) by {
            if a1.contains(x) {
                let k = choose|k: int| 0 <= k < a1.len() && a1[k] == x;
                assert(a[k + 1] == x);
                assert(b.to_set().contains(x));
                let q = choose|q: int| 0 <= q < b.len() && b[q] == x;
                assert(q != 0);
                assert(b1[q - 1] == x);
            }
            if b1.contains(x) {
                let k = choose|k: int| 0 <= k < b1.len() && b1[k] == x;
                assert(b[k + 1] == x);
                assert(a.to_set().contains(x));
                let q = choose|q: int| 0 <= q < a.len() && a[q] == x;
                assert(q != 0);
                assert(a1[q - 1] == x);
            }
        }
        assert(a1.to_set() =~= b1.to_set());
        lemma_ordered_signers_canonical(a1, b1);
        assert(a =~= b) by {
            assert forall|i: int| 0 <= i < a.len() implies a[i] == b[i] by {
                if i > 0 {
                    assert(a1[i - 1] == b1[i - 1]);
                }
            }
        }
    }
}

/// After removing repeated signing sets, no two kept sets have the same
/// signers, and every input set has a kept set with the same signers.
pub proof fn lemma_unique_sets(s: Seq<ProposedSigningSet>)
    ensures
        forall|i: int, j: int|
            0 <= i < j < unique_sets(s).len() ==> #[trigger] unique_sets(s)[i].signing_set@
                != #[trigger] unique_sets(s)[j].signing_set@,
        forall|i: int|
            0 <= i < s.len() ==> exists|j: int|
                0 <= j < unique_sets(s).len() && #[trigger] unique_sets(s)[j].signing_set@
                    == (#[trigger] s[i]).signing_set@,
    decreases s.len(),
{
    if s.len() > 0 {
        let p = s.drop_last();
        lemma_unique_sets(p);
        let kept = unique_sets(p);
        assert forall|i: int| 0 <= i < s.len() implies exists|j: int|
            0 <= j < unique_sets(s).len() && #[trigger] unique_sets(s)[j].signing_set@
                == (#[trigger] s[i]).signing_set@ by {
            if i < s.len() - 1 {
                assert(p[i] == s[i]);
                let j = choose|j: int| 0 <= j < kept.len() && #[trigger] kept[j].signing_set@ == (#[trigger] p[i]).signing_set@;
                assert(unique_sets(s)[j] == kept[j]);
            } else {
                if exists|j: int| 0 <= j < kept.len() && #[trigger] kept[j].signing_set@ == s.last().signing_set@ {
                    let j = choose|j: int| 0 <= j < kept.len() && #[trigger] kept[j].signing_set@ == s.last().signing_set@;
                    assert(unique_sets(s)[j] == kept[j]);
                } else {
                    assert(unique_sets(s)[kept.len() as int] == s.last());
                }
            }
        }
    }
}

} // verus!
