//! The queue discipline that balances signing work: jobs (identified by the
//! hash of the unsigned proposal they sign) wait in a FIFO queue and at most
//! `max_tasks` of them run at once.
use vstd::prelude::*;
use std::collections::VecDeque;

verus! {

/// Hash of an unsigned proposal; it identifies the signing job for it.
pub type ProposalHash = [u8; 32];

/// The jobs of a work manager: those running (by proposal hash) and those
/// waiting to start, oldest first.
pub struct WorkManagerInner {
    pub currently_signing_proposals: Vec<ProposalHash>,
    pub enqueued_signing_proposals: VecDeque<ProposalHash>,
}

/// Signing jobs: those running and those waiting to start, at most
/// `max_tasks` running at once.
pub struct WorkManager {
    inner: WorkManagerInner,
    max_tasks: usize,
}

/// Whether two proposal hashes are equal.
pub fn hash_eq(a: &ProposalHash, b: &ProposalHash) -> (r: bool)
    ensures
        r == (*a == *b),
{
    let mut i: usize = 0;
    while i < 32
        invariant
            i <= 32,
            forall|j: int| 0 <= j < i ==> a[j] == b[j],
        decreases 32 - i,
    {
        if a[i] != b[i] {
            return false;
        }
        i = i + 1;
    }
    assert(a =~= b);
    true
}

fn seq_has_hash(s: &Vec<ProposalHash>, h: &ProposalHash) -> (r: bool)
    ensures
        r == s@.contains(*h),
{
    let mut i: usize = 0;
    while i < s.len()
        invariant
            i <= s@.len(),
            forall|j: int| 0 <= j < i ==> s@[j] != *h,
        decreases s@.len() - i,
    {
        if hash_eq(&s[i], h) {
            return true;
        }
        i = i + 1;
    }
    false
}

/// The number of jobs that `poll` starts: as many as there are free slots,
/// but no more than are waiting.
pub open spec fn jobs_to_start(max_tasks: usize, still_running: nat, waiting: nat) -> nat {
    let free = (max_tasks - still_running) as nat;
    if free < waiting {
        free
    } else {
        waiting
    }
}

impl WorkManager {
    /// The jobs running now.
    pub closed spec fn running(&self) -> Set<ProposalHash> {
        self.inner.currently_signing_proposals@.to_set()
    }

    /// The jobs waiting to start, oldest first.
    pub closed spec fn enqueued(&self) -> Seq<ProposalHash> {
        self.inner.enqueued_signing_proposals@
    }

    /// Most jobs that run at once.
    pub closed spec fn max_running(&self) -> usize {
        self.max_tasks
    }

    /// Internal consistency: the running jobs are kept without repetition and
    /// never exceed the limit.
    pub closed spec fn wf(&self) -> bool {
        &&& self.inner.currently_signing_proposals@.no_duplicates()
        &&& self.inner.currently_signing_proposals@.len() <= self.max_tasks
    }

    /// The number of running jobs is the size of the running set, within the limit.
    pub proof fn lemma_running_bound(&self)
        requires
            self.wf(),
        ensures
            self.running().finite(),
            self.running().len() <= self.max_running(),
    {
        self.inner.currently_signing_proposals@.unique_seq_to_set();
        vstd::seq_lib::seq_to_set_is_finite(self.inner.currently_signing_proposals@);
    }

    /// A manager with no jobs that runs at most `max_tasks` at once.
    pub fn new(max_tasks: usize) -> (r: WorkManager)
        ensures
            r.wf(),
            r.running() == Set::<ProposalHash>::empty(),
            r.enqueued() == Seq::<ProposalHash>::empty(),
            r.max_running() == max_tasks,
    {
        let r = WorkManager {
            inner: WorkManagerInner {
                currently_signing_proposals: Vec::new(),
                enqueued_signing_proposals: VecDeque::new(),
            },
            max_tasks,
        };
        assert(r.inner.currently_signing_proposals@.to_set() =~= Set::<ProposalHash>::empty());
        r
    }

    /// Queues the job for `unsigned_proposal_hash` behind the waiting ones; it
    /// does not start it.
    pub fn push_task(&mut self, unsigned_proposal_hash: ProposalHash)
        requires
            old(self).wf(),
        ensures
            final(self).wf(),
            final(self).running() == old(self).running(),
            final(self).enqueued() == old(self).enqueued().push(unsigned_proposal_hash),
            final(self).max_running() == old(self).max_running(),
    {
        self.inner.enqueued_signing_proposals.push_back(unsigned_proposal_hash);
    }

    /// The number of jobs waiting to start.
    pub fn enqueued_len(&self) -> (r: usize)
        ensures
            r == self.enqueued().len(),
    {
        self.inner.enqueued_signing_proposals.len()
    }

    /// Whether a job for `job` is running or waiting.
    pub fn job_exists(&self, job: &ProposalHash) -> (r: bool)
        ensures
            r == (self.running().contains(*job) || self.enqueued().contains(*job)),
    {
        if seq_has_hash(&self.inner.currently_signing_proposals, job) {
            return true;
        }
        let mut i: usize = 0;
        while i < self.inner.enqueued_signing_proposals.len()
            invariant
                i <= self.inner.enqueued_signing_proposals@.len(),
                forall|j: int| 0 <= j < i ==> self.inner.enqueued_signing_proposals@[j] != *job,
            decreases self.inner.enqueued_signing_proposals@.len() - i,
        {
            if hash_eq(&self.inner.enqueued_signing_proposals[i], job) {
                return true;
            }
            i = i + 1;
        }
        false
    }

    /// Drops from the running set every job listed in `removed`.
    fn retain_not_in(&mut self, removed: &Vec<ProposalHash>)
        requires
            old(self).wf(),
        ensures
            final(self).wf(),
            final(self).running() == old(self).running().difference(removed@.to_set()),
            final(self).inner.currently_signing_proposals@.len() <= old(self).inner.currently_signing_proposals@.len(),
            final(self).enqueued() == old(self).enqueued(),
            final(self).max_running() == old(self).max_running(),
    {
        let ghost old_running = self.inner.currently_signing_proposals@;
        let mut kept: Vec<ProposalHash> = Vec::new();
        let mut i: usize = 0;
        while i < self.inner.currently_signing_proposals.len()
            invariant
                old_running == self.inner.currently_signing_proposals@,
                old_running.no_duplicates(),
                i <= old_running.len(),
                kept@.len() <= i,
                kept@.no_duplicates(),
                forall|h: ProposalHash| #[trigger] kept@.contains(h) <==> (old_running.take(i as int).contains(h) && !removed@.contains(h)),
            decreases old_running.len() - i,
        {
            let h = self.inner.currently_signing_proposals[i];
            proof {
                assert(old_running.take(i + 1) =~= old_running.take(i as int).push(h));
                assert(!old_running.take(i as int).contains(h)) by {
                    if old_running.take(i as int).contains(h) {
                        let k = choose|k: int| 0 <= k < i && old_running.take(i as int)[k] == h;
                        assert(old_running[k] == old_running[i as int]);
                    }
                }
            }
            let ghost kept_before = kept@;
            if !seq_has_hash(removed, &h) {
                kept.push(h);
                proof {
                    assert(!kept_before.contains(h));
                    assert forall|a: int, b: int| 0 <= a < b < kept@.len() implies kept@[a] != kept@[b] by {
                        if b == kept_before.len() {
                            assert(kept_before[a] == kept@[a]);
                        }
                    }
                }
            }
            proof {
                assert forall|x: ProposalHash| #[trigger] kept@.contains(x) <==> (old_running.take(i + 1).contains(x) && !removed@.contains(x)) by {
                    if kept@.contains(x) && x != h {
                        let k = choose|k: int| 0 <= k < kept@.len() && kept@[k] == x;
                        assert(kept_before[k] == x);
                        assert(kept_before.contains(x));
                        let q = choose|q: int| 0 <= q < i && #[trigger] old_running.take(i as int)[q] == x;
                        assert(old_running.take(i + 1)[q] == x);
                    }
                    if x == h {
                        assert(old_running.take(i + 1)[i as int] == h);
                    }
                    if x == h && !removed@.contains(x) {
                        assert(kept@[kept@.len() - 1] == x);
                    }
                    if old_running.take(i as int).contains(x) && !removed@.contains(x) {
                        assert(kept_before.contains(x));
                        let k = choose|k: int| 0 <= k < kept_before.len() && kept_before[k] == x;
                        assert(kept@[k] == x);
                    }
                    if old_running.take(i + 1).contains(x) {
                        let k = choose|k: int| 0 <= k < i + 1 && #[trigger] old_running.take(i + 1)[k] == x;
                        if k < i {
                            assert(old_running.take(i as int)[k] == x);
                        }
                    }
                }
            }
            i = i + 1;
        }
        proof {
            assert(old_running.take(i as int) =~= old_running);
            assert(kept@.to_set() =~= old_running.to_set().difference(removed@.to_set()));
        }
        self.inner.currently_signing_proposals = kept;
    }

    /// The running job for `job` has ended and leaves the running set.
    pub fn finish_job(&mut self, job: &ProposalHash)
        requires
            old(self).wf(),
        ensures
            final(self).wf(),
            final(self).running() == old(self).running().remove(*job),
            final(self).enqueued() == old(self).enqueued(),
            final(self).max_running() == old(self).max_running(),
    {
        let mut removed: Vec<ProposalHash> = Vec::new();
        removed.push(*job);
        self.retain_not_in(&removed);
        proof {
            assert(removed@.to_set() =~= Set::empty().insert(*job)) by {
                assert(removed@[0] == *job);
            }
            assert(old(self).running().difference(removed@.to_set()) =~= old(self).running().remove(*job));
        }
    }

    /// Drops the jobs listed in `done` (those whose protocol reports it has
    /// finished) from the running set, then starts waiting jobs, oldest first,
    /// while fewer than `max_tasks` run. Returns the jobs started, in order.
    pub fn poll(&mut self, done: &Vec<ProposalHash>) -> (started: Vec<ProposalHash>)
        requires
            old(self).wf(),
        ensures
            final(self).wf(),
            final(self).max_running() == old(self).max_running(),
            ({
                let still = old(self).running().difference(done@.to_set());
                let m = jobs_to_start(old(self).max_running(), still.len(), old(self).enqueued().len());
                &&& started@ == old(self).enqueued().take(m as int)
                &&& final(self).enqueued() == old(self).enqueued().skip(m as int)
                &&& final(self).running() == still.union(started@.to_set())
            }),
    {
        let ghost e0 = self.inner.enqueued_signing_proposals@;
        self.retain_not_in(done);
        let ghost still = self.running();
        proof {
            self.inner.currently_signing_proposals@.unique_seq_to_set();
        }
        let count = self.inner.currently_signing_proposals.len();
        let tasks_to_start = self.max_tasks - count;
        let mut started: Vec<ProposalHash> = Vec::new();
        let mut t: usize = 0;
        proof {
            assert(e0.take(0) =~= started@);
            assert(e0.skip(0) =~= e0);
            assert(started@.to_set() =~= Set::<ProposalHash>::empty());
            assert(still.union(Set::<ProposalHash>::empty()) =~= still);
        }
        while t < tasks_to_start
            invariant
                self.wf(),
                self.max_tasks == old(self).max_tasks,
                count + tasks_to_start == self.max_tasks,
                t <= tasks_to_start,
                self.inner.currently_signing_proposals@.len() <= count + started@.len(),
                started@.len() <= t,
                started@.len() == (if t < e0.len() { t as int } else { e0.len() as int }),
                started@ == e0.take(started@.len() as int),
                self.inner.enqueued_signing_proposals@ == e0.skip(started@.len() as int),
                self.running() == still.union(started@.to_set()),
            decreases tasks_to_start - t,
        {
            let next = self.inner.enqueued_signing_proposals.pop_front();
            match next {
                Some(h) => {
                    let ghost before = self.inner.currently_signing_proposals@;
                    let ghost started_before = started@;
                    started.push(h);
                    if !seq_has_hash(&self.inner.currently_signing_proposals, &h) {
                        self.inner.currently_signing_proposals.push(h);
                        proof {
                            assert forall|a: int, b: int|
                                0 <= a < b < self.inner.currently_signing_proposals@.len() implies self.inner.currently_signing_proposals@[a]
                                != self.inner.currently_signing_proposals@[b] by {
                                if b == before.len() {
                                    assert(before[a] == self.inner.currently_signing_proposals@[a]);
                                }
                            }
                            Seq::lemma_to_set_insert_commutes(before, h);
                            assert(self.inner.currently_signing_proposals@ =~= before + seq![h]);
                            assert(self.inner.currently_signing_proposals@.to_set() =~= before.to_set().insert(h));
                        }
                    } else {
                        proof {
                            assert(before.contains(h));
                            assert(before.to_set() =~= before.to_set().insert(h));
                        }
                    }
                    proof {
                        assert(started@ =~= started_before.push(h));
                        Seq::lemma_to_set_insert_commutes(started_before, h);
                        assert(started@ =~= started_before + seq![h]);
                        assert(started@.to_set() =~= started_before.to_set().insert(h));
                        assert(e0.skip(started_before.len() as int)[0] == h);
                        assert(started@ =~= e0.take(started@.len() as int));
                        assert(self.inner.enqueued_signing_proposals@ =~= e0.skip(started@.len() as int));
                        assert(self.running() =~= still.union(started@.to_set()));
                    }
                },
                None => {},
            }
            t = t + 1;
        }
        started
    }
}


/// A job that has been queued exists: `job_exists` reports it until it is
/// started and then finished.
pub proof fn lemma_pushed_job_exists(pre: WorkManager, post: WorkManager, h: ProposalHash)
    requires
        post.enqueued() == pre.enqueued().push(h),
    ensures
        post.running().contains(h) || post.enqueued().contains(h),
{
    assert(post.enqueued()[pre.enqueued().len() as int] == h);
}

/// Polling leaves no slot free while a job waits: it starts as many waiting
/// jobs as there are free slots (the limit less the jobs still running), or
/// all of them when fewer wait. So when the waiting jobs are distinct and none
/// of them already runs, afterwards either the limit is reached or nothing waits.
pub proof fn lemma_poll_fills_free_slots(
    pre: WorkManager,
    post: WorkManager,
    done: Seq<ProposalHash>,
    started: Seq<ProposalHash>,
)
    requires
        pre.wf(),
        post.wf(),
        post.max_running() == pre.max_running(),
        ({
            let still = pre.running().difference(done.to_set());
            let m = jobs_to_start(pre.max_running(), still.len(), pre.enqueued().len());
            &&& started == pre.enqueued().take(m as int)
            &&& post.enqueued() == pre.enqueued().skip(m as int)
            &&& post.running() == still.union(started.to_set())
        }),
    ensures
        ({
            let still = pre.running().difference(done.to_set());
            let free = pre.max_running() - still.len();
            &&& started.len() == (if free < pre.enqueued().len() { free } else { pre.enqueued().len() as int })
            &&& started.len() + post.enqueued().len() == pre.enqueued().len()
            &&& pre.enqueued().no_duplicates() && (forall|h: ProposalHash|
                pre.enqueued().contains(h) ==> !#[trigger] still.contains(h)) ==> (post.running().len()
                == post.max_running() || post.enqueued().len() == 0)
        }),
{
    let still = pre.running().difference(done.to_set());
    pre.lemma_running_bound();
    post.lemma_running_bound();
    vstd::set_lib::lemma_len_difference(pre.running(), done.to_set());
    let m = jobs_to_start(pre.max_running(), still.len(), pre.enqueued().len());
    assert(still.len() <= pre.max_running());
    if pre.enqueued().no_duplicates() && (forall|h: ProposalHash| pre.enqueued().contains(h) ==> !#[trigger] still.contains(h)) {
        assert(started.no_duplicates()) by {
            assert forall|a: int, b: int| 0 <= a < b < started.len() implies started[a] != started[b] by {
                assert(started[a] == pre.enqueued()[a] && started[b] == pre.enqueued()[b]);
            }
        }
        started.unique_seq_to_set();
        assert(still.disjoint(started.to_set())) by {
            assert forall|h: ProposalHash| still.contains(h) implies !started.to_set().contains(h) by {
                if started.to_set().contains(h) {
                    let k = choose|k: int| 0 <= k < started.len() && started[k] == h;
                    assert(pre.enqueued()[k] == h);
                    assert(pre.enqueued().contains(h));
                }
            }
        }
        vstd::set_lib::lemma_set_disjoint_lens(still, started.to_set());
    }
}

/// Polling loses no job: every job that was waiting, or running and not
/// reported done, is afterwards running or still waiting; and no more than the
/// limit run.
pub proof fn lemma_poll_keeps_jobs(
    pre: WorkManager,
    post: WorkManager,
    done: Seq<ProposalHash>,
    started: Seq<ProposalHash>,
)
    requires
        pre.wf(),
        post.wf(),
        post.max_running() == pre.max_running(),
        ({
            let still = pre.running().difference(done.to_set());
            let m = jobs_to_start(pre.max_running(), still.len(), pre.enqueued().len());
            &&& started == pre.enqueued().take(m as int)
            &&& post.enqueued() == pre.enqueued().skip(m as int)
            &&& post.running() == still.union(started.to_set())
        }),
    ensures
        forall|h: ProposalHash|
            (pre.running().contains(h) && !done.contains(h)) || pre.enqueued().contains(h) ==> (
            #[trigger] post.running().contains(h) || post.enqueued().contains(h)),
        post.running().len() <= post.max_running(),
{
    let still = pre.running().difference(done.to_set());
    let m = jobs_to_start(pre.max_running(), still.len(), pre.enqueued().len());
    assert forall|h: ProposalHash|
        (pre.running().contains(h) && !done.contains(h)) || pre.enqueued().contains(h) implies (
        #[trigger] post.running().contains(h) || post.enqueued().contains(h)) by {
        if pre.running().contains(h) && !done.contains(h) {
            assert(!done.to_set().contains(h));
        } else if pre.enqueued().contains(h) {
            let k = choose|k: int| 0 <= k < pre.enqueued().len() && pre.enqueued()[k] == h;
            if k < m {
                assert(started[k] == h);
                assert(started.to_set().contains(h));
            } else {
                assert(post.enqueued()[k - m] == h);
            }
        }
    }
    post.lemma_running_bound();
}

} // verus!
