//! The queue contract, as an in-memory store of jobs.
//!
//! The store keeps its jobs in the order they were pushed. A claim walks the
//! store from the front and takes the first jobs that may be claimed, up to
//! its limit; every other operation is keyed by the job's identifier. Each
//! operation is one step, so callers that share a store behind a lock see
//! claims that never overlap.

use vstd::prelude::*;

use crate::job::{Job, JobId, JobStatus, Message};

verus! {

/// Why a push was refused.
#[derive(Clone, Copy, Debug, PartialEq, Eq, Structural)]
pub enum QueueError {
    /// Every identifier has been handed out.
    Exhausted,
}

/// Identifiers grow along the store and stay below `next_id`, so no two
/// jobs share one and none is ever handed out again.
pub open spec fn ordered(jobs: Seq<Job>, next_id: u64) -> bool {
    &&& forall|i: int, j: int| 0 <= i < j < jobs.len() ==> jobs[i].id.0 < jobs[j].id.0
    &&& forall|i: int| 0 <= i < jobs.len() ==> jobs[i].id.0 < next_id
}

/// How many of the first `n` jobs may be claimed at `now`.
pub open spec fn claimable_before(jobs: Seq<Job>, n: int, now: i64) -> nat
    decreases n,
{
    if n <= 0 {
        0
    } else {
        claimable_before(jobs, n - 1, now) + if jobs[n - 1].claimable(now) {
            1nat
        } else {
            0nat
        }
    }
}

/// How many jobs of the store may be claimed at `now`.
pub open spec fn claimable_count(jobs: Seq<Job>, now: i64) -> nat {
    claimable_before(jobs, jobs.len() as int, now)
}

/// A claim of up to `limit` jobs at `now` takes job `i` when the job may be
/// claimed and fewer than `limit` such jobs stand before it.
pub open spec fn is_claimed(jobs: Seq<Job>, i: int, limit: nat, now: i64) -> bool {
    jobs[i].claimable(now) && claimable_before(jobs, i, now) < limit
}

/// What a claim hands out from the first `n` jobs: the jobs it takes, in
/// store order, each marked as being processed.
pub open spec fn pulled_before(jobs: Seq<Job>, n: int, limit: nat, now: i64) -> Seq<Job>
    decreases n,
{
    if n <= 0 {
        Seq::empty()
    } else {
        let rest = pulled_before(jobs, n - 1, limit, now);
        if is_claimed(jobs, n - 1, limit, now) {
            rest.push(jobs[n - 1].claimed())
        } else {
            rest
        }
    }
}

/// What a claim of up to `limit` jobs at `now` hands out.
pub open spec fn pulled(jobs: Seq<Job>, limit: nat, now: i64) -> Seq<Job> {
    pulled_before(jobs, jobs.len() as int, limit, now)
}

/// The store after a claim of up to `limit` jobs at `now`.
pub open spec fn after_pull(jobs: Seq<Job>, limit: nat, now: i64) -> Seq<Job> {
    Seq::new(
        jobs.len(),
        |i: int|
            if is_claimed(jobs, i, limit, now) {
                jobs[i].claimed()
            } else {
                jobs[i]
            },
    )
}

/// The index of the first job at or behind `from` that carries `id`; the
/// length of the store where there is none.
pub open spec fn position(jobs: Seq<Job>, id: JobId, from: int) -> int
    decreases jobs.len() - from,
{
    if from < 0 || from >= jobs.len() {
        jobs.len() as int
    } else if jobs[from].id == id {
        from
    } else {
        position(jobs, id, from + 1)
    }
}

/// The store without the job that carries `id`.
pub open spec fn removed(jobs: Seq<Job>, id: JobId) -> Seq<Job> {
    let at = position(jobs, id, 0);
    if at < jobs.len() {
        jobs.remove(at)
    } else {
        jobs
    }
}

/// The store with the job that carries `id` marked as failed.
pub open spec fn marked_failed(jobs: Seq<Job>, id: JobId) -> Seq<Job> {
    Seq::new(
        jobs.len(),
        |i: int|
            if jobs[i].id == id {
                jobs[i].failed()
            } else {
                jobs[i]
            },
    )
}

/// `position` finds an index inside the store where a job carries `id`,
/// and no job before it does.
pub proof fn lemma_position(jobs: Seq<Job>, id: JobId, from: int)
    requires
        0 <= from <= jobs.len(),
    ensures
        from <= position(jobs, id, from) <= jobs.len(),
        position(jobs, id, from) < jobs.len() ==> jobs[position(jobs, id, from)].id == id,
        forall|i: int| from <= i < position(jobs, id, from) ==> jobs[i].id != id,
    decreases jobs.len() - from,
{
    if from < jobs.len() && jobs[from].id != id {
        lemma_position(jobs, id, from + 1);
    }
}

/// Taking one job out of an ordered store leaves it ordered.
pub proof fn lemma_remove_keeps_order(jobs: Seq<Job>, at: int, next_id: u64)
    requires
        ordered(jobs, next_id),
        0 <= at < jobs.len(),
    ensures
        ordered(jobs.remove(at), next_id),
{
    let rest = jobs.remove(at);
    assert forall|i: int, j: int| 0 <= i < j < rest.len() implies rest[i].id.0 < rest[j].id.0 by {
        let from_i = if i < at {
            i
        } else {
            i + 1
        };
        let from_j = if j < at {
            j
        } else {
            j + 1
        };
        assert(rest[i] == jobs[from_i]);
        assert(rest[j] == jobs[from_j]);
    }
    assert forall|i: int| 0 <= i < rest.len() implies rest[i].id.0 < next_id by {
        let from_i = if i < at {
            i
        } else {
            i + 1
        };
        assert(rest[i] == jobs[from_i]);
    }
}

/// An in-memory job store.
#[derive(Debug)]
pub struct MemoryQueue {
    jobs: Vec<Job>,
    next_id: u64,
}

impl View for MemoryQueue {
    type V = Seq<Job>;

    closed spec fn view(&self) -> Seq<Job> {
        self.jobs@
    }
}

impl MemoryQueue {
    /// The identifier the next push will hand out.
    pub closed spec fn next_id(&self) -> u64 {
        self.next_id
    }

    /// The invariant of the store.
    pub open spec fn wf(&self) -> bool {
        ordered(self@, self.next_id())
    }

    /// An empty store.
    pub fn new() -> (queue: MemoryQueue)
        ensures
            queue.wf(),
            queue@ == Seq::<Job>::empty(),
            queue.next_id() == 0,
    {
        MemoryQueue { jobs: Vec::new(), next_id: 0 }
    }

    /// An empty store that numbers its jobs from `next_id` on.
    pub fn starting_at(next_id: u64) -> (queue: MemoryQueue)
        ensures
            queue.wf(),
            queue@ == Seq::<Job>::empty(),
            queue.next_id() == next_id,
    {
        MemoryQueue { jobs: Vec::new(), next_id }
    }

    /// Claims up to `limit` jobs that are queued and due at `now`, marks
    /// each as being processed, and hands them out. Hands out nothing where
    /// no job is due.
    pub fn pull(&mut self, limit: usize, now: i64) -> (claimed: Vec<Job>)
        requires
            old(self).wf(),
        ensures
            final(self).wf(),
            final(self).next_id() == old(self).next_id(),
            claimed@ == pulled(old(self)@, limit as nat, now),
            final(self)@ == after_pull(old(self)@, limit as nat, now),
    {
        let ghost before = self.jobs@;
        let ghost next_id = self.next_id;
        let mut claimed: Vec<Job> = Vec::new();
        let mut i: usize = 0;
        while i < self.jobs.len()
            invariant
                i <= before.len(),
                self.jobs@.len() == before.len(),
                self.next_id == next_id,
                claimed@ == pulled_before(before, i as int, limit as nat, now),
                claimed@.len() == if claimable_before(before, i as int, now) < limit {
                    claimable_before(before, i as int, now)
                } else {
                    limit as nat
                },
                claimed@.len() <= i,
                forall|j: int|
                    0 <= j < i ==> self.jobs@[j] == after_pull(before, limit as nat, now)[j],
                forall|j: int| i <= j < before.len() ==> self.jobs@[j] == before[j],
            decreases before.len() - i,
        {
            let job = self.jobs[i];
            if claimed.len() < limit && job.is_claimable(now) {
                let taken = Job {
                    id: job.id,
                    message: job.message,
                    status: JobStatus::Processing,
                    scheduled_time: job.scheduled_time,
                };
                self.jobs.set(i, taken);
                claimed.push(taken);
            }
            i += 1;
        }
        assert(self.jobs@ =~= after_pull(before, limit as nat, now));
        claimed
    }

    /// Puts a new job at the end of the store and hands out its identifier.
    /// Fails, and leaves the store as it is, only where every identifier has
    /// been handed out.
    pub fn push(&mut self, message: Message, status: JobStatus, scheduled_time: Option<i64>) -> (r:
        Result<JobId, QueueError>)
        requires
            old(self).wf(),
        ensures
            final(self).wf(),
            match r {
                Ok(id) => {
                    &&& old(self).next_id() < u64::MAX
                    &&& id == JobId(old(self).next_id())
                    &&& final(self).next_id() == old(self).next_id() + 1
                    &&& final(self)@ == old(self)@.push(
                        Job { id, message, status, scheduled_time },
                    )
                },
                Err(error) => {
                    &&& error == QueueError::Exhausted
                    &&& old(self).next_id() == u64::MAX
                    &&& final(self).next_id() == old(self).next_id()
                    &&& final(self)@ == old(self)@
                },
            },
    {
        if self.next_id == u64::MAX {
            return Err(QueueError::Exhausted);
        }
        let id = JobId(self.next_id);
        self.jobs.push(Job { id, message, status, scheduled_time });
        self.next_id = self.next_id + 1;
        Ok(id)
    }

    /// Removes the job that carries `id`: the acknowledgment of a job that
    /// was done. Where no job carries `id` the store stays as it is.
    pub fn delete_job(&mut self, id: JobId)
        requires
            old(self).wf(),
        ensures
            final(self).wf(),
            final(self).next_id() == old(self).next_id(),
            final(self)@ == removed(old(self)@, id),
    {
        let mut i: usize = 0;
        while i < self.jobs.len()
            invariant
                i <= self.jobs@.len(),
                self.jobs@ == old(self).jobs@,
                self.next_id == old(self).next_id,
                ordered(self.jobs@, self.next_id),
                position(self.jobs@, id, 0) == position(self.jobs@, id, i as int),
            decreases self.jobs@.len() - i,
        {
            if self.jobs[i].id.0 == id.0 {
                self.jobs.remove(i);
                proof {
                    lemma_remove_keeps_order(old(self).jobs@, i as int, self.next_id);
                }
                return ;
            }
            i += 1;
        }
    }

    /// Marks the job that carries `id` as failed. Where no job carries `id`
    /// the store stays as it is.
    pub fn fail_job(&mut self, id: JobId)
        requires
            old(self).wf(),
        ensures
            final(self).wf(),
            final(self).next_id() == old(self).next_id(),
            final(self)@ == marked_failed(old(self)@, id),
    {
        let ghost before = self.jobs@;
        let ghost next_id = self.next_id;
        let mut i: usize = 0;
        while i < self.jobs.len()
            invariant
                i <= before.len(),
                self.jobs@.len() == before.len(),
                self.next_id == next_id,
                forall|j: int| 0 <= j < i ==> self.jobs@[j] == marked_failed(before, id)[j],
                forall|j: int| i <= j < before.len() ==> self.jobs@[j] == before[j],
            decreases before.len() - i,
        {
            let job = self.jobs[i];
            if job.id.0 == id.0 {
                self.jobs.set(
                    i,
                    Job {
                        id: job.id,
                        message: job.message,
                        status: JobStatus::Failed,
                        scheduled_time: job.scheduled_time,
                    },
                );
            }
            i += 1;
        }
        assert(self.jobs@ =~= marked_failed(before, id));
    }

    /// How many jobs the store holds.
    pub fn len(&self) -> (n: usize)
        ensures
            n == self@.len(),
    {
        self.jobs.len()
    }

    /// Whether the store holds no job.
    pub fn is_empty(&self) -> (empty: bool)
        ensures
            empty == (self@.len() == 0),
    {
        self.jobs.len() == 0
    }

    /// The job that carries `id`, if the store holds it.
    pub fn get(&self, id: JobId) -> (found: Option<Job>)
        ensures
            match found {
                Some(job) => position(self@, id, 0) < self@.len() && job == self@[position(
                    self@,
                    id,
                    0,
                )],
                None => position(self@, id, 0) == self@.len(),
            },
    {
        let mut i: usize = 0;
        while i < self.jobs.len()
            invariant
                i <= self.jobs@.len(),
                position(self.jobs@, id, 0) == position(self.jobs@, id, i as int),
            decreases self.jobs@.len() - i,
        {
            if self.jobs[i].id.0 == id.0 {
                return Some(self.jobs[i]);
            }
            i += 1;
        }
        None
    }
}

} // verus!
