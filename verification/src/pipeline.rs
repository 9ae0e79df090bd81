//! Laws that span the queue, the worker and the handler.

use vstd::prelude::*;

use crate::handler::{begin, ActionView};
use crate::job::{Job, JobId, JobStatus, Message};
use crate::queue::{
    after_pull, lemma_position, marked_failed, ordered, position, pulled, removed,
};
use crate::queue_laws::{lemma_pulled_were_due, lemma_removed_is_gone};
use crate::runner::{lemma_slot_of, worker_next, WorkerAction, WorkerEventView, WorkerView};
use crate::settings::SettingsView;

verus! {

/// One operation on a store.
pub enum Operation {
    Pull { limit: nat, now: i64 },
    Push { message: Message, status: JobStatus, scheduled_time: Option<i64> },
    Delete { id: JobId },
    Fail { id: JobId },
}

/// The store and its next identifier after one operation.
pub open spec fn performed(jobs: Seq<Job>, next_id: u64, op: Operation) -> (Seq<Job>, u64) {
    match op {
        Operation::Pull { limit, now } => (after_pull(jobs, limit, now), next_id),
        Operation::Push { message, status, scheduled_time } => if next_id < u64::MAX {
            (
                jobs.push(Job { id: JobId(next_id), message, status, scheduled_time }),
                (next_id + 1) as u64,
            )
        } else {
            (jobs, next_id)
        },
        Operation::Delete { id } => (removed(jobs, id), next_id),
        Operation::Fail { id } => (marked_failed(jobs, id), next_id),
    }
}

/// The jobs that one operation hands out: those a pull claims, and none
/// for any other operation.
pub open spec fn handed_out(jobs: Seq<Job>, op: Operation) -> Seq<Job> {
    match op {
        Operation::Pull { limit, now } => pulled(jobs, limit, now),
        _ => Seq::empty(),
    }
}

/// The store and its next identifier after a run of operations.
pub open spec fn performed_all(jobs: Seq<Job>, next_id: u64, ops: Seq<Operation>) -> (
    Seq<Job>,
    u64,
)
    decreases ops.len(),
{
    if ops.len() == 0 {
        (jobs, next_id)
    } else {
        let (before, id) = performed_all(jobs, next_id, ops.drop_last());
        performed(before, id, ops.last())
    }
}

/// An identifier that has been handed out and that no job of the store
/// carries any more.
pub open spec fn gone(jobs: Seq<Job>, next_id: u64, id: JobId) -> bool {
    &&& id.0 < next_id
    &&& forall|i: int| 0 <= i < jobs.len() ==> jobs[i].id != id
}

/// Every operation keeps the store ordered, and keeps an identifier that
/// is gone from coming back or being handed out.
pub proof fn lemma_gone_stays_gone(jobs: Seq<Job>, next_id: u64, id: JobId, op: Operation)
    requires
        ordered(jobs, next_id),
    ensures
        ordered(performed(jobs, next_id, op).0, performed(jobs, next_id, op).1),
        gone(jobs, next_id, id) ==> gone(
            performed(jobs, next_id, op).0,
            performed(jobs, next_id, op).1,
            id,
        ),
        gone(jobs, next_id, id) ==> forall|k: int|
            0 <= k < handed_out(jobs, op).len() ==> (#[trigger] handed_out(jobs, op)[k]).id != id,
{
    match op {
        Operation::Pull { limit, now } => {
            lemma_pulled_were_due(jobs, jobs.len() as int, limit, now);
            if gone(jobs, next_id, id) {
                assert forall|k: int| 0 <= k < pulled(jobs, limit, now).len() implies (
                #[trigger] pulled(jobs, limit, now)[k]).id != id by {
                    let taken = pulled(jobs, limit, now)[k];
                    let source = Job { status: JobStatus::Queued, ..taken };
                    assert(jobs.contains(source));
                }
            }
        },
        Operation::Push { message, status, scheduled_time } => {},
        Operation::Delete { id: other } => {
            lemma_removed_is_gone(jobs, next_id, other);
            let rest = removed(jobs, other);
            let at = position(jobs, other, 0);
            lemma_position(jobs, other, 0);
            if gone(jobs, next_id, id) && at < jobs.len() {
                assert forall|i: int| 0 <= i < rest.len() implies rest[i].id != id by {
                    if i < at {
                        assert(rest[i] == jobs[i]);
                    } else {
                        assert(rest[i] == jobs[i + 1]);
                    }
                }
            }
        },
        Operation::Fail { id: other } => {},
    }
}

/// Unknown messages leave for good. Take a job with a message that is not
/// recognized, claimed from an ordered store by a pull. Its handler ends at
/// once with success; told so, the worker asks for the job to be deleted;
/// and once it is deleted, no run of operations on the store brings its
/// identifier back or hands it out again.
pub proof fn law_unrecognized_leaves_for_good(
    jobs: Seq<Job>,
    next_id: u64,
    limit: nat,
    now: i64,
    k: int,
    settings: SettingsView,
    worker: WorkerView,
    ops: Seq<Operation>,
)
    requires
        ordered(jobs, next_id),
        0 <= k < pulled(jobs, limit, now).len(),
        pulled(jobs, limit, now)[k].message == Message::Unrecognized,
        worker.phase is Working,
        worker.running.contains(pulled(jobs, limit, now)[k].id),
    ensures
        begin(settings, pulled(jobs, limit, now)[k].message).1 == (ActionView::Finish {
            outcome: Ok(()),
        }),
        worker_next(
            worker,
            WorkerEventView::Handled { job: pulled(jobs, limit, now)[k].id, succeeded: true },
        ).1 == seq![WorkerAction::Delete { id: pulled(jobs, limit, now)[k].id }],
        gone(
            performed_all(
                removed(after_pull(jobs, limit, now), pulled(jobs, limit, now)[k].id),
                next_id,
                ops,
            ).0,
            performed_all(
                removed(after_pull(jobs, limit, now), pulled(jobs, limit, now)[k].id),
                next_id,
                ops,
            ).1,
            pulled(jobs, limit, now)[k].id,
        ),
        forall|n: int, i: int|
            0 <= n < ops.len() && 0 <= i < handed_out(
                performed_all(
                    removed(after_pull(jobs, limit, now), pulled(jobs, limit, now)[k].id),
                    next_id,
                    ops.take(n),
                ).0,
                ops[n],
            ).len() ==> (#[trigger] handed_out(
                performed_all(
                    removed(after_pull(jobs, limit, now), pulled(jobs, limit, now)[k].id),
                    next_id,
                    ops.take(n),
                ).0,
                ops[n],
            )[i]).id != pulled(jobs, limit, now)[k].id,
{
    let job = pulled(jobs, limit, now)[k];
    let id = job.id;
    lemma_slot_of(worker.running, id, 0);
    lemma_pulled_were_due(jobs, jobs.len() as int, limit, now);
    let source = Job { status: JobStatus::Queued, ..job };
    assert(jobs.contains(source));
    let claimed = after_pull(jobs, limit, now);
    lemma_gone_stays_gone(jobs, next_id, id, Operation::Pull { limit, now });
    lemma_removed_is_gone(claimed, next_id, id);
    let start = removed(claimed, id);
    assert(gone(start, next_id, id));
    lemma_gone_after_all(start, next_id, id, ops);
    assert forall|n: int, i: int|
        0 <= n < ops.len() && 0 <= i < handed_out(
            performed_all(start, next_id, ops.take(n)).0,
            ops[n],
        ).len() implies (#[trigger] handed_out(
        performed_all(start, next_id, ops.take(n)).0,
        ops[n],
    )[i]).id != id by {
        lemma_gone_after_all(start, next_id, id, ops.take(n));
        let (before, next) = performed_all(start, next_id, ops.take(n));
        lemma_gone_stays_gone(before, next, id, ops[n]);
    }
}

/// A run of operations keeps the store ordered and keeps an identifier
/// that is gone from coming back.
pub proof fn lemma_gone_after_all(jobs: Seq<Job>, next_id: u64, id: JobId, ops: Seq<Operation>)
    requires
        ordered(jobs, next_id),
        gone(jobs, next_id, id),
    ensures
        ordered(performed_all(jobs, next_id, ops).0, performed_all(jobs, next_id, ops).1),
        gone(performed_all(jobs, next_id, ops).0, performed_all(jobs, next_id, ops).1, id),
    decreases ops.len(),
{
    if ops.len() > 0 {
        lemma_gone_after_all(jobs, next_id, id, ops.drop_last());
        let (before, next) = performed_all(jobs, next_id, ops.drop_last());
        lemma_gone_stays_gone(before, next, id, ops.last());
    }
}

} // verus!
