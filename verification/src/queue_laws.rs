//! What holds of every store under the queue operations.

use vstd::prelude::*;

use crate::job::{Job, JobId, JobStatus};
use crate::queue::{
    after_pull, claimable_before, claimable_count, is_claimed, lemma_position,
    lemma_remove_keeps_order, ordered, position, pulled, pulled_before, removed,
};

verus! {

/// What `rounds` claims in a row hand out, each of up to `limit` jobs at
/// `now`: the results one after the other.
pub open spec fn pull_rounds(jobs: Seq<Job>, rounds: nat, limit: nat, now: i64) -> Seq<Job>
    decreases rounds,
{
    if rounds == 0 {
        Seq::empty()
    } else {
        pulled(jobs, limit, now) + pull_rounds(
            after_pull(jobs, limit, now),
            (rounds - 1) as nat,
            limit,
            now,
        )
    }
}

/// The smaller of two counts.
pub open spec fn least(a: nat, b: nat) -> nat {
    if a <= b {
        a
    } else {
        b
    }
}

/// A claim hands out as many jobs as may be claimed, up to its limit.
pub proof fn lemma_pulled_len(jobs: Seq<Job>, n: int, limit: nat, now: i64)
    requires
        0 <= n <= jobs.len(),
    ensures
        pulled_before(jobs, n, limit, now).len() == least(limit, claimable_before(jobs, n, now)),
    decreases n,
{
    if n > 0 {
        lemma_pulled_len(jobs, n - 1, limit, now);
    }
}

/// After a claim, the jobs it took may no longer be claimed, and the others
/// may be claimed exactly when they could before.
pub proof fn lemma_after_pull_count(jobs: Seq<Job>, n: int, limit: nat, now: i64)
    requires
        0 <= n <= jobs.len(),
    ensures
        claimable_before(after_pull(jobs, limit, now), n, now) == claimable_before(jobs, n, now)
            - least(limit, claimable_before(jobs, n, now)),
    decreases n,
{
    if n > 0 {
        lemma_after_pull_count(jobs, n - 1, limit, now);
        let after = after_pull(jobs, limit, now);
        assert(after[n - 1].claimable(now) <==> jobs[n - 1].claimable(now) && !is_claimed(
            jobs,
            n - 1,
            limit,
            now,
        ));
    }
}

proof fn lemma_pull_composes_before(jobs: Seq<Job>, first: nat, second: nat, now: i64, n: int)
    requires
        0 <= n <= jobs.len(),
    ensures
        pulled_before(jobs, n, first + second, now) == pulled_before(jobs, n, first, now)
            + pulled_before(after_pull(jobs, first, now), n, second, now),
    decreases n,
{
    let after = after_pull(jobs, first, now);
    let whole = pulled_before(jobs, n, first + second, now);
    let early = pulled_before(jobs, n, first, now);
    let late = pulled_before(after, n, second, now);
    if n <= 0 {
        assert(whole =~= early + late);
    } else {
        let m = n - 1;
        lemma_pull_composes_before(jobs, first, second, now, m);
        lemma_after_pull_count(jobs, m, first, now);
        lemma_pulled_len(after, m, second, now);
        let early_m = pulled_before(jobs, m, first, now);
        let late_m = pulled_before(after, m, second, now);
        if is_claimed(jobs, m, first, now) {
            assert(!after[m].claimable(now));
            assert(late_m.len() == 0);
            assert(whole =~= early + late);
        } else if is_claimed(after, m, second, now) {
            assert(after[m] == jobs[m]);
            assert(is_claimed(jobs, m, first + second, now));
            assert(whole =~= early + late);
        } else {
            assert(after[m].claimable(now) <==> jobs[m].claimable(now));
            assert(!is_claimed(jobs, m, first + second, now));
            assert(whole =~= early + late);
        }
    }
}

/// Two claims in a row take what one claim with the sum of their limits
/// takes, and leave the store as that claim leaves it.
pub proof fn lemma_pull_composes(jobs: Seq<Job>, first: nat, second: nat, now: i64)
    ensures
        pulled(jobs, first + second, now) == pulled(jobs, first, now) + pulled(
            after_pull(jobs, first, now),
            second,
            now,
        ),
        after_pull(after_pull(jobs, first, now), second, now) == after_pull(
            jobs,
            first + second,
            now,
        ),
{
    let after = after_pull(jobs, first, now);
    lemma_pull_composes_before(jobs, first, second, now, jobs.len() as int);
    assert forall|i: int| 0 <= i < jobs.len() implies after_pull(after, second, now)[i]
        == after_pull(jobs, first + second, now)[i] by {
        lemma_after_pull_count(jobs, i, first, now);
    }
    assert(after_pull(after, second, now) =~= after_pull(jobs, first + second, now));
}

proof fn lemma_rounds_as_one(jobs: Seq<Job>, rounds: nat, limit: nat, now: i64)
    ensures
        pull_rounds(jobs, rounds, limit, now) == pulled(jobs, rounds * limit, now),
    decreases rounds,
{
    if rounds == 0 {
        assert(rounds * limit == 0) by (nonlinear_arith)
            requires
                rounds == 0,
        ;
        lemma_pulled_len(jobs, jobs.len() as int, 0, now);
        assert(pulled(jobs, 0, now) =~= Seq::<Job>::empty());
    } else {
        let rest = (rounds - 1) as nat;
        let after = after_pull(jobs, limit, now);
        lemma_rounds_as_one(after, rest, limit, now);
        lemma_pull_composes(jobs, limit, rest * limit, now);
        assert(limit + rest * limit == rounds * limit) by (nonlinear_arith)
            requires
                rest == rounds - 1,
        ;
    }
}

proof fn lemma_pulled_ordered(jobs: Seq<Job>, next_id: u64, n: int, limit: nat, now: i64)
    requires
        ordered(jobs, next_id),
        0 <= n <= jobs.len(),
    ensures
        forall|i: int, j: int|
            0 <= i < j < pulled_before(jobs, n, limit, now).len() ==> pulled_before(
                jobs,
                n,
                limit,
                now,
            )[i].id.0 < pulled_before(jobs, n, limit, now)[j].id.0,
        forall|i: int|
            0 <= i < pulled_before(jobs, n, limit, now).len() && n < jobs.len()
                ==> pulled_before(jobs, n, limit, now)[i].id.0 < jobs[n].id.0,
        forall|i: int|
            0 <= i < pulled_before(jobs, n, limit, now).len() ==> pulled_before(
                jobs,
                n,
                limit,
                now,
            )[i].id.0 < next_id,
    decreases n,
{
    if n > 0 {
        lemma_pulled_ordered(jobs, next_id, n - 1, limit, now);
    }
}

/// Every job a claim hands out stood in the store as a queued job that was
/// due, and is handed out marked as being processed.
pub proof fn lemma_pulled_were_due(jobs: Seq<Job>, n: int, limit: nat, now: i64)
    requires
        0 <= n <= jobs.len(),
    ensures
        forall|k: int|
            0 <= k < pulled_before(jobs, n, limit, now).len() ==> {
                let job = #[trigger] pulled_before(jobs, n, limit, now)[k];
                &&& job.status == JobStatus::Processing
                &&& (job.scheduled_time matches Some(t) ==> t <= now)
                &&& jobs.contains(Job { status: JobStatus::Queued, ..job })
            },
    decreases n,
{
    if n > 0 {
        lemma_pulled_were_due(jobs, n - 1, limit, now);
        let all = pulled_before(jobs, n, limit, now);
        assert forall|k: int| 0 <= k < all.len() implies {
            let job = #[trigger] all[k];
            &&& job.status == JobStatus::Processing
            &&& (job.scheduled_time matches Some(t) ==> t <= now)
            &&& jobs.contains(Job { status: JobStatus::Queued, ..job })
        } by {
            let job = all[k];
            if is_claimed(jobs, n - 1, limit, now) && k == all.len() - 1 {
                assert(jobs[n - 1] == (Job { status: JobStatus::Queued, ..job }));
            } else {
                assert(job == pulled_before(jobs, n - 1, limit, now)[k]);
            }
        }
    }
}

/// Claim exclusivity. Any number of claims in a row, each of up to `limit`
/// jobs, hand out together what a single claim with the summed limit hands
/// out: no job twice, and as many jobs as may be claimed, up to that sum.
pub proof fn law_claim_exclusivity(
    jobs: Seq<Job>,
    next_id: u64,
    rounds: nat,
    limit: nat,
    now: i64,
)
    requires
        ordered(jobs, next_id),
    ensures
        pull_rounds(jobs, rounds, limit, now) == pulled(jobs, rounds * limit, now),
        pull_rounds(jobs, rounds, limit, now).len() == least(
            claimable_count(jobs, now),
            rounds * limit,
        ),
        forall|i: int, j: int|
            0 <= i < j < pull_rounds(jobs, rounds, limit, now).len() ==> pull_rounds(
                jobs,
                rounds,
                limit,
                now,
            )[i].id != pull_rounds(jobs, rounds, limit, now)[j].id,
{
    lemma_rounds_as_one(jobs, rounds, limit, now);
    lemma_pulled_len(jobs, jobs.len() as int, rounds * limit, now);
    lemma_pulled_ordered(jobs, next_id, jobs.len() as int, rounds * limit, now);
}

/// A job that a claim took is not taken by the next claim, whatever its
/// limit and time.
pub proof fn law_claimed_stays_claimed(
    jobs: Seq<Job>,
    i: int,
    limit: nat,
    now: i64,
    later_limit: nat,
    later: i64,
)
    requires
        0 <= i < jobs.len(),
        is_claimed(jobs, i, limit, now),
    ensures
        !is_claimed(after_pull(jobs, limit, now), i, later_limit, later),
{
}

/// Visibility delay, first half. A claim at `now` hands out no job whose
/// scheduled time lies after `now`; in particular not the job pushed last
/// with such a time.
pub proof fn law_not_claimed_before_due(
    jobs: Seq<Job>,
    next_id: u64,
    job: Job,
    limit: nat,
    now: i64,
)
    requires
        ordered(jobs.push(job), next_id),
        job.scheduled_time matches Some(t) && now < t,
    ensures
        forall|k: int|
            0 <= k < pulled(jobs.push(job), limit, now).len() ==> {
                &&& (#[trigger] pulled(jobs.push(job), limit, now)[k]).id != job.id
                &&& (pulled(jobs.push(job), limit, now)[k].scheduled_time matches Some(t) ==> t
                    <= now)
            },
{
    let store = jobs.push(job);
    lemma_pulled_were_due(store, store.len() as int, limit, now);
    assert forall|k: int| 0 <= k < pulled(store, limit, now).len() implies (#[trigger] pulled(
        store,
        limit,
        now,
    )[k]).id != job.id by {
        let taken = pulled(store, limit, now)[k];
        let source = Job { status: JobStatus::Queued, ..taken };
        assert(store.contains(source));
        let at = choose|at: int| 0 <= at < store.len() && store[at] == source;
        if taken.id == job.id {
            assert(store[store.len() - 1] == job);
            if at < store.len() - 1 {
                assert(store[at].id.0 < store[store.len() - 1].id.0);
            }
            assert(false);
        }
    }
}

proof fn lemma_count_of_prefix(jobs: Seq<Job>, longer: Seq<Job>, n: int, now: i64)
    requires
        0 <= n <= jobs.len() <= longer.len(),
        forall|i: int| 0 <= i < jobs.len() ==> jobs[i] == longer[i],
    ensures
        claimable_before(longer, n, now) == claimable_before(jobs, n, now),
    decreases n,
{
    if n > 0 {
        lemma_count_of_prefix(jobs, longer, n - 1, now);
    }
}

/// Visibility delay, second half. Once its scheduled time has been reached,
/// a queued job pushed last is handed out by a claim whose limit is above
/// the number of due jobs before it.
pub proof fn law_claimed_once_due(jobs: Seq<Job>, job: Job, limit: nat, now: i64)
    requires
        job.status == JobStatus::Queued,
        job.scheduled_time matches Some(t) ==> t <= now,
        claimable_count(jobs, now) < limit,
    ensures
        pulled(jobs.push(job), limit, now).len() > 0,
        pulled(jobs.push(job), limit, now).last() == job.claimed(),
{
    let store = jobs.push(job);
    lemma_count_of_prefix(jobs, store, jobs.len() as int, now);
    assert(is_claimed(store, jobs.len() as int, limit, now));
}

/// No job of an ordered store carries `id` once the job that did has been
/// removed.
pub proof fn lemma_removed_is_gone(jobs: Seq<Job>, next_id: u64, id: JobId)
    requires
        ordered(jobs, next_id),
    ensures
        ordered(removed(jobs, id), next_id),
        forall|i: int| 0 <= i < removed(jobs, id).len() ==> removed(jobs, id)[i].id != id,
        position(removed(jobs, id), id, 0) == removed(jobs, id).len(),
{
    let at = position(jobs, id, 0);
    let rest = removed(jobs, id);
    lemma_position(jobs, id, 0);
    if at < jobs.len() {
        lemma_remove_keeps_order(jobs, at, next_id);
        assert forall|i: int| 0 <= i < rest.len() implies rest[i].id != id by {
            if i < at {
                assert(rest[i] == jobs[i]);
            } else {
                assert(rest[i] == jobs[i + 1]);
                assert(jobs[at].id.0 < jobs[i + 1].id.0);
            }
        }
    }
    lemma_position(rest, id, 0);
}

/// Idempotent acknowledgment. Deleting a job a second time, or deleting an
/// identifier that no job carries, leaves the store as it is.
pub proof fn law_delete_is_idempotent(jobs: Seq<Job>, next_id: u64, id: JobId)
    requires
        ordered(jobs, next_id),
    ensures
        removed(removed(jobs, id), id) == removed(jobs, id),
        (forall|i: int| 0 <= i < jobs.len() ==> jobs[i].id != id) ==> removed(jobs, id) == jobs,
{
    lemma_removed_is_gone(jobs, next_id, id);
    lemma_position(jobs, id, 0);
}

} // verus!
