//! The worker loop, as a state machine.
//!
//! The worker pulls a batch, has every job of it handled with at most
//! `concurrency` jobs in flight, acknowledges each job as its handling ends,
//! sleeps, and pulls again. It never touches the queue or a job itself: it
//! answers each [`WorkerEvent`] with the [`WorkerAction`]s to perform, and
//! the driver reports back. [`worker_next`] is the whole transition table.

use vstd::prelude::*;

use crate::job::{Job, JobId};

verus! {

/// How long the worker waits after a failed pull, in milliseconds.
pub const BACKOFF_MS: u64 = 500;

/// How long the worker waits between two batches, in milliseconds.
pub const IDLE_MS: u64 = 125;

/// What the worker is waiting for.
#[derive(Clone, Copy, Debug, PartialEq, Eq, Structural)]
pub enum WorkerPhase {
    /// A pull is under way.
    Pulling,
    /// The pull failed; the backoff sleep is under way.
    BackingOff,
    /// Jobs of the batch are in flight.
    Working,
    /// The batch is over; the idle sleep is under way.
    Idling,
}

/// What the driver is asked to do.
#[derive(Clone, Copy, Debug, PartialEq, Eq)]
pub enum WorkerAction {
    /// Claim up to `limit` jobs from the queue.
    Pull { limit: usize },
    /// Run the handler on `job`.
    Handle { job: Job },
    /// Acknowledge the job `id` as done: delete it from the queue.
    Delete { id: JobId },
    /// Acknowledge the job `id` as failed.
    Fail { id: JobId },
    /// Sleep for `millis` milliseconds.
    Sleep { millis: u64 },
}

/// What the driver reports.
#[derive(Debug, PartialEq, Eq)]
pub enum WorkerEvent {
    /// The pull handed out `jobs`.
    Pulled { jobs: Vec<Job> },
    /// The pull failed.
    PullFailed,
    /// The handler of `job` ended, with success or not.
    Handled { job: JobId, succeeded: bool },
    /// The acknowledgment of `job` returned, whatever it returned.
    Acknowledged { job: JobId },
    /// The sleep is over.
    Woke,
}

/// A [`WorkerEvent`] as a mathematical value.
pub enum WorkerEventView {
    Pulled { jobs: Seq<Job> },
    PullFailed,
    Handled { job: JobId, succeeded: bool },
    Acknowledged { job: JobId },
    Woke,
}

impl View for WorkerEvent {
    type V = WorkerEventView;

    open spec fn view(&self) -> WorkerEventView {
        match self {
            WorkerEvent::Pulled { jobs } => WorkerEventView::Pulled { jobs: jobs@ },
            WorkerEvent::PullFailed => WorkerEventView::PullFailed,
            WorkerEvent::Handled { job, succeeded } => WorkerEventView::Handled {
                job: *job,
                succeeded: *succeeded,
            },
            WorkerEvent::Acknowledged { job } => WorkerEventView::Acknowledged { job: *job },
            WorkerEvent::Woke => WorkerEventView::Woke,
        }
    }
}

/// The state of the worker loop.
#[derive(Debug, PartialEq, Eq)]
pub struct Worker {
    /// The size of a pull and the bound on jobs in flight.
    pub concurrency: usize,
    pub phase: WorkerPhase,
    /// Jobs of the batch that have not been started, in the order pulled.
    pub waiting: Vec<Job>,
    /// Jobs whose handler is running.
    pub running: Vec<JobId>,
    /// Jobs whose acknowledgment is under way.
    pub settling: Vec<JobId>,
}

/// A [`Worker`] as a mathematical value.
pub struct WorkerView {
    pub concurrency: usize,
    pub phase: WorkerPhase,
    pub waiting: Seq<Job>,
    pub running: Seq<JobId>,
    pub settling: Seq<JobId>,
}

impl View for Worker {
    type V = WorkerView;

    open spec fn view(&self) -> WorkerView {
        WorkerView {
            concurrency: self.concurrency,
            phase: self.phase,
            waiting: self.waiting@,
            running: self.running@,
            settling: self.settling@,
        }
    }
}

impl WorkerView {
    /// How many jobs occupy a slot: those being handled and those being
    /// acknowledged.
    pub open spec fn in_flight(self) -> nat {
        self.running.len() + self.settling.len()
    }

    /// The invariant of the loop. No more jobs are in flight than the
    /// configured concurrency; jobs wait only while every slot is taken;
    /// and outside a batch nothing is in flight and nothing waits.
    pub open spec fn wf(self) -> bool {
        &&& self.in_flight() <= self.concurrency
        &&& self.waiting.len() > 0 ==> self.in_flight() == self.concurrency
        &&& self.phase is Working ==> self.in_flight() > 0
        &&& !(self.phase is Working) ==> self.in_flight() == 0 && self.waiting.len() == 0
    }
}

/// The index of the first entry of `ids` at or behind `from` that equals
/// `id`; the length of `ids` where there is none.
pub open spec fn slot_of(ids: Seq<JobId>, id: JobId, from: int) -> int
    decreases ids.len() - from,
{
    if from < 0 || from >= ids.len() {
        ids.len() as int
    } else if ids[from] == id {
        from
    } else {
        slot_of(ids, id, from + 1)
    }
}

/// The state a worker starts in.
pub open spec fn worker_start(concurrency: usize) -> (WorkerView, Seq<WorkerAction>) {
    (
        WorkerView {
            concurrency,
            phase: WorkerPhase::Pulling,
            waiting: Seq::empty(),
            running: Seq::empty(),
            settling: Seq::empty(),
        },
        seq![WorkerAction::Pull { limit: concurrency }],
    )
}

/// The state between two batches: nothing in flight, the idle sleep asked
/// for.
pub open spec fn idle(s: WorkerView) -> (WorkerView, Seq<WorkerAction>) {
    (
        WorkerView {
            phase: WorkerPhase::Idling,
            waiting: Seq::empty(),
            running: Seq::empty(),
            settling: Seq::empty(),
            ..s
        },
        seq![WorkerAction::Sleep { millis: IDLE_MS }],
    )
}

/// How many jobs of a batch of `len` are started at once.
pub open spec fn started(concurrency: usize, len: nat) -> nat {
    if len <= concurrency {
        len
    } else {
        concurrency as nat
    }
}

/// The transition table of the worker loop. An event that the current
/// phase does not wait for changes nothing and asks for nothing.
pub open spec fn worker_next(s: WorkerView, event: WorkerEventView) -> (
    WorkerView,
    Seq<WorkerAction>,
) {
    let unchanged = (s, Seq::<WorkerAction>::empty());
    match s.phase {
        WorkerPhase::Pulling => match event {
            WorkerEventView::Pulled { jobs } => {
                let count = started(s.concurrency, jobs.len());
                if count == 0 {
                    idle(s)
                } else {
                    (
                        WorkerView {
                            phase: WorkerPhase::Working,
                            waiting: jobs.skip(count as int),
                            running: Seq::new(count, |i: int| jobs[i].id),
                            settling: Seq::empty(),
                            ..s
                        },
                        Seq::new(count, |i: int| WorkerAction::Handle { job: jobs[i] }),
                    )
                }
            },
            WorkerEventView::PullFailed => (
                WorkerView { phase: WorkerPhase::BackingOff, ..s },
                seq![WorkerAction::Sleep { millis: BACKOFF_MS }],
            ),
            _ => unchanged,
        },
        WorkerPhase::BackingOff => match event {
            WorkerEventView::Woke => idle(s),
            _ => unchanged,
        },
        WorkerPhase::Working => match event {
            WorkerEventView::Handled { job, succeeded } => {
                let at = slot_of(s.running, job, 0);
                if at < s.running.len() {
                    (
                        WorkerView {
                            running: s.running.remove(at),
                            settling: s.settling.push(job),
                            ..s
                        },
                        seq![
                            if succeeded {
                                WorkerAction::Delete { id: job }
                            } else {
                                WorkerAction::Fail { id: job }
                            },
                        ],
                    )
                } else {
                    unchanged
                }
            },
            WorkerEventView::Acknowledged { job } => {
                let at = slot_of(s.settling, job, 0);
                if at >= s.settling.len() {
                    unchanged
                } else if s.waiting.len() > 0 {
                    (
                        WorkerView {
                            waiting: s.waiting.drop_first(),
                            running: s.running.push(s.waiting[0].id),
                            settling: s.settling.remove(at),
                            ..s
                        },
                        seq![WorkerAction::Handle { job: s.waiting[0] }],
                    )
                } else if s.running.len() + s.settling.len() == 1 {
                    idle(s)
                } else {
                    (WorkerView { settling: s.settling.remove(at), ..s }, Seq::empty())
                }
            },
            _ => unchanged,
        },
        WorkerPhase::Idling => match event {
            WorkerEventView::Woke => (
                WorkerView { phase: WorkerPhase::Pulling, ..s },
                seq![WorkerAction::Pull { limit: s.concurrency }],
            ),
            _ => unchanged,
        },
    }
}

fn find_slot(ids: &Vec<JobId>, id: JobId) -> (at: usize)
    ensures
        at == slot_of(ids@, id, 0),
        at <= ids@.len(),
{
    let mut i: usize = 0;
    while i < ids.len()
        invariant
            i <= ids@.len(),
            slot_of(ids@, id, 0) == slot_of(ids@, id, i as int),
        decreases ids@.len() - i,
    {
        if ids[i].0 == id.0 {
            return i;
        }
        i += 1;
    }
    i
}

fn go_idle(state: Worker) -> (r: (Worker, Vec<WorkerAction>))
    ensures
        (r.0@, r.1@) == idle(state@),
{
    let mut actions: Vec<WorkerAction> = Vec::new();
    actions.push(WorkerAction::Sleep { millis: IDLE_MS });
    let next = Worker {
        concurrency: state.concurrency,
        phase: WorkerPhase::Idling,
        waiting: Vec::new(),
        running: Vec::new(),
        settling: Vec::new(),
    };
    assert(actions@ =~= seq![WorkerAction::Sleep { millis: IDLE_MS }]);
    (next, actions)
}

fn one(action: WorkerAction) -> (actions: Vec<WorkerAction>)
    ensures
        actions@ == seq![action],
{
    let mut actions: Vec<WorkerAction> = Vec::new();
    actions.push(action);
    assert(actions@ =~= seq![action]);
    actions
}

fn begin_batch(state: Worker, jobs: Vec<Job>) -> (r: (Worker, Vec<WorkerAction>))
    requires
        state@.phase is Pulling,
    ensures
        (r.0@, r.1@) == worker_next(state@, WorkerEventView::Pulled { jobs: jobs@ }),
{
    let count: usize = if jobs.len() <= state.concurrency {
        jobs.len()
    } else {
        state.concurrency
    };
    if count == 0 {
        return go_idle(state);
    }
    let mut running: Vec<JobId> = Vec::new();
    let mut waiting: Vec<Job> = Vec::new();
    let mut actions: Vec<WorkerAction> = Vec::new();
    let mut i: usize = 0;
    while i < jobs.len()
        invariant
            i <= jobs@.len(),
            0 < count <= jobs@.len(),
            running@ == Seq::new(
                if i <= count {
                    i as nat
                } else {
                    count as nat
                },
                |k: int| jobs@[k].id,
            ),
            actions@ == Seq::new(
                if i <= count {
                    i as nat
                } else {
                    count as nat
                },
                |k: int| WorkerAction::Handle { job: jobs@[k] },
            ),
            waiting@ == if i <= count {
                Seq::<Job>::empty()
            } else {
                jobs@.subrange(count as int, i as int)
            },
        decreases jobs@.len() - i,
    {
        let job = jobs[i];
        if i < count {
            running.push(job.id);
            actions.push(WorkerAction::Handle { job });
            assert(running@ =~= Seq::new((i + 1) as nat, |k: int| jobs@[k].id));
            assert(actions@ =~= Seq::new(
                (i + 1) as nat,
                |k: int| WorkerAction::Handle { job: jobs@[k] },
            ));
        } else {
            waiting.push(job);
            assert(waiting@ =~= jobs@.subrange(count as int, i as int + 1));
        }
        i += 1;
    }
    assert(waiting@ =~= jobs@.skip(count as int));
    (
        Worker {
            concurrency: state.concurrency,
            phase: WorkerPhase::Working,
            waiting,
            running,
            settling: Vec::new(),
        },
        actions,
    )
}

impl Worker {
    /// A worker that pulls up to `concurrency` jobs at a time and keeps at
    /// most that many in flight, with the pull it begins with.
    pub fn new(concurrency: usize) -> (r: (Worker, Vec<WorkerAction>))
        ensures
            (r.0@, r.1@) == worker_start(concurrency),
            r.0@.wf(),
    {
        (
            Worker {
                concurrency,
                phase: WorkerPhase::Pulling,
                waiting: Vec::new(),
                running: Vec::new(),
                settling: Vec::new(),
            },
            one(WorkerAction::Pull { limit: concurrency }),
        )
    }

    /// How many jobs occupy a slot.
    pub fn in_flight(&self) -> (n: usize)
        requires
            self@.wf(),
        ensures
            n == self@.in_flight(),
    {
        self.running.len() + self.settling.len()
    }
}

/// Advances the worker loop by one event: the state after it and the
/// actions to perform, in order.
pub fn run_worker(state: Worker, event: WorkerEvent) -> (r: (Worker, Vec<WorkerAction>))
    ensures
        (r.0@, r.1@) == worker_next(state@, event@),
{
    match state.phase {
        WorkerPhase::Pulling => match event {
            WorkerEvent::Pulled { jobs } => begin_batch(state, jobs),
            WorkerEvent::PullFailed => (
                Worker {
                    concurrency: state.concurrency,
                    phase: WorkerPhase::BackingOff,
                    waiting: state.waiting,
                    running: state.running,
                    settling: state.settling,
                },
                one(WorkerAction::Sleep { millis: BACKOFF_MS }),
            ),
            _ => (state, Vec::new()),
        },
        WorkerPhase::BackingOff => match event {
            WorkerEvent::Woke => go_idle(state),
            _ => (state, Vec::new()),
        },
        WorkerPhase::Working => match event {
            WorkerEvent::Handled { job, succeeded } => {
                let at = find_slot(&state.running, job);
                if at < state.running.len() {
                    let mut running = state.running;
                    let mut settling = state.settling;
                    running.remove(at);
                    settling.push(job);
                    let action = if succeeded {
                        WorkerAction::Delete { id: job }
                    } else {
                        WorkerAction::Fail { id: job }
                    };
                    (
                        Worker {
                            concurrency: state.concurrency,
                            phase: state.phase,
                            waiting: state.waiting,
                            running,
                            settling,
                        },
                        one(action),
                    )
                } else {
                    (state, Vec::new())
                }
            },
            WorkerEvent::Acknowledged { job } => {
                let at = find_slot(&state.settling, job);
                if at >= state.settling.len() {
                    (state, Vec::new())
                } else if state.waiting.len() > 0 {
                    let mut waiting = state.waiting;
                    let mut running = state.running;
                    let mut settling = state.settling;
                    let first = waiting.remove(0);
                    assert(waiting@ =~= state.waiting@.drop_first());
                    running.push(first.id);
                    settling.remove(at);
                    (
                        Worker {
                            concurrency: state.concurrency,
                            phase: state.phase,
                            waiting,
                            running,
                            settling,
                        },
                        one(WorkerAction::Handle { job: first }),
                    )
                } else if state.running.len() == 0 && state.settling.len() == 1 {
                    go_idle(state)
                } else {
                    let mut settling = state.settling;
                    settling.remove(at);
                    (
                        Worker {
                            concurrency: state.concurrency,
                            phase: state.phase,
                            waiting: state.waiting,
                            running: state.running,
                            settling,
                        },
                        Vec::new(),
                    )
                }
            },
            _ => (state, Vec::new()),
        },
        WorkerPhase::Idling => match event {
            WorkerEvent::Woke => {
                let limit = state.concurrency;
                (
                    Worker {
                        concurrency: state.concurrency,
                        phase: WorkerPhase::Pulling,
                        waiting: state.waiting,
                        running: state.running,
                        settling: state.settling,
                    },
                    one(WorkerAction::Pull { limit }),
                )
            },
            _ => (state, Vec::new()),
        },
    }
}

/// `slot_of` finds an index inside `ids` where `id` stands, and `id` stands
/// nowhere before it.
pub proof fn lemma_slot_of(ids: Seq<JobId>, id: JobId, from: int)
    requires
        0 <= from <= ids.len(),
    ensures
        from <= slot_of(ids, id, from) <= ids.len(),
        slot_of(ids, id, from) < ids.len() ==> ids[slot_of(ids, id, from)] == id,
        forall|i: int| from <= i < slot_of(ids, id, from) ==> ids[i] != id,
    decreases ids.len() - from,
{
    if from < ids.len() && ids[from] != id {
        lemma_slot_of(ids, id, from + 1);
    }
}

/// Bounded concurrency. Whatever is reported, the worker never has more
/// jobs in flight than its configured concurrency, and never more than the
/// batch it pulled.
pub proof fn law_worker_keeps_bound(s: WorkerView, event: WorkerEventView)
    requires
        s.wf(),
    ensures
        worker_next(s, event).0.wf(),
        worker_next(s, event).0.concurrency == s.concurrency,
        event matches WorkerEventView::Pulled { jobs } ==> (s.phase is Pulling ==> worker_next(
            s,
            event,
        ).0.in_flight() <= jobs.len()),
{
    lemma_slot_of(s.running, event->Handled_job, 0);
    lemma_slot_of(s.settling, event->Acknowledged_job, 0);
}

/// One batch at a time. The worker asks for a pull only when it wakes from
/// the idle sleep, with nothing in flight and nothing waiting, and it asks
/// for as many jobs as it may have in flight. It asks for the idle sleep
/// only once the batch is over.
pub proof fn law_pull_waits_for_batch(s: WorkerView, event: WorkerEventView, k: int)
    requires
        s.wf(),
        0 <= k < worker_next(s, event).1.len(),
    ensures
        worker_next(s, event).1[k] is Pull ==> {
            &&& s.phase is Idling
            &&& event is Woke
            &&& worker_next(s, event).1 == seq![WorkerAction::Pull { limit: s.concurrency }]
            &&& worker_next(s, event).0.in_flight() == 0
            &&& worker_next(s, event).0.waiting.len() == 0
        },
        worker_next(s, event).1[k] is Sleep ==> {
            &&& worker_next(s, event).0.in_flight() == 0
            &&& worker_next(s, event).0.waiting.len() == 0
        },
{
    lemma_slot_of(s.running, event->Handled_job, 0);
    lemma_slot_of(s.settling, event->Acknowledged_job, 0);
}

/// Acknowledgment follows handling. The worker asks for a job to be deleted
/// only in answer to the report that its handler succeeded, and for a job
/// to be marked as failed only in answer to the report that its handler
/// failed; either way the job was running, and nothing else is asked for.
pub proof fn law_acknowledgment_follows_handling(s: WorkerView, event: WorkerEventView, k: int)
    requires
        0 <= k < worker_next(s, event).1.len(),
    ensures
        worker_next(s, event).1[k] matches WorkerAction::Delete { id: job } ==> {
            &&& event == (WorkerEventView::Handled { job, succeeded: true })
            &&& s.running.contains(job)
            &&& worker_next(s, event).1.len() == 1
        },
        worker_next(s, event).1[k] matches WorkerAction::Fail { id: job } ==> {
            &&& event == (WorkerEventView::Handled { job, succeeded: false })
            &&& s.running.contains(job)
            &&& worker_next(s, event).1.len() == 1
        },
{
    lemma_slot_of(s.running, event->Handled_job, 0);
    lemma_slot_of(s.settling, event->Acknowledged_job, 0);
}

/// Every handled job is acknowledged. When the handler of a running job
/// ends, the worker asks for exactly one acknowledgment: deletion after
/// success, failure otherwise.
pub proof fn law_handled_job_is_acknowledged(s: WorkerView, job: JobId, succeeded: bool)
    requires
        s.phase is Working,
        s.running.contains(job),
    ensures
        worker_next(s, WorkerEventView::Handled { job, succeeded }).1 == seq![
            if succeeded {
                WorkerAction::Delete { id: job }
            } else {
                WorkerAction::Fail { id: job }
            },
        ],
{
    lemma_slot_of(s.running, job, 0);
}

/// A batch within the limit is dispatched whole. When the pull hands out
/// no more jobs than the configured concurrency, the worker starts all of
/// them at once, in order.
pub proof fn law_batch_is_dispatched(s: WorkerView, jobs: Seq<Job>)
    requires
        s.phase is Pulling,
        0 < jobs.len() <= s.concurrency,
    ensures
        worker_next(s, WorkerEventView::Pulled { jobs }).1 == Seq::new(
            jobs.len(),
            |i: int| WorkerAction::Handle { job: jobs[i] },
        ),
        worker_next(s, WorkerEventView::Pulled { jobs }).0.waiting.len() == 0,
{
}

} // verus!
