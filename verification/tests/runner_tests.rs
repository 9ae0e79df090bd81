use video_queue::job::{Job, JobId, JobStatus, Message};
use video_queue::runner::{
    run_worker, Worker, WorkerAction, WorkerEvent, WorkerPhase, BACKOFF_MS, IDLE_MS,
};

fn job(n: u64) -> Job {
    Job {
        id: JobId(n),
        message: Message::Unrecognized,
        status: JobStatus::Processing,
        scheduled_time: None,
    }
}

fn handled(n: u64, succeeded: bool) -> WorkerEvent {
    WorkerEvent::Handled { job: JobId(n), succeeded }
}

fn acknowledged(n: u64) -> WorkerEvent {
    WorkerEvent::Acknowledged { job: JobId(n) }
}

#[test]
fn worker_begins_with_a_pull_of_its_concurrency() {
    let (worker, actions) = Worker::new(4);
    assert_eq!(worker.phase, WorkerPhase::Pulling);
    assert_eq!(actions, vec![WorkerAction::Pull { limit: 4 }]);
    assert_eq!(worker.in_flight(), 0);
}

#[test]
fn sleep_intervals() {
    assert_eq!(BACKOFF_MS, 500);
    assert_eq!(IDLE_MS, 125);
}

#[test]
fn failed_pull_backs_off_and_idles_before_the_next_pull() {
    let (worker, _) = Worker::new(2);
    let (worker, actions) = run_worker(worker, WorkerEvent::PullFailed);
    assert_eq!(actions, vec![WorkerAction::Sleep { millis: 500 }]);
    assert_eq!(worker.phase, WorkerPhase::BackingOff);
    let (worker, actions) = run_worker(worker, WorkerEvent::Woke);
    assert_eq!(actions, vec![WorkerAction::Sleep { millis: 125 }]);
    assert_eq!(worker.phase, WorkerPhase::Idling);
    let (worker, actions) = run_worker(worker, WorkerEvent::Woke);
    assert_eq!(actions, vec![WorkerAction::Pull { limit: 2 }]);
    assert_eq!(worker.phase, WorkerPhase::Pulling);
}

#[test]
fn empty_batch_idles() {
    let (worker, _) = Worker::new(2);
    let (worker, actions) = run_worker(worker, WorkerEvent::Pulled { jobs: vec![] });
    assert_eq!(actions, vec![WorkerAction::Sleep { millis: 125 }]);
    assert_eq!(worker.phase, WorkerPhase::Idling);
}

#[test]
fn batch_is_dispatched_and_acknowledged() {
    let (worker, _) = Worker::new(2);
    let (worker, actions) = run_worker(worker, WorkerEvent::Pulled { jobs: vec![job(1), job(2)] });
    assert_eq!(
        actions,
        vec![WorkerAction::Handle { job: job(1) }, WorkerAction::Handle { job: job(2) }]
    );
    assert_eq!(worker.in_flight(), 2);

    let (worker, actions) = run_worker(worker, handled(2, false));
    assert_eq!(actions, vec![WorkerAction::Fail { id: JobId(2) }]);
    let (worker, actions) = run_worker(worker, handled(1, true));
    assert_eq!(actions, vec![WorkerAction::Delete { id: JobId(1) }]);
    assert_eq!(worker.in_flight(), 2);

    let (worker, actions) = run_worker(worker, acknowledged(1));
    assert_eq!(actions, vec![]);
    assert_eq!(worker.phase, WorkerPhase::Working);
    let (worker, actions) = run_worker(worker, acknowledged(2));
    assert_eq!(actions, vec![WorkerAction::Sleep { millis: 125 }]);
    assert_eq!(worker.phase, WorkerPhase::Idling);
    assert_eq!(worker.in_flight(), 0);
}

#[test]
fn jobs_beyond_the_concurrency_wait_for_a_slot() {
    let (worker, _) = Worker::new(1);
    let (worker, actions) =
        run_worker(worker, WorkerEvent::Pulled { jobs: vec![job(1), job(2), job(3)] });
    assert_eq!(actions, vec![WorkerAction::Handle { job: job(1) }]);
    assert_eq!(worker.waiting, vec![job(2), job(3)]);
    let (worker, _) = run_worker(worker, handled(1, true));
    let (worker, actions) = run_worker(worker, acknowledged(1));
    assert_eq!(actions, vec![WorkerAction::Handle { job: job(2) }]);
    assert_eq!(worker.in_flight(), 1);
    let (worker, _) = run_worker(worker, handled(2, true));
    let (worker, actions) = run_worker(worker, acknowledged(2));
    assert_eq!(actions, vec![WorkerAction::Handle { job: job(3) }]);
    let (worker, _) = run_worker(worker, handled(3, false));
    let (worker, actions) = run_worker(worker, acknowledged(3));
    assert_eq!(actions, vec![WorkerAction::Sleep { millis: 125 }]);
    assert_eq!(worker.phase, WorkerPhase::Idling);
}

#[test]
fn worker_without_slots_starts_nothing() {
    let (worker, actions) = Worker::new(0);
    assert_eq!(actions, vec![WorkerAction::Pull { limit: 0 }]);
    let (worker, actions) = run_worker(worker, WorkerEvent::Pulled { jobs: vec![job(1)] });
    assert_eq!(actions, vec![WorkerAction::Sleep { millis: 125 }]);
    assert_eq!(worker.in_flight(), 0);
    assert_eq!(worker.waiting, vec![]);
}

#[test]
fn reports_that_are_not_awaited_change_nothing() {
    let (worker, _) = Worker::new(2);
    let (worker, actions) = run_worker(worker, WorkerEvent::Woke);
    assert_eq!(actions, vec![]);
    assert_eq!(worker.phase, WorkerPhase::Pulling);
    let (worker, _) = run_worker(worker, WorkerEvent::Pulled { jobs: vec![job(1)] });
    let (worker, actions) = run_worker(worker, handled(9, true));
    assert_eq!(actions, vec![]);
    let (worker, actions) = run_worker(worker, acknowledged(1));
    assert_eq!(actions, vec![]);
    assert_eq!(worker.running, vec![JobId(1)]);
    let (worker, actions) = run_worker(worker, WorkerEvent::PullFailed);
    assert_eq!(actions, vec![]);
    assert_eq!(worker.phase, WorkerPhase::Working);
}

#[test]
fn acknowledgment_is_asked_for_once() {
    let (worker, _) = Worker::new(2);
    let (worker, _) = run_worker(worker, WorkerEvent::Pulled { jobs: vec![job(1)] });
    let (worker, actions) = run_worker(worker, handled(1, true));
    assert_eq!(actions, vec![WorkerAction::Delete { id: JobId(1) }]);
    let (_, actions) = run_worker(worker, handled(1, true));
    assert_eq!(actions, vec![]);
}
