use std::io::{Cursor, Read, Write};

use video_queue::error::Error;
use video_queue::handler::{handle_job_at, start, Action, Event, CHUNK_SIZE};
use video_queue::job::{Job, JobId, JobStatus, Message, VideoId};
use video_queue::queue::MemoryQueue;
use video_queue::runner::{run_worker, Worker, WorkerAction, WorkerEvent, WorkerPhase};
use video_queue::settings::Settings;
use video_queue::video::{CompressionStatus, ProcessingStatus, Video, VideoChange};

const ID: u128 = 0x67e55044_10b1_426f_9247_bb680e5fe0c8;
const DAY: i64 = 86_400_000;

fn settings() -> Settings {
    Settings::resolve(None, None)
}

/// A stand-in for the outside world of one job: a video record, a raw file
/// in memory, an archive in memory and a queue.
struct World {
    video: Video,
    raw: Option<Vec<u8>>,
    cursor: usize,
    buffer: Vec<u8>,
    writer: Option<zip::ZipWriter<Cursor<Vec<u8>>>>,
    archive: Option<Vec<u8>>,
    queue: MemoryQueue,
    fail_write_number: Option<usize>,
    writes_seen: usize,
    removal_asked: bool,
}

impl World {
    fn new(raw: Vec<u8>) -> World {
        World {
            video: Video::new(VideoId(ID), "uploads/clip.mp4".to_string()),
            raw: Some(raw),
            cursor: 0,
            buffer: vec![0; CHUNK_SIZE],
            writer: None,
            archive: None,
            queue: MemoryQueue::new(),
            fail_write_number: None,
            writes_seen: 0,
            removal_asked: false,
        }
    }

    fn perform(&mut self, action: Action, now: i64) -> Option<Event> {
        let event = match action {
            Action::UpdateVideo { change, .. } => {
                self.video.apply(change);
                Event::Done
            }
            Action::FetchVideo { .. } => match &self.video.raw_video_path {
                Some(path) => Event::Video { raw_video_path: path.clone() },
                None => Event::Failed { reason: "raw_video_path is null".to_string() },
            },
            Action::Transcode { .. } => Event::Done,
            Action::Push { message, status, scheduled_time } => {
                assert!(scheduled_time.unwrap() >= now);
                self.queue.push(message, status, scheduled_time).unwrap();
                Event::Done
            }
            Action::CreateDirectory { .. } => Event::Done,
            Action::CreateArchive { .. } => {
                self.writer = Some(zip::ZipWriter::new(Cursor::new(Vec::new())));
                Event::Done
            }
            Action::StartEntry { name } => {
                let options = zip::write::FileOptions::default();
                match self.writer.as_mut().unwrap().start_file(name, options) {
                    Ok(()) => Event::Done,
                    Err(error) => Event::Failed { reason: error.to_string() },
                }
            }
            Action::OpenSource { .. } => {
                self.cursor = 0;
                Event::Done
            }
            Action::ReadChunk { limit } => {
                let raw = self.raw.as_ref().unwrap();
                let len = limit.min(raw.len() - self.cursor);
                self.buffer[..len].copy_from_slice(&raw[self.cursor..self.cursor + len]);
                self.cursor += len;
                Event::Chunk { len }
            }
            Action::WriteChunk { len } => {
                self.writes_seen += 1;
                if self.fail_write_number == Some(self.writes_seen) {
                    Event::Failed { reason: "simulated write error".to_string() }
                } else {
                    self.writer.as_mut().unwrap().write_all(&self.buffer[..len]).unwrap();
                    Event::Done
                }
            }
            Action::FinishArchive => {
                let cursor = self.writer.take().unwrap().finish().unwrap();
                self.archive = Some(cursor.into_inner());
                Event::Done
            }
            Action::CloseSource => Event::Done,
            Action::RemoveSource { .. } => {
                self.removal_asked = true;
                self.raw = None;
                Event::Done
            }
            Action::Finish { .. } => return None,
        };
        Some(event)
    }

    /// Runs one job to its end and hands back its outcome.
    fn handle(&mut self, message: Message, now: i64) -> Result<(), Error> {
        let (mut state, mut action) = start(settings(), message);
        loop {
            if let Action::Finish { outcome } = action {
                return outcome;
            }
            let event = self.perform(action, now).unwrap();
            let (next, answer) = handle_job_at(state, event, now);
            state = next;
            action = answer;
        }
    }
}

fn sample(len: usize) -> Vec<u8> {
    (0..len).map(|i| (i * 31 % 251) as u8).collect()
}

#[test]
fn archive_round_trip_of_a_file_that_is_no_multiple_of_the_chunk() {
    let raw = sample(CHUNK_SIZE + 37);
    let mut world = World::new(raw.clone());
    let outcome = world.handle(Message::CompressRawVideo { video_id: VideoId(ID) }, 0);
    assert_eq!(outcome, Ok(()));
    assert_eq!(world.writes_seen, 2);

    let bytes = world.archive.clone().unwrap();
    let mut archive = zip::ZipArchive::new(Cursor::new(bytes)).unwrap();
    assert_eq!(archive.len(), 1);
    let mut entry = archive.by_index(0).unwrap();
    assert_eq!(entry.name(), "clip.mp4");
    let mut extracted = Vec::new();
    entry.read_to_end(&mut extracted).unwrap();
    assert_eq!(extracted.len(), CHUNK_SIZE + 37);
    assert!(extracted == raw);
}

#[test]
fn archive_round_trip_of_an_exact_multiple_and_of_an_empty_file() {
    for len in [0, CHUNK_SIZE, 2 * CHUNK_SIZE] {
        let raw = sample(len);
        let mut world = World::new(raw.clone());
        assert_eq!(world.handle(Message::CompressRawVideo { video_id: VideoId(ID) }, 0), Ok(()));
        assert_eq!(world.writes_seen, len / CHUNK_SIZE);
        let mut archive = zip::ZipArchive::new(Cursor::new(world.archive.clone().unwrap())).unwrap();
        let mut extracted = Vec::new();
        archive.by_index(0).unwrap().read_to_end(&mut extracted).unwrap();
        assert!(extracted == raw);
    }
}

#[test]
fn successful_compression_clears_the_raw_path() {
    let mut world = World::new(sample(10));
    assert_eq!(world.handle(Message::CompressRawVideo { video_id: VideoId(ID) }, 0), Ok(()));
    assert!(world.removal_asked);
    assert_eq!(world.raw, None);
    assert_eq!(world.video.raw_video_path, None);
    assert_eq!(world.video.compression_status, CompressionStatus::Completed);
    assert_eq!(
        world.video.compressed_video_path,
        Some("videos/67e55044-10b1-426f-9247-bb680e5fe0c8/raw.zip".to_string())
    );
}

#[test]
fn failure_while_archiving_preserves_the_source() {
    let raw = sample(2 * CHUNK_SIZE + 5);
    let mut world = World::new(raw.clone());
    world.fail_write_number = Some(2);
    let outcome = world.handle(Message::CompressRawVideo { video_id: VideoId(ID) }, 0);
    assert_eq!(outcome, Err(Error::VideoProcessingError("simulated write error".to_string())));
    assert!(!world.removal_asked);
    assert!(world.raw == Some(raw));
    assert_eq!(world.video.raw_video_path, Some("uploads/clip.mp4".to_string()));
    assert_eq!(world.video.compression_status, CompressionStatus::Failed);
    assert_eq!(world.video.compressed_video_path, None);
}

#[test]
fn conversion_chains_exactly_one_compression_job() {
    let mut world = World::new(sample(10));
    let now = 1_700_000_000_000;
    let outcome = world.handle(Message::ProcessRawVideoIntoStream { video_id: VideoId(ID) }, now);
    assert_eq!(outcome, Ok(()));
    assert_eq!(world.video.processing_status, ProcessingStatus::Completed);
    assert_eq!(
        world.video.processed_video_path,
        Some("videos/67e55044-10b1-426f-9247-bb680e5fe0c8/master.m3u8".to_string())
    );
    assert_eq!(world.video.compression_status, CompressionStatus::NotStarted);
    assert_eq!(world.queue.len(), 1);
    assert_eq!(
        world.queue.get(JobId(0)),
        Some(Job {
            id: JobId(0),
            message: Message::CompressRawVideo { video_id: VideoId(ID) },
            status: JobStatus::Queued,
            scheduled_time: Some(now + DAY),
        })
    );
    assert_eq!(world.queue.pull(5, now), vec![]);
    assert_eq!(world.queue.pull(5, now + DAY - 1), vec![]);
    assert_eq!(world.queue.pull(5, now + DAY).len(), 1);
}

#[test]
fn video_record_follows_its_writes() {
    let mut video = Video::new(VideoId(ID), "uploads/clip.mp4".to_string());
    assert_eq!(video.processing_status, ProcessingStatus::NotStarted);
    video.apply(VideoChange::Processing);
    assert_eq!(video.processing_status, ProcessingStatus::Processing);
    video.apply(VideoChange::Processed { path: "m".to_string() });
    assert_eq!(video.processing_status, ProcessingStatus::Completed);
    assert_eq!(video.processed_video_path, Some("m".to_string()));
    video.apply(VideoChange::Compressing);
    assert_eq!(video.compression_status, CompressionStatus::Compressing);
    video.apply(VideoChange::CompressionFailed);
    assert_eq!(video.compression_status, CompressionStatus::Failed);
    assert_eq!(video.raw_video_path, Some("uploads/clip.mp4".to_string()));
    video.apply(VideoChange::Compressed { path: "z".to_string() });
    assert_eq!(video.compression_status, CompressionStatus::Completed);
    assert_eq!(video.compressed_video_path, Some("z".to_string()));
    assert_eq!(video.raw_video_path, None);
    assert_eq!(video.id, VideoId(ID));
}

/// Drives the worker for one batch against a queue, with every job handled
/// in `world`. Hands back the worker once it idles.
fn run_batch(mut worker: Worker, queue: &mut MemoryQueue, world: &mut World, now: i64) -> Worker {
    assert_eq!(worker.phase, WorkerPhase::Pulling);
    let jobs = queue.pull(worker.concurrency, now);
    let (next, mut pending) = run_worker(worker, WorkerEvent::Pulled { jobs });
    worker = next;
    while let Some(action) = pending.pop() {
        let event = match action {
            WorkerAction::Handle { job } => {
                let outcome = world.handle(job.message, now);
                WorkerEvent::Handled { job: job.id, succeeded: outcome.is_ok() }
            }
            WorkerAction::Delete { id } => {
                queue.delete_job(id);
                WorkerEvent::Acknowledged { job: id }
            }
            WorkerAction::Fail { id } => {
                queue.fail_job(id);
                WorkerEvent::Acknowledged { job: id }
            }
            WorkerAction::Sleep { millis } => {
                assert_eq!(millis, 125);
                assert!(pending.is_empty());
                return worker;
            }
            WorkerAction::Pull { .. } => panic!("pull in the middle of a batch"),
        };
        let (next, more) = run_worker(worker, event);
        worker = next;
        pending.extend(more);
    }
    panic!("the batch did not end in a sleep");
}

#[test]
fn unrecognized_job_is_removed_after_one_cycle() {
    let mut queue = MemoryQueue::new();
    let id = queue.push(Message::Unrecognized, JobStatus::Queued, None).unwrap();
    let mut world = World::new(Vec::new());
    let (worker, _) = Worker::new(2);
    let worker = run_batch(worker, &mut queue, &mut world, 0);
    assert_eq!(queue.get(id), None);
    assert!(queue.is_empty());
    let (worker, actions) = run_worker(worker, WorkerEvent::Woke);
    assert_eq!(actions, vec![WorkerAction::Pull { limit: 2 }]);
    let worker = run_batch(worker, &mut queue, &mut world, 10);
    assert_eq!(worker.phase, WorkerPhase::Idling);
    assert_eq!(queue.pull(10, i64::MAX), vec![]);
}

#[test]
fn failed_job_is_marked_and_not_claimed_again() {
    let mut queue = MemoryQueue::new();
    let id = queue
        .push(Message::CompressRawVideo { video_id: VideoId(ID) }, JobStatus::Queued, None)
        .unwrap();
    let mut world = World::new(sample(CHUNK_SIZE));
    world.fail_write_number = Some(1);
    let (worker, _) = Worker::new(1);
    run_batch(worker, &mut queue, &mut world, 0);
    assert_eq!(queue.get(id).map(|job| job.status), Some(JobStatus::Failed));
    assert_eq!(queue.pull(10, 0), vec![]);
}

#[test]
fn whole_pipeline_runs_both_stages() {
    let mut queue = MemoryQueue::new();
    queue
        .push(Message::ProcessRawVideoIntoStream { video_id: VideoId(ID) }, JobStatus::Queued, None)
        .unwrap();
    let raw = sample(CHUNK_SIZE + 37);
    let mut world = World::new(raw);
    let now = 5_000;

    let (worker, _) = Worker::new(3);
    let worker = run_batch(worker, &mut queue, &mut world, now);
    assert!(queue.is_empty());
    let chained = world.queue.pull(1, now + DAY);
    assert_eq!(chained.len(), 1);
    assert_eq!(chained[0].message, Message::CompressRawVideo { video_id: VideoId(ID) });

    queue.push(chained[0].message, JobStatus::Queued, chained[0].scheduled_time).unwrap();
    let (worker, _) = run_worker(worker, WorkerEvent::Woke);
    let worker = run_batch(worker, &mut queue, &mut world, now + 1);
    assert_eq!(world.video.compression_status, CompressionStatus::NotStarted);
    assert_eq!(queue.len(), 1);

    let (worker, _) = run_worker(worker, WorkerEvent::Woke);
    run_batch(worker, &mut queue, &mut world, now + DAY);
    assert!(queue.is_empty());
    assert_eq!(world.video.compression_status, CompressionStatus::Completed);
    assert_eq!(world.video.raw_video_path, None);
    assert!(world.archive.is_some());
}
