//! The job handler: one state machine per job.
//!
//! The handler never touches the outside world. It answers each [`Event`]
//! with the next [`Action`]; the driver performs the action and reports what
//! came of it. [`next`] is the whole transition table, and [`handle_job_at`]
//! computes exactly it.

use vstd::prelude::*;
use vstd::string::*;

use crate::clock::{utc_now_millis, CLOCK_LIMIT};
use crate::error::{failure_view, outcome_view, Error, ErrorView};
use crate::job::{JobStatus, Message, VideoId};
use crate::layout::{
    archive_path, archive_path_of, base_name, base_name_of, manifest_path, manifest_path_of,
    video_dir, video_dir_of,
};
use crate::settings::{Settings, SettingsView};
use crate::video::{VideoChange, VideoChangeView};

verus! {

/// The raw upload is copied into the archive in pieces of at most this many
/// bytes.
pub const CHUNK_SIZE: usize = 1_048_576;

/// A compression job becomes visible this many milliseconds after the
/// stream is ready: one day.
pub const COMPRESSION_DELAY_MS: i64 = 86_400_000;

/// One rung of the quality ladder.
#[derive(Clone, Copy, Debug, PartialEq, Eq, Structural)]
pub struct Quality {
    pub width: u32,
    pub height: u32,
    pub bitrate_kbps: u32,
}

/// The fixed ladder every video is converted with.
pub open spec fn quality_ladder() -> Seq<Quality> {
    seq![
        Quality { width: 1920, height: 1080, bitrate_kbps: 5000 },
        Quality { width: 1280, height: 720, bitrate_kbps: 2800 },
        Quality { width: 854, height: 480, bitrate_kbps: 1400 },
    ]
}

/// The fixed ladder every video is converted with.
pub fn ladder() -> (rungs: Vec<Quality>)
    ensures
        rungs@ == quality_ladder(),
{
    let mut rungs: Vec<Quality> = Vec::new();
    rungs.push(Quality { width: 1920, height: 1080, bitrate_kbps: 5000 });
    rungs.push(Quality { width: 1280, height: 720, bitrate_kbps: 2800 });
    rungs.push(Quality { width: 854, height: 480, bitrate_kbps: 1400 });
    assert(rungs@ =~= quality_ladder());
    rungs
}

/// What the handler is waiting for. Each phase but the last is named after
/// the action whose outcome is pending.
#[derive(Clone, Copy, Debug, PartialEq, Eq, Structural)]
pub enum Phase {
    MarkingProcessing,
    FetchingUpload,
    Transcoding,
    RecordingProcessed,
    Scheduling,
    MarkingCompressing,
    FetchingRaw,
    CreatingDirectory,
    CreatingArchive,
    StartingEntry,
    OpeningSource,
    ReadingChunk,
    WritingChunk,
    FinishingArchive,
    ClosingSource,
    RemovingSource,
    RecordingCompressed,
    RecordingFailure,
    Finished,
}

/// What the driver is asked to do next.
#[derive(Debug, PartialEq, Eq)]
pub enum Action {
    /// Write `change` to the record of `video_id`.
    UpdateVideo { video_id: VideoId, change: VideoChange },
    /// Read the record of `video_id`.
    FetchVideo { video_id: VideoId },
    /// Convert `source` into a stream under `output_dir`.
    Transcode { ffmpeg_location: String, output_dir: String, source: String, ladder: Vec<Quality> },
    /// Put a new job on the queue.
    Push { message: Message, status: JobStatus, scheduled_time: Option<i64> },
    /// Make sure the directory `path` exists.
    CreateDirectory { path: String },
    /// Create the archive file `path` and open a writer on it.
    CreateArchive { path: String },
    /// Begin the archive entry `name`.
    StartEntry { name: String },
    /// Open the raw upload `path` for reading.
    OpenSource { path: String },
    /// Read up to `limit` bytes of the raw upload into the buffer.
    ReadChunk { limit: usize },
    /// Write the first `len` bytes of the buffer to the archive entry.
    WriteChunk { len: usize },
    /// Finish the archive.
    FinishArchive,
    /// Close the raw upload.
    CloseSource,
    /// Delete the raw upload `path`.
    RemoveSource { path: String },
    /// The job is over.
    Finish { outcome: Result<(), Error> },
}

/// An [`Action`] as a mathematical value.
pub enum ActionView {
    UpdateVideo { video_id: VideoId, change: VideoChangeView },
    FetchVideo { video_id: VideoId },
    Transcode {
        ffmpeg_location: Seq<char>,
        output_dir: Seq<char>,
        source: Seq<char>,
        ladder: Seq<Quality>,
    },
    Push { message: Message, status: JobStatus, scheduled_time: Option<i64> },
    CreateDirectory { path: Seq<char> },
    CreateArchive { path: Seq<char> },
    StartEntry { name: Seq<char> },
    OpenSource { path: Seq<char> },
    ReadChunk { limit: usize },
    WriteChunk { len: usize },
    FinishArchive,
    CloseSource,
    RemoveSource { path: Seq<char> },
    Finish { outcome: Result<(), ErrorView> },
}

impl View for Action {
    type V = ActionView;

    open spec fn view(&self) -> ActionView {
        match self {
            Action::UpdateVideo { video_id, change } => ActionView::UpdateVideo {
                video_id: *video_id,
                change: change@,
            },
            Action::FetchVideo { video_id } => ActionView::FetchVideo { video_id: *video_id },
            Action::Transcode { ffmpeg_location, output_dir, source, ladder } => {
                ActionView::Transcode {
                    ffmpeg_location: ffmpeg_location@,
                    output_dir: output_dir@,
                    source: source@,
                    ladder: ladder@,
                }
            },
            Action::Push { message, status, scheduled_time } => ActionView::Push {
                message: *message,
                status: *status,
                scheduled_time: *scheduled_time,
            },
            Action::CreateDirectory { path } => ActionView::CreateDirectory { path: path@ },
            Action::CreateArchive { path } => ActionView::CreateArchive { path: path@ },
            Action::StartEntry { name } => ActionView::StartEntry { name: name@ },
            Action::OpenSource { path } => ActionView::OpenSource { path: path@ },
            Action::ReadChunk { limit } => ActionView::ReadChunk { limit: *limit },
            Action::WriteChunk { len } => ActionView::WriteChunk { len: *len },
            Action::FinishArchive => ActionView::FinishArchive,
            Action::CloseSource => ActionView::CloseSource,
            Action::RemoveSource { path } => ActionView::RemoveSource { path: path@ },
            Action::Finish { outcome } => ActionView::Finish { outcome: outcome_view(*outcome) },
        }
    }
}

/// What came of the last action.
#[derive(Debug, PartialEq, Eq)]
pub enum Event {
    /// It succeeded and has nothing to report.
    Done,
    /// The record was read; the raw upload lies at `raw_video_path`.
    Video { raw_video_path: String },
    /// `len` bytes were read; 0 at the end of the file.
    Chunk { len: usize },
    /// It failed, for `reason`.
    Failed { reason: String },
}

/// An [`Event`] as a mathematical value.
pub enum EventView {
    Done,
    Video { raw_video_path: Seq<char> },
    Chunk { len: usize },
    Failed { reason: Seq<char> },
}

impl View for Event {
    type V = EventView;

    open spec fn view(&self) -> EventView {
        match self {
            Event::Done => EventView::Done,
            Event::Video { raw_video_path } => EventView::Video {
                raw_video_path: raw_video_path@,
            },
            Event::Chunk { len } => EventView::Chunk { len: *len },
            Event::Failed { reason } => EventView::Failed { reason: reason@ },
        }
    }
}

/// The state of one job's handling.
#[derive(Debug, PartialEq, Eq)]
pub struct Handler {
    pub phase: Phase,
    pub settings: Settings,
    /// The video the job is about.
    pub video_id: VideoId,
    /// The path of the raw upload, once the record has been read.
    pub source: String,
    /// The failure the job ends with, once there is one.
    pub failure: Option<Error>,
}

/// A [`Handler`] as a mathematical value.
pub struct HandlerView {
    pub phase: Phase,
    pub settings: SettingsView,
    pub video_id: VideoId,
    pub source: Seq<char>,
    pub failure: Option<ErrorView>,
}

impl View for Handler {
    type V = HandlerView;

    open spec fn view(&self) -> HandlerView {
        HandlerView {
            phase: self.phase,
            settings: self.settings@,
            video_id: self.video_id,
            source: self.source@,
            failure: failure_view(self.failure),
        }
    }
}

/// The failure behind an event that is not the success a store or queue
/// statement was waiting for. The store's report is passed on unchanged.
pub open spec fn store_failure(event: EventView) -> ErrorView {
    match event {
        EventView::Failed { reason } => ErrorView::Store(reason),
        _ => ErrorView::UnexpectedEvent,
    }
}

/// The failure behind an event that is not the success a transcoding,
/// archiving or filesystem step was waiting for.
pub open spec fn processing_failure(event: EventView) -> ErrorView {
    match event {
        EventView::Failed { reason } => ErrorView::VideoProcessingError(reason),
        _ => ErrorView::UnexpectedEvent,
    }
}

/// The failure behind an event that is not the success the removal of the
/// raw upload was waiting for.
pub open spec fn removal_failure(event: EventView) -> ErrorView {
    match event {
        EventView::Failed { reason } => ErrorView::VideoProcessingError(
            "Failed to remove raw video: "@ + reason,
        ),
        _ => ErrorView::UnexpectedEvent,
    }
}

/// The outcome a finished handler stands for.
pub open spec fn verdict(failure: Option<ErrorView>) -> Result<(), ErrorView> {
    match failure {
        Some(error) => Err(error),
        None => Ok(()),
    }
}

/// Moves on to `phase` and asks for `action`.
pub open spec fn advance(s: HandlerView, phase: Phase, action: ActionView) -> (
    HandlerView,
    ActionView,
) {
    (HandlerView { phase, ..s }, action)
}

/// Ends the job with `failure`, or with success where there is none.
pub open spec fn finish(s: HandlerView, failure: Option<ErrorView>) -> (HandlerView, ActionView) {
    (
        HandlerView { phase: Phase::Finished, failure, ..s },
        ActionView::Finish { outcome: verdict(failure) },
    )
}

/// Gives the compression up: asks for the one write that records the
/// failure and keeps `error` for the end.
pub open spec fn abandon(s: HandlerView, error: ErrorView) -> (HandlerView, ActionView) {
    (
        HandlerView { phase: Phase::RecordingFailure, failure: Some(error), ..s },
        ActionView::UpdateVideo {
            video_id: s.video_id,
            change: VideoChangeView::CompressionFailed,
        },
    )
}

/// The state a job starts in and the first action it asks for.
pub open spec fn begin(settings: SettingsView, message: Message) -> (HandlerView, ActionView) {
    match message {
        Message::ProcessRawVideoIntoStream { video_id } => (
            HandlerView {
                phase: Phase::MarkingProcessing,
                settings,
                video_id,
                source: Seq::empty(),
                failure: None,
            },
            ActionView::UpdateVideo { video_id, change: VideoChangeView::Processing },
        ),
        Message::CompressRawVideo { video_id } => (
            HandlerView {
                phase: Phase::MarkingCompressing,
                settings,
                video_id,
                source: Seq::empty(),
                failure: None,
            },
            ActionView::UpdateVideo { video_id, change: VideoChangeView::Compressing },
        ),
        Message::Unrecognized => (
            HandlerView {
                phase: Phase::Finished,
                settings,
                video_id: VideoId(0),
                source: Seq::empty(),
                failure: None,
            },
            ActionView::Finish { outcome: Ok(()) },
        ),
    }
}

/// The transition table: the state after `event` arrives in state `s` at
/// time `now`, and the action asked for in answer.
///
/// Conversion (the first five phases) ends at its first failure and writes
/// nothing more. Compression, once its first write is through, answers
/// every failure with the one write that records it, and only then ends.
pub open spec fn next(s: HandlerView, event: EventView, now: i64) -> (HandlerView, ActionView) {
    let id = s.video_id;
    let root = s.settings.videos_dir;
    match s.phase {
        Phase::MarkingProcessing => if event is Done {
            advance(s, Phase::FetchingUpload, ActionView::FetchVideo { video_id: id })
        } else {
            finish(s, Some(store_failure(event)))
        },
        Phase::FetchingUpload => match event {
            EventView::Video { raw_video_path } => (
                HandlerView { phase: Phase::Transcoding, source: raw_video_path, ..s },
                ActionView::Transcode {
                    ffmpeg_location: s.settings.ffmpeg_location,
                    output_dir: video_dir_of(root, id),
                    source: raw_video_path,
                    ladder: quality_ladder(),
                },
            ),
            _ => finish(s, Some(store_failure(event))),
        },
        Phase::Transcoding => if event is Done {
            advance(
                s,
                Phase::RecordingProcessed,
                ActionView::UpdateVideo {
                    video_id: id,
                    change: VideoChangeView::Processed { path: manifest_path_of(root, id) },
                },
            )
        } else {
            finish(s, Some(processing_failure(event)))
        },
        Phase::RecordingProcessed => if event is Done {
            advance(
                s,
                Phase::Scheduling,
                ActionView::Push {
                    message: Message::CompressRawVideo { video_id: id },
                    status: JobStatus::Queued,
                    scheduled_time: Some((now + COMPRESSION_DELAY_MS) as i64),
                },
            )
        } else {
            finish(s, Some(store_failure(event)))
        },
        Phase::Scheduling => if event is Done {
            finish(s, None)
        } else {
            finish(s, Some(store_failure(event)))
        },
        Phase::MarkingCompressing => if event is Done {
            advance(s, Phase::FetchingRaw, ActionView::FetchVideo { video_id: id })
        } else {
            finish(s, Some(store_failure(event)))
        },
        Phase::FetchingRaw => match event {
            EventView::Video { raw_video_path } => (
                HandlerView { phase: Phase::CreatingDirectory, source: raw_video_path, ..s },
                ActionView::CreateDirectory { path: video_dir_of(root, id) },
            ),
            _ => abandon(s, store_failure(event)),
        },
        Phase::CreatingDirectory => if event is Done {
            advance(
                s,
                Phase::CreatingArchive,
                ActionView::CreateArchive { path: archive_path_of(root, id) },
            )
        } else {
            abandon(s, processing_failure(event))
        },
        Phase::CreatingArchive => if event is Done {
            match base_name_of(s.source) {
                Some(name) => advance(s, Phase::StartingEntry, ActionView::StartEntry { name }),
                None => abandon(s, ErrorView::VideoProcessingError("Invalid raw video path"@)),
            }
        } else {
            abandon(s, processing_failure(event))
        },
        Phase::StartingEntry => if event is Done {
            advance(s, Phase::OpeningSource, ActionView::OpenSource { path: s.source })
        } else {
            abandon(s, processing_failure(event))
        },
        Phase::OpeningSource => if event is Done {
            advance(s, Phase::ReadingChunk, ActionView::ReadChunk { limit: CHUNK_SIZE })
        } else {
            abandon(s, processing_failure(event))
        },
        Phase::ReadingChunk => match event {
            EventView::Chunk { len } => if len == 0 {
                advance(s, Phase::FinishingArchive, ActionView::FinishArchive)
            } else if len <= CHUNK_SIZE {
                advance(s, Phase::WritingChunk, ActionView::WriteChunk { len })
            } else {
                abandon(s, ErrorView::UnexpectedEvent)
            },
            _ => abandon(s, processing_failure(event)),
        },
        Phase::WritingChunk => if event is Done {
            advance(s, Phase::ReadingChunk, ActionView::ReadChunk { limit: CHUNK_SIZE })
        } else {
            abandon(s, processing_failure(event))
        },
        Phase::FinishingArchive => if event is Done {
            advance(s, Phase::ClosingSource, ActionView::CloseSource)
        } else {
            abandon(s, processing_failure(event))
        },
        Phase::ClosingSource => if event is Done {
            advance(s, Phase::RemovingSource, ActionView::RemoveSource { path: s.source })
        } else {
            abandon(s, processing_failure(event))
        },
        Phase::RemovingSource => if event is Done {
            advance(
                s,
                Phase::RecordingCompressed,
                ActionView::UpdateVideo {
                    video_id: id,
                    change: VideoChangeView::Compressed { path: archive_path_of(root, id) },
                },
            )
        } else {
            abandon(s, removal_failure(event))
        },
        Phase::RecordingCompressed => if event is Done {
            finish(s, None)
        } else {
            finish(s, Some(store_failure(event)))
        },
        Phase::RecordingFailure => if event is Done {
            finish(s, s.failure)
        } else {
            finish(s, Some(store_failure(event)))
        },
        Phase::Finished => (s, ActionView::Finish { outcome: verdict(s.failure) }),
    }
}

fn store_failure_of(event: Event) -> (error: Error)
    ensures
        error@ == store_failure(event@),
{
    match event {
        Event::Failed { reason } => Error::Store(reason),
        _ => Error::UnexpectedEvent,
    }
}

fn processing_failure_of(event: Event) -> (error: Error)
    ensures
        error@ == processing_failure(event@),
{
    match event {
        Event::Failed { reason } => Error::VideoProcessingError(reason),
        _ => Error::UnexpectedEvent,
    }
}

fn removal_failure_of(event: Event) -> (error: Error)
    ensures
        error@ == removal_failure(event@),
{
    match event {
        Event::Failed { reason } => Error::VideoProcessingError(
            String::from_str("Failed to remove raw video: ").concat(reason.as_str()),
        ),
        _ => Error::UnexpectedEvent,
    }
}

fn is_done(event: &Event) -> (done: bool)
    ensures
        done == (event@ is Done),
{
    match event {
        Event::Done => true,
        _ => false,
    }
}

fn advance_to(state: Handler, phase: Phase, action: Action) -> (r: (Handler, Action))
    ensures
        (r.0@, r.1@) == advance(state@, phase, action@),
{
    (
        Handler {
            phase,
            settings: state.settings,
            video_id: state.video_id,
            source: state.source,
            failure: state.failure,
        },
        action,
    )
}

fn finish_with(state: Handler, failure: Option<Error>) -> (r: (Handler, Action))
    ensures
        (r.0@, r.1@) == finish(state@, failure_view(failure)),
{
    let outcome: Result<(), Error> = match &failure {
        Some(error) => Err(error.duplicate()),
        None => Ok(()),
    };
    (
        Handler {
            phase: Phase::Finished,
            settings: state.settings,
            video_id: state.video_id,
            source: state.source,
            failure,
        },
        Action::Finish { outcome },
    )
}

fn abandon_with(state: Handler, error: Error) -> (r: (Handler, Action))
    ensures
        (r.0@, r.1@) == abandon(state@, error@),
{
    let video_id = state.video_id;
    (
        Handler {
            phase: Phase::RecordingFailure,
            settings: state.settings,
            video_id: state.video_id,
            source: state.source,
            failure: Some(error),
        },
        Action::UpdateVideo { video_id, change: VideoChange::CompressionFailed },
    )
}

/// Starts the handling of one job: the state it begins in and the first
/// action. A message that is not recognized ends at once, with success.
pub fn start(settings: Settings, message: Message) -> (r: (Handler, Action))
    ensures
        (r.0@, r.1@) == begin(settings@, message),
{
    match message {
        Message::ProcessRawVideoIntoStream { video_id } => (
            Handler {
                phase: Phase::MarkingProcessing,
                settings,
                video_id,
                source: String::new(),
                failure: None,
            },
            Action::UpdateVideo { video_id, change: VideoChange::Processing },
        ),
        Message::CompressRawVideo { video_id } => (
            Handler {
                phase: Phase::MarkingCompressing,
                settings,
                video_id,
                source: String::new(),
                failure: None,
            },
            Action::UpdateVideo { video_id, change: VideoChange::Compressing },
        ),
        Message::Unrecognized => (
            Handler {
                phase: Phase::Finished,
                settings,
                video_id: VideoId(0),
                source: String::new(),
                failure: None,
            },
            Action::Finish { outcome: Ok(()) },
        ),
    }
}

/// Answers one event, given the time at which it arrived.
pub fn handle_job_at(state: Handler, event: Event, now: i64) -> (r: (Handler, Action))
    requires
        now + COMPRESSION_DELAY_MS <= i64::MAX,
    ensures
        (r.0@, r.1@) == next(state@, event@, now),
{
    let id = state.video_id;
    match state.phase {
        Phase::MarkingProcessing => {
            if is_done(&event) {
                advance_to(state, Phase::FetchingUpload, Action::FetchVideo { video_id: id })
            } else {
                let error = store_failure_of(event);
                finish_with(state, Some(error))
            }
        },
        Phase::FetchingUpload => match event {
            Event::Video { raw_video_path } => {
                let action = Action::Transcode {
                    ffmpeg_location: state.settings.ffmpeg_location.clone(),
                    output_dir: video_dir(state.settings.videos_dir.as_str(), id),
                    source: raw_video_path.clone(),
                    ladder: ladder(),
                };
                (
                    Handler {
                        phase: Phase::Transcoding,
                        settings: state.settings,
                        video_id: state.video_id,
                        source: raw_video_path,
                        failure: state.failure,
                    },
                    action,
                )
            },
            other => {
                let error = store_failure_of(other);
                finish_with(state, Some(error))
            },
        },
        Phase::Transcoding => {
            if is_done(&event) {
                let path = manifest_path(state.settings.videos_dir.as_str(), id);
                let action = Action::UpdateVideo {
                    video_id: id,
                    change: VideoChange::Processed { path },
                };
                advance_to(state, Phase::RecordingProcessed, action)
            } else {
                let error = processing_failure_of(event);
                finish_with(state, Some(error))
            }
        },
        Phase::RecordingProcessed => {
            if is_done(&event) {
                let action = Action::Push {
                    message: Message::CompressRawVideo { video_id: id },
                    status: JobStatus::Queued,
                    scheduled_time: Some(now + COMPRESSION_DELAY_MS),
                };
                advance_to(state, Phase::Scheduling, action)
            } else {
                let error = store_failure_of(event);
                finish_with(state, Some(error))
            }
        },
        Phase::Scheduling => {
            if is_done(&event) {
                finish_with(state, None)
            } else {
                let error = store_failure_of(event);
                finish_with(state, Some(error))
            }
        },
        Phase::MarkingCompressing => {
            if is_done(&event) {
                advance_to(state, Phase::FetchingRaw, Action::FetchVideo { video_id: id })
            } else {
                let error = store_failure_of(event);
                finish_with(state, Some(error))
            }
        },
        Phase::FetchingRaw => match event {
            Event::Video { raw_video_path } => {
                let action = Action::CreateDirectory {
                    path: video_dir(state.settings.videos_dir.as_str(), id),
                };
                (
                    Handler {
                        phase: Phase::CreatingDirectory,
                        settings: state.settings,
                        video_id: state.video_id,
                        source: raw_video_path,
                        failure: state.failure,
                    },
                    action,
                )
            },
            other => {
                let error = store_failure_of(other);
                abandon_with(state, error)
            },
        },
        Phase::CreatingDirectory => {
            if is_done(&event) {
                let action = Action::CreateArchive {
                    path: archive_path(state.settings.videos_dir.as_str(), id),
                };
                advance_to(state, Phase::CreatingArchive, action)
            } else {
                let error = processing_failure_of(event);
                abandon_with(state, error)
            }
        },
        Phase::CreatingArchive => {
            if is_done(&event) {
                match base_name(state.source.as_str()) {
                    Some(name) => advance_to(
                        state,
                        Phase::StartingEntry,
                        Action::StartEntry { name },
                    ),
                    None => abandon_with(
                        state,
                        Error::VideoProcessingError(String::from_str("Invalid raw video path")),
                    ),
                }
            } else {
                let error = processing_failure_of(event);
                abandon_with(state, error)
            }
        },
        Phase::StartingEntry => {
            if is_done(&event) {
                let action = Action::OpenSource { path: state.source.clone() };
                advance_to(state, Phase::OpeningSource, action)
            } else {
                let error = processing_failure_of(event);
                abandon_with(state, error)
            }
        },
        Phase::OpeningSource => {
            if is_done(&event) {
                advance_to(state, Phase::ReadingChunk, Action::ReadChunk { limit: CHUNK_SIZE })
            } else {
                let error = processing_failure_of(event);
                abandon_with(state, error)
            }
        },
        Phase::ReadingChunk => match event {
            Event::Chunk { len } => {
                if len == 0 {
                    advance_to(state, Phase::FinishingArchive, Action::FinishArchive)
                } else if len <= CHUNK_SIZE {
                    advance_to(state, Phase::WritingChunk, Action::WriteChunk { len })
                } else {
                    abandon_with(state, Error::UnexpectedEvent)
                }
            },
            other => {
                let error = processing_failure_of(other);
                abandon_with(state, error)
            },
        },
        Phase::WritingChunk => {
            if is_done(&event) {
                advance_to(state, Phase::ReadingChunk, Action::ReadChunk { limit: CHUNK_SIZE })
            } else {
                let error = processing_failure_of(event);
                abandon_with(state, error)
            }
        },
        Phase::FinishingArchive => {
            if is_done(&event) {
                advance_to(state, Phase::ClosingSource, Action::CloseSource)
            } else {
                let error = processing_failure_of(event);
                abandon_with(state, error)
            }
        },
        Phase::ClosingSource => {
            if is_done(&event) {
                let action = Action::RemoveSource { path: state.source.clone() };
                advance_to(state, Phase::RemovingSource, action)
            } else {
                let error = processing_failure_of(event);
                abandon_with(state, error)
            }
        },
        Phase::RemovingSource => {
            if is_done(&event) {
                let path = archive_path(state.settings.videos_dir.as_str(), id);
                let action = Action::UpdateVideo {
                    video_id: id,
                    change: VideoChange::Compressed { path },
                };
                advance_to(state, Phase::RecordingCompressed, action)
            } else {
                let error = removal_failure_of(event);
                abandon_with(state, error)
            }
        },
        Phase::RecordingCompressed => {
            if is_done(&event) {
                finish_with(state, None)
            } else {
                let error = store_failure_of(event);
                finish_with(state, Some(error))
            }
        },
        Phase::RecordingFailure => {
            if is_done(&event) {
                let failure = match &state.failure {
                    Some(error) => Some(error.duplicate()),
                    None => None,
                };
                finish_with(state, failure)
            } else {
                let error = store_failure_of(event);
                finish_with(state, Some(error))
            }
        },
        Phase::Finished => {
            let outcome: Result<(), Error> = match &state.failure {
                Some(error) => Err(error.duplicate()),
                None => Ok(()),
            };
            (state, Action::Finish { outcome })
        },
    }
}

/// Answers one event at the time the clock shows. The answer is the entry
/// of the transition table for some reading of the clock; only the
/// scheduled time of a pushed job depends on the reading.
pub fn handle_job(state: Handler, event: Event) -> (r: (Handler, Action))
    ensures
        exists|now: i64|
            -CLOCK_LIMIT < now < CLOCK_LIMIT && (r.0@, r.1@) == #[trigger] next(
                state@,
                event@,
                now,
            ),
{
    let now = utc_now_millis();
    handle_job_at(state, event, now)
}

} // verus!
