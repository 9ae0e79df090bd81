//! Jobs, their messages and the rule that decides when a job may be claimed.

use vstd::prelude::*;

verus! {

/// Identity of a video record: the 128 bits of its UUID.
#[derive(Clone, Copy, Debug, PartialEq, Eq, Hash, Structural)]
pub struct VideoId(pub u128);

/// Identity of a job, assigned when the job is pushed and never reused.
#[derive(Clone, Copy, Debug, PartialEq, Eq, Hash, Structural)]
pub struct JobId(pub u64);

/// What a job asks the pipeline to do.
#[derive(Clone, Copy, Debug, PartialEq, Eq, Structural)]
pub enum Message {
    /// Turn the raw upload of a video into an adaptive-bitrate stream.
    ProcessRawVideoIntoStream { video_id: VideoId },
    /// Archive the raw upload of a video and remove the uncompressed file.
    CompressRawVideo { video_id: VideoId },
    /// A message this build does not know. It is acknowledged without work.
    Unrecognized,
}

/// Where a job stands in its life.
#[derive(Clone, Copy, Debug, PartialEq, Eq, Structural)]
pub enum JobStatus {
    Queued,
    Processing,
    Completed,
    Failed,
}

/// A unit of queued work. Times are milliseconds since the Unix epoch.
#[derive(Clone, Copy, Debug, PartialEq, Eq)]
pub struct Job {
    pub id: JobId,
    pub message: Message,
    pub status: JobStatus,
    /// The job stays invisible to claims until this time; `None` means it is
    /// visible at once.
    pub scheduled_time: Option<i64>,
}

impl Job {
    /// A job may be claimed at `now` when it is queued and its scheduled
    /// time, if it has one, has been reached.
    pub open spec fn claimable(self, now: i64) -> bool {
        &&& self.status == JobStatus::Queued
        &&& (self.scheduled_time matches Some(t) ==> t <= now)
    }

    /// The same job after a claim: marked as being processed.
    pub open spec fn claimed(self) -> Job {
        Job { status: JobStatus::Processing, ..self }
    }

    /// The same job after an unrecoverable error.
    pub open spec fn failed(self) -> Job {
        Job { status: JobStatus::Failed, ..self }
    }

    pub fn is_claimable(&self, now: i64) -> (r: bool)
        ensures
            r == self.claimable(now),
    {
        let queued: bool = match self.status {
            JobStatus::Queued => true,
            _ => false,
        };
        let due: bool = match self.scheduled_time {
            Some(t) => t <= now,
            None => true,
        };
        queued && due
    }
}

} // verus!
