//! The video record as the pipeline sees it, and the writes the stages make
//! to it.

use vstd::prelude::*;

use crate::job::VideoId;

verus! {

/// How far the conversion into a stream has come.
#[derive(Clone, Copy, Debug, PartialEq, Eq, Structural)]
pub enum ProcessingStatus {
    NotStarted,
    Processing,
    Completed,
    Failed,
}

/// How far the archiving of the raw upload has come.
#[derive(Clone, Copy, Debug, PartialEq, Eq, Structural)]
pub enum CompressionStatus {
    NotStarted,
    Compressing,
    Completed,
    Failed,
}

/// One write to a video record.
#[derive(Clone, Debug, PartialEq, Eq)]
pub enum VideoChange {
    /// Conversion has begun.
    Processing,
    /// Conversion is done; the manifest lies at `path`.
    Processed { path: String },
    /// Archiving has begun.
    Compressing,
    /// Archiving is done; the archive lies at `path` and the raw upload is
    /// gone.
    Compressed { path: String },
    /// Archiving failed. The paths stay as they are.
    CompressionFailed,
}

/// A [`VideoChange`] as a mathematical value.
pub enum VideoChangeView {
    Processing,
    Processed { path: Seq<char> },
    Compressing,
    Compressed { path: Seq<char> },
    CompressionFailed,
}

impl View for VideoChange {
    type V = VideoChangeView;

    open spec fn view(&self) -> VideoChangeView {
        match self {
            VideoChange::Processing => VideoChangeView::Processing,
            VideoChange::Processed { path } => VideoChangeView::Processed { path: path@ },
            VideoChange::Compressing => VideoChangeView::Compressing,
            VideoChange::Compressed { path } => VideoChangeView::Compressed { path: path@ },
            VideoChange::CompressionFailed => VideoChangeView::CompressionFailed,
        }
    }
}

/// A video record.
#[derive(Clone, Debug, PartialEq, Eq)]
pub struct Video {
    pub id: VideoId,
    /// The uploaded file; cleared once it has been archived.
    pub raw_video_path: Option<String>,
    pub processing_status: ProcessingStatus,
    pub processed_video_path: Option<String>,
    pub compression_status: CompressionStatus,
    pub compressed_video_path: Option<String>,
}

/// A [`Video`] as a mathematical value.
pub struct VideoView {
    pub id: VideoId,
    pub raw_video_path: Option<Seq<char>>,
    pub processing_status: ProcessingStatus,
    pub processed_video_path: Option<Seq<char>>,
    pub compression_status: CompressionStatus,
    pub compressed_video_path: Option<Seq<char>>,
}

/// The view of an optional text.
pub open spec fn text_view(text: Option<String>) -> Option<Seq<char>> {
    match text {
        Some(value) => Some(value@),
        None => None,
    }
}

impl View for Video {
    type V = VideoView;

    open spec fn view(&self) -> VideoView {
        VideoView {
            id: self.id,
            raw_video_path: text_view(self.raw_video_path),
            processing_status: self.processing_status,
            processed_video_path: text_view(self.processed_video_path),
            compression_status: self.compression_status,
            compressed_video_path: text_view(self.compressed_video_path),
        }
    }
}

/// The record after one write.
pub open spec fn changed(video: VideoView, change: VideoChangeView) -> VideoView {
    match change {
        VideoChangeView::Processing => VideoView {
            processing_status: ProcessingStatus::Processing,
            ..video
        },
        VideoChangeView::Processed { path } => VideoView {
            processing_status: ProcessingStatus::Completed,
            processed_video_path: Some(path),
            ..video
        },
        VideoChangeView::Compressing => VideoView {
            compression_status: CompressionStatus::Compressing,
            ..video
        },
        VideoChangeView::Compressed { path } => VideoView {
            compression_status: CompressionStatus::Completed,
            compressed_video_path: Some(path),
            raw_video_path: None,
            ..video
        },
        VideoChangeView::CompressionFailed => VideoView {
            compression_status: CompressionStatus::Failed,
            ..video
        },
    }
}

/// The record after a run of writes, applied in order.
pub open spec fn changed_by_all(video: VideoView, changes: Seq<VideoChangeView>) -> VideoView
    decreases changes.len(),
{
    if changes.len() == 0 {
        video
    } else {
        changed(changed_by_all(video, changes.drop_last()), changes.last())
    }
}

impl Video {
    /// A record for a fresh upload: nothing has been done to it yet.
    pub fn new(id: VideoId, raw_video_path: String) -> (video: Video)
        ensures
            video@ == (VideoView {
                id,
                raw_video_path: Some(raw_video_path@),
                processing_status: ProcessingStatus::NotStarted,
                processed_video_path: None,
                compression_status: CompressionStatus::NotStarted,
                compressed_video_path: None,
            }),
    {
        Video {
            id,
            raw_video_path: Some(raw_video_path),
            processing_status: ProcessingStatus::NotStarted,
            processed_video_path: None,
            compression_status: CompressionStatus::NotStarted,
            compressed_video_path: None,
        }
    }

    /// Makes one write to the record.
    pub fn apply(&mut self, change: VideoChange)
        ensures
            final(self)@ == changed(old(self)@, change@),
    {
        match change {
            VideoChange::Processing => {
                self.processing_status = ProcessingStatus::Processing;
            },
            VideoChange::Processed { path } => {
                self.processing_status = ProcessingStatus::Completed;
                self.processed_video_path = Some(path);
            },
            VideoChange::Compressing => {
                self.compression_status = CompressionStatus::Compressing;
            },
            VideoChange::Compressed { path } => {
                self.compression_status = CompressionStatus::Completed;
                self.compressed_video_path = Some(path);
                self.raw_video_path = None;
            },
            VideoChange::CompressionFailed => {
                self.compression_status = CompressionStatus::Failed;
            },
        }
    }
}

/// The path of the raw upload is cleared only by success of the archiving:
/// no write but the one that records a finished archive touches it.
pub proof fn law_raw_path_kept(video: VideoView, change: VideoChangeView)
    requires
        !(change is Compressed),
    ensures
        changed(video, change).raw_video_path == video.raw_video_path,
{
}

} // verus!
