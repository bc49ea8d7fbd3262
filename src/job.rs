//! Queued units of playback work.

use vstd::prelude::*;
use crate::format::{Format, MinHeight, REQUEST_DEFAULT_HEIGHT};
use crate::yt_dlp::{Track, TrackInfo};

verus! {

/// What a job plays, as it was requested.
#[derive(Debug, PartialEq, Eq)]
pub enum JobType {
    /// A link played from one merged stream, resolved again at launch.
    QueueMerged { url: String, height: Option<u32>, format_id: String },
    /// A link played from separate audio and video streams, resolved again at launch.
    QueueSplit { url: String, height: Option<u32>, format_id: String },
    /// A file that was downloaded when the job was submitted.
    QueueFile { title: String, file: String },
}

impl Clone for JobType {
    fn clone(&self) -> (r: Self)
        ensures
            r == *self,
    {
        match self {
            JobType::QueueMerged { url, height, format_id } => JobType::QueueMerged {
                url: url.clone(),
                height: *height,
                format_id: format_id.clone(),
            },
            JobType::QueueSplit { url, height, format_id } => JobType::QueueSplit {
                url: url.clone(),
                height: *height,
                format_id: format_id.clone(),
            },
            JobType::QueueFile { title, file } => JobType::QueueFile {
                title: title.clone(),
                file: file.clone(),
            },
        }
    }
}

/// Whether a link resolved again at launch gives another format than the one
/// recorded at submission.
pub open spec fn is_desynced_spec(job_type: JobType, fresh: TrackInfo) -> bool {
    match job_type {
        JobType::QueueMerged { format_id, .. } => format_id@ != fresh.format_id@,
        JobType::QueueSplit { format_id, .. } => format_id@ != fresh.format_id@,
        JobType::QueueFile { .. } => false,
    }
}

impl JobType {
    /// Compares the format recorded at submission with a fresh resolution.
    /// A mismatch is worth a warning; the fresh resolution is played anyway.
    pub fn is_desynced(&self, fresh: &TrackInfo) -> (r: bool)
        ensures
            r == is_desynced_spec(*self, *fresh),
    {
        match self {
            JobType::QueueMerged { format_id, .. } => !(*format_id == fresh.format_id),
            JobType::QueueSplit { format_id, .. } => !(*format_id == fresh.format_id),
            JobType::QueueFile { .. } => false,
        }
    }
}

/// How the worker obtains what a job plays.
#[derive(Debug, PartialEq, Eq)]
pub enum LaunchSource {
    /// Resolve `url` again in `format`, capped at `min_height`: the media URLs
    /// found at submission may have expired.
    Resolve { url: String, format: Format, min_height: MinHeight },
    /// Play the downloaded file at `path`.
    File { path: String },
}

/// The height a job asks for, defaulted as for a request.
pub open spec fn requested_height(height: Option<u32>) -> u32 {
    match height {
        Some(h) => h,
        None => REQUEST_DEFAULT_HEIGHT,
    }
}

pub open spec fn launch_source_spec(job_type: JobType) -> LaunchSource {
    match job_type {
        JobType::QueueMerged { url, height, .. } => LaunchSource::Resolve {
            url,
            format: Format::Merged,
            min_height: MinHeight(requested_height(height)),
        },
        JobType::QueueSplit { url, height, .. } => LaunchSource::Resolve {
            url,
            format: Format::Split,
            min_height: MinHeight(requested_height(height)),
        },
        JobType::QueueFile { file, .. } => LaunchSource::File { path: file },
    }
}

/// The title a job plays under: a resolved track's fresh title, or the title
/// recorded with a downloaded file.
pub open spec fn launch_title_spec(job: Job, track: Track) -> Seq<char> {
    match track {
        Track::Merged(m) => m.track_info.title@,
        Track::Split(s) => s.track_info.title@,
        Track::File(_) => match job.job_type {
            JobType::QueueFile { title, .. } => title@,
            _ => job.metadata.title@,
        },
    }
}

impl JobType {
    /// What the worker must resolve or open to play this job.
    pub fn launch_source(&self) -> (r: LaunchSource)
        ensures
            r == launch_source_spec(*self),
    {
        match self {
            JobType::QueueMerged { url, height, .. } => LaunchSource::Resolve {
                url: url.clone(),
                format: Format::Merged,
                min_height: MinHeight::from_request(*height),
            },
            JobType::QueueSplit { url, height, .. } => LaunchSource::Resolve {
                url: url.clone(),
                format: Format::Split,
                min_height: MinHeight::from_request(*height),
            },
            JobType::QueueFile { file, .. } => LaunchSource::File { path: file.clone() },
        }
    }
}

/// A unit of playback work with a stable id.
#[derive(Debug, PartialEq, Eq)]
pub struct Job {
    pub id: usize,
    pub metadata: TrackInfo,
    pub job_type: JobType,
}

impl Clone for Job {
    fn clone(&self) -> (r: Self)
        ensures
            r == *self,
    {
        Job { id: self.id, metadata: self.metadata.clone(), job_type: self.job_type.clone() }
    }
}

impl Job {
    /// The title to play `track` under, for this job.
    pub fn launch_title(&self, track: &Track) -> (r: String)
        ensures
            r@ == launch_title_spec(*self, *track),
    {
        match track {
            Track::Merged(m) => m.track_info.title.clone(),
            Track::Split(s) => s.track_info.title.clone(),
            Track::File(_) => match &self.job_type {
                JobType::QueueFile { title, .. } => title.clone(),
                _ => self.metadata.title.clone(),
            },
        }
    }
}

} // verus!
