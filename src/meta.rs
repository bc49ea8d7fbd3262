//! What an inspection reports about a job.

use vstd::prelude::*;
use crate::job::Job;
use crate::yt_dlp::TrackInfo;

verus! {

/// One job as an inspection reports it.
#[derive(Debug, PartialEq, Eq)]
pub struct InspectMetadata {
    pub job_id: usize,
    /// Whether this is the job now playing, as opposed to a pending one.
    pub current: bool,
    pub track_info: TrackInfo,
}

/// The report on `job`.
pub open spec fn metadata_of(job: Job, current: bool) -> InspectMetadata {
    InspectMetadata { job_id: job.id, current, track_info: job.metadata }
}

} // verus!
