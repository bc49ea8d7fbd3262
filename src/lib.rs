//! A single-slot playback scheduler: a pending queue of playback jobs, one
//! running job at a time, and a capped, deduplicated history of what played.
//!
//! The scheduling rules, the history log and the command lines handed to the
//! media tools are verified here; process launching, HTTP and disk I/O live in
//! the application around this library.

pub mod digits;
pub mod format;
pub mod yt_dlp;
pub mod vlc;
pub mod job;
pub mod history;
pub mod meta;
pub mod queue;
pub mod rpc;
