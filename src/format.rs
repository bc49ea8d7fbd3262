//! Format selectors handed to the extractor.

use vstd::prelude::*;
use crate::digits::{decimal, decimal_string};

verus! {

/// The largest video height, in pixels, that a request accepts.
#[derive(Clone, Copy, Debug, PartialEq, Eq)]
pub struct MinHeight(pub u32);

/// The height used when a playback request does not name one.
pub const REQUEST_DEFAULT_HEIGHT: u32 = 480;

impl MinHeight {
    /// The height for a request that may or may not name one.
    pub fn from_request(height: Option<u32>) -> (r: MinHeight)
        ensures
            r.0 == match height {
                Some(h) => h,
                None => REQUEST_DEFAULT_HEIGHT,
            },
    {
        match height {
            Some(h) => MinHeight(h),
            None => MinHeight(REQUEST_DEFAULT_HEIGHT),
        }
    }
}

impl Default for MinHeight {
    fn default() -> (r: MinHeight)
        ensures
            r.0 == 720,
    {
        MinHeight(720)
    }
}

/// How the audio and video of a track are delivered.
#[derive(Clone, Copy, Debug, PartialEq, Eq)]
pub enum Format {
    /// One stream that carries both audio and video.
    Merged,
    /// A video stream and an audio stream, played together.
    Split,
}

/// The selector for `format` with heights up to `h`.
pub open spec fn format_selector(format: Format, h: nat) -> Seq<char> {
    match format {
        Format::Merged => "(mp4,webm)[height<="@ + decimal(h) + "]"@,
        Format::Split => "bv[vcodec^=avc1][height<="@ + decimal(h) + "]+ba[ext=m4a]/ba+bv[height<="@
            + decimal(h) + "]"@,
    }
}

impl Format {
    /// The extractor's format selector for this format, capped at `min_height`.
    pub fn get_format_string(&self, min_height: MinHeight) -> (r: String)
        ensures
            r@ == format_selector(*self, min_height.0 as nat),
    {
        let height = decimal_string(min_height.0);
        match self {
            Format::Merged => {
                let mut s = String::from_str("(mp4,webm)[height<=");
                s.append(height.as_str());
                s.append("]");
                s
            },
            Format::Split => {
                let mut s = String::from_str("bv[vcodec^=avc1][height<=");
                s.append(height.as_str());
                s.append("]+ba[ext=m4a]/ba+bv[height<=");
                s.append(height.as_str());
                s.append("]");
                s
            },
        }
    }
}

} // verus!
