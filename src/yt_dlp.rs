//! Track descriptors resolved by the extractor, and the extractor's command lines.

use vstd::prelude::*;
use crate::format::{format_selector, Format, MinHeight};

verus! {

/// How a track was resolved.
#[derive(Clone, Copy, Debug, PartialEq, Eq)]
pub enum TrackType {
    Merged,
    Split,
}

/// Display metadata of one track.
#[derive(Debug, PartialEq, Eq)]
pub struct TrackInfo {
    pub title: String,
    pub channel: String,
    pub uploader_id: String,
    /// The page the track was requested from; history entries are keyed by it.
    pub webpage_url: String,
    pub acodec: String,
    pub vcodec: String,
    pub height: Option<u32>,
    pub width: Option<u32>,
    pub thumbnail: String,
    pub track_type: TrackType,
    pub format_id: String,
    pub duration: u32,
}

impl Clone for TrackInfo {
    fn clone(&self) -> (r: Self)
        ensures
            r == *self,
    {
        TrackInfo {
            title: self.title.clone(),
            channel: self.channel.clone(),
            uploader_id: self.uploader_id.clone(),
            webpage_url: self.webpage_url.clone(),
            acodec: self.acodec.clone(),
            vcodec: self.vcodec.clone(),
            height: self.height,
            width: self.width,
            thumbnail: self.thumbnail.clone(),
            track_type: self.track_type,
            format_id: self.format_id.clone(),
            duration: self.duration,
        }
    }
}

/// One stream of a split resolution, as the extractor reports it.
#[derive(Debug)]
pub struct RequestedFormat {
    pub url: String,
    /// Whether the extractor reported a frame rate: only video streams have one.
    pub has_fps: bool,
    pub acodec: String,
    pub vcodec: String,
    pub height: Option<u32>,
    pub width: Option<u32>,
}

/// What the extractor reports for one resolved link.
#[derive(Debug)]
pub struct JsonDump {
    pub title: String,
    pub webpage_url: String,
    pub requested_formats: Option<Vec<RequestedFormat>>,
    pub url: Option<String>,
    pub channel: String,
    pub uploader_id: String,
    pub thumbnail: String,
    pub duration: u32,
    pub acodec: String,
    pub vcodec: String,
    pub height: Option<u32>,
    pub width: Option<u32>,
    pub format_id: String,
}

/// Why a resolution cannot be played as the requested kind of track.
#[derive(Clone, Copy, Debug, PartialEq, Eq)]
pub enum TrackError {
    /// A merged resolution came without a media URL.
    MissingUrl,
    /// A split resolution came without its list of streams.
    MissingRequestedFormats,
    /// A split resolution listed this many streams instead of two.
    FormatCount(usize),
    /// Both streams of a split resolution are video streams.
    MultipleVideoFormats,
    /// Both streams of a split resolution are audio streams.
    MultipleAudioFormats,
}

/// A track played from one URL that carries audio and video.
#[derive(Debug)]
pub struct MergedTrack {
    pub merged_url: String,
    pub track_info: TrackInfo,
}

/// A track played from a video URL and an audio URL.
#[derive(Debug)]
pub struct SplitTrack {
    pub audio_url: String,
    pub video_url: String,
    pub track_info: TrackInfo,
}

/// What the player is asked to play.
#[derive(Debug)]
pub enum Track {
    Merged(MergedTrack),
    Split(SplitTrack),
    /// A local file, by path.
    File(String),
}

/// The descriptor of a merged resolution.
pub open spec fn merged_info(d: JsonDump) -> TrackInfo {
    TrackInfo {
        title: d.title,
        channel: d.channel,
        uploader_id: d.uploader_id,
        webpage_url: d.webpage_url,
        acodec: d.acodec,
        vcodec: d.vcodec,
        height: d.height,
        width: d.width,
        thumbnail: d.thumbnail,
        track_type: TrackType::Merged,
        format_id: d.format_id,
        duration: d.duration,
    }
}

/// The descriptor of a split resolution whose streams are `video` and `audio`.
pub open spec fn split_info(d: JsonDump, video: RequestedFormat, audio: RequestedFormat) -> TrackInfo {
    TrackInfo {
        title: d.title,
        channel: d.channel,
        uploader_id: d.uploader_id,
        webpage_url: d.webpage_url,
        acodec: audio.acodec,
        vcodec: video.vcodec,
        height: video.height,
        width: video.width,
        thumbnail: d.thumbnail,
        track_type: TrackType::Split,
        format_id: d.format_id,
        duration: d.duration,
    }
}

/// The outcome of reading `d` as a split track.
pub open spec fn split_track_of(d: JsonDump) -> Result<SplitTrack, TrackError> {
    match d.requested_formats {
        None => Err(TrackError::MissingRequestedFormats),
        Some(fs) => if fs@.len() != 2 {
            Err(TrackError::FormatCount(fs@.len() as usize))
        } else if fs@[0].has_fps && fs@[1].has_fps {
            Err(TrackError::MultipleVideoFormats)
        } else if !fs@[0].has_fps && !fs@[1].has_fps {
            Err(TrackError::MultipleAudioFormats)
        } else {
            let (video, audio) = if fs@[0].has_fps {
                (fs@[0], fs@[1])
            } else {
                (fs@[1], fs@[0])
            };
            Ok(
                SplitTrack {
                    audio_url: audio.url,
                    video_url: video.url,
                    track_info: split_info(d, video, audio),
                },
            )
        },
    }
}

impl MergedTrack {
    /// Reads a merged resolution: it needs a media URL.
    pub fn try_from(value: JsonDump) -> (r: Result<MergedTrack, TrackError>)
        ensures
            r == match value.url {
                Some(u) => Ok(MergedTrack { merged_url: u, track_info: merged_info(value) }),
                None => Err(TrackError::MissingUrl),
            },
    {
        match value.url {
            Some(merged_url) => {
                let track_info = TrackInfo {
                    title: value.title,
                    channel: value.channel,
                    uploader_id: value.uploader_id,
                    webpage_url: value.webpage_url,
                    acodec: value.acodec,
                    vcodec: value.vcodec,
                    height: value.height,
                    width: value.width,
                    thumbnail: value.thumbnail,
                    track_type: TrackType::Merged,
                    format_id: value.format_id,
                    duration: value.duration,
                };
                Ok(MergedTrack { merged_url, track_info })
            },
            None => Err(TrackError::MissingUrl),
        }
    }
}

impl SplitTrack {
    /// Reads a split resolution: exactly two streams, one video (it has a
    /// frame rate) and one audio.
    pub fn try_from(value: JsonDump) -> (r: Result<SplitTrack, TrackError>)
        ensures
            r == split_track_of(value),
    {
        let ghost d = value;
        match value.requested_formats {
            None => Err(TrackError::MissingRequestedFormats),
            Some(mut formats) => {
                let n = formats.len();
                if n != 2 {
                    return Err(TrackError::FormatCount(n));
                }
                let second = formats.pop();
                let first = formats.pop();
                match (first, second) {
                    (Some(first), Some(second)) => {
                        if first.has_fps && second.has_fps {
                            return Err(TrackError::MultipleVideoFormats);
                        }
                        if !first.has_fps && !second.has_fps {
                            return Err(TrackError::MultipleAudioFormats);
                        }
                        let (video, audio) = if first.has_fps {
                            (first, second)
                        } else {
                            (second, first)
                        };
                        let track_info = TrackInfo {
                            title: value.title,
                            channel: value.channel,
                            uploader_id: value.uploader_id,
                            webpage_url: value.webpage_url,
                            acodec: audio.acodec,
                            vcodec: video.vcodec,
                            height: video.height,
                            width: video.width,
                            thumbnail: value.thumbnail,
                            track_type: TrackType::Split,
                            format_id: value.format_id,
                            duration: value.duration,
                        };
                        Ok(SplitTrack { audio_url: audio.url, video_url: video.url, track_info })
                    },
                    _ => Err(TrackError::FormatCount(n)),
                }
            },
        }
    }
}

/// The views of a list of command-line arguments.
pub open spec fn arg_views(args: Seq<String>) -> Seq<Seq<char>> {
    args.map_values(|a: String| a@)
}

/// The extractor's arguments that print the resolution of `link` as JSON.
pub open spec fn dump_json_args_spec(link: Seq<char>, format: Format, h: nat) -> Seq<Seq<char>> {
    seq!["-f"@, format_selector(format, h), "--skip-download"@, "--dump-json"@, link]
}

/// The extractor's arguments that download `link` to `destination`, giving up
/// on the first failed fragment.
pub open spec fn download_args_spec(link: Seq<char>, destination: Seq<char>, h: nat) -> Seq<Seq<char>> {
    seq![
        "-f"@,
        format_selector(Format::Split, h),
        "--retries"@,
        "0"@,
        "--fragment-retries"@,
        "0"@,
        "--abort-on-unavailable-fragments"@,
        "-o"@,
        destination,
        link,
    ]
}

/// The extractor, which resolves links into playable media.
pub struct Video;

impl Video {
    /// The arguments that make the extractor print the resolution of `link`.
    pub fn dump_json_args(link: &str, format: Format, min_height: MinHeight) -> (r: Vec<String>)
        ensures
            arg_views(r@) == dump_json_args_spec(link@, format, min_height.0 as nat),
    {
        let mut args: Vec<String> = Vec::new();
        args.push(String::from_str("-f"));
        args.push(format.get_format_string(min_height));
        args.push(String::from_str("--skip-download"));
        args.push(String::from_str("--dump-json"));
        args.push(String::from_str(link));
        assert(arg_views(args@) =~= dump_json_args_spec(link@, format, min_height.0 as nat));
        args
    }

    /// The arguments that make the extractor download `link` to `destination`.
    pub fn download_args(link: &str, destination: &str, min_height: MinHeight) -> (r: Vec<String>)
        ensures
            arg_views(r@) == download_args_spec(link@, destination@, min_height.0 as nat),
    {
        let mut args: Vec<String> = Vec::new();
        args.push(String::from_str("-f"));
        args.push(Format::Split.get_format_string(min_height));
        args.push(String::from_str("--retries"));
        args.push(String::from_str("0"));
        args.push(String::from_str("--fragment-retries"));
        args.push(String::from_str("0"));
        args.push(String::from_str("--abort-on-unavailable-fragments"));
        args.push(String::from_str("-o"));
        args.push(String::from_str(destination));
        args.push(String::from_str(link));
        assert(arg_views(args@) =~= download_args_spec(link@, destination@, min_height.0 as nat));
        args
    }
}

} // verus!
