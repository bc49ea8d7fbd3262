//! The command line of the external player.

use vstd::prelude::*;
use crate::yt_dlp::{arg_views, Track};

verus! {

/// The player's arguments, after the fixed options, that play `track` under `title`.
pub open spec fn track_args(track: Track, title: Seq<char>) -> Seq<Seq<char>> {
    match track {
        Track::Merged(m) => seq!["--meta-title"@, title, m.merged_url@],
        Track::Split(s) => seq!["--meta-title"@, title, "--input-slave"@, s.audio_url@, s.video_url@],
        Track::File(path) => seq!["--meta-title"@, title, path@],
    }
}

/// The player's full argument list for one playback that exits when done.
pub open spec fn launch_args_spec(track: Track, title: Seq<char>) -> Seq<Seq<char>> {
    seq!["--play-and-exit"@, "--fullscreen"@] + track_args(track, title)
}

/// The external player, by the path of its executable.
pub struct VlcClient {
    binary_path: String,
}

impl VlcClient {
    pub fn with_binary_path(binary_path: String) -> (r: VlcClient)
        ensures
            r.binary_path() == binary_path,
    {
        VlcClient { binary_path }
    }

    pub closed spec fn binary_path(&self) -> String {
        self.binary_path
    }

    /// The executable to start.
    pub fn binary(&self) -> (r: &String)
        ensures
            *r == self.binary_path(),
    {
        &self.binary_path
    }

    /// The arguments that play `track` once, full screen, under `title`.
    pub fn launch_args(&self, track: &Track, title: &str) -> (r: Vec<String>)
        ensures
            arg_views(r@) == launch_args_spec(*track, title@),
    {
        let mut args: Vec<String> = Vec::new();
        args.push(String::from_str("--play-and-exit"));
        args.push(String::from_str("--fullscreen"));
        args.push(String::from_str("--meta-title"));
        args.push(String::from_str(title));
        match track {
            Track::Merged(m) => {
                args.push(m.merged_url.clone());
            },
            Track::Split(s) => {
                args.push(String::from_str("--input-slave"));
                args.push(s.audio_url.clone());
                args.push(s.video_url.clone());
            },
            Track::File(path) => {
                args.push(path.clone());
            },
        }
        assert(arg_views(args@) =~= launch_args_spec(*track, title@));
        args
    }
}

} // verus!
