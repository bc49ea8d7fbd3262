use play_queue::digits::decimal_string;
use play_queue::format::{Format, MinHeight};
use play_queue::job::{Job, JobType, LaunchSource};
use play_queue::rpc::{Rpc, RpcCommand};
use play_queue::vlc::VlcClient;
use play_queue::yt_dlp::{
    JsonDump, MergedTrack, RequestedFormat, SplitTrack, Track, TrackError, TrackInfo, TrackType,
    Video,
};

fn info(url: &str, format_id: &str) -> TrackInfo {
    TrackInfo {
        title: format!("title of {url}"),
        channel: "chan".to_string(),
        uploader_id: "@up".to_string(),
        webpage_url: url.to_string(),
        acodec: "mp4a".to_string(),
        vcodec: "avc1".to_string(),
        height: Some(720),
        width: Some(1280),
        thumbnail: "thumb.jpg".to_string(),
        track_type: TrackType::Merged,
        format_id: format_id.to_string(),
        duration: 61,
    }
}

fn dump(url: Option<&str>, formats: Option<Vec<RequestedFormat>>) -> JsonDump {
    JsonDump {
        title: "T".to_string(),
        webpage_url: "https://example.com/watch?v=1".to_string(),
        requested_formats: formats,
        url: url.map(|u| u.to_string()),
        channel: "C".to_string(),
        uploader_id: "U".to_string(),
        thumbnail: "th".to_string(),
        duration: 200,
        acodec: "opus".to_string(),
        vcodec: "vp9".to_string(),
        height: Some(1080),
        width: Some(1920),
        format_id: "22".to_string(),
    }
}

fn stream(url: &str, video: bool) -> RequestedFormat {
    RequestedFormat {
        url: url.to_string(),
        has_fps: video,
        acodec: if video { "none".to_string() } else { "mp4a.40.2".to_string() },
        vcodec: if video { "avc1.4d401f".to_string() } else { "none".to_string() },
        height: if video { Some(720) } else { None },
        width: if video { Some(1280) } else { None },
    }
}

#[test]
fn decimal_rendering() {
    assert_eq!(decimal_string(0), "0");
    assert_eq!(decimal_string(7), "7");
    assert_eq!(decimal_string(10), "10");
    assert_eq!(decimal_string(720), "720");
    assert_eq!(decimal_string(u32::MAX), "4294967295");
}

#[test]
fn format_strings() {
    assert_eq!(Format::Merged.get_format_string(MinHeight(720)), "(mp4,webm)[height<=720]");
    assert_eq!(
        Format::Split.get_format_string(MinHeight(480)),
        "bv[vcodec^=avc1][height<=480]+ba[ext=m4a]/ba+bv[height<=480]"
    );
}

#[test]
fn min_heights() {
    assert_eq!(MinHeight::default().0, 720);
    assert_eq!(MinHeight::from_request(None).0, 480);
    assert_eq!(MinHeight::from_request(Some(1080)).0, 1080);
}

#[test]
fn merged_track_from_dump() {
    let t = MergedTrack::try_from(dump(Some("https://cdn/merged"), None)).unwrap();
    assert_eq!(t.merged_url, "https://cdn/merged");
    assert_eq!(t.track_info.title, "T");
    assert_eq!(t.track_info.webpage_url, "https://example.com/watch?v=1");
    assert_eq!(t.track_info.acodec, "opus");
    assert_eq!(t.track_info.vcodec, "vp9");
    assert_eq!(t.track_info.height, Some(1080));
    assert_eq!(t.track_info.track_type, TrackType::Merged);
    assert_eq!(t.track_info.format_id, "22");
    assert_eq!(t.track_info.duration, 200);
}

#[test]
fn merged_track_needs_url() {
    let r = MergedTrack::try_from(dump(None, Some(vec![stream("a", false)])));
    assert_eq!(r.unwrap_err(), TrackError::MissingUrl);
}

#[test]
fn split_track_from_dump_in_either_order() {
    for video_first in [true, false] {
        let formats = if video_first {
            vec![stream("https://v", true), stream("https://a", false)]
        } else {
            vec![stream("https://a", false), stream("https://v", true)]
        };
        let t = SplitTrack::try_from(dump(None, Some(formats))).unwrap();
        assert_eq!(t.video_url, "https://v");
        assert_eq!(t.audio_url, "https://a");
        assert_eq!(t.track_info.acodec, "mp4a.40.2");
        assert_eq!(t.track_info.vcodec, "avc1.4d401f");
        assert_eq!(t.track_info.height, Some(720));
        assert_eq!(t.track_info.width, Some(1280));
        assert_eq!(t.track_info.track_type, TrackType::Split);
        assert_eq!(t.track_info.title, "T");
    }
}

#[test]
fn split_track_errors() {
    assert_eq!(
        SplitTrack::try_from(dump(Some("u"), None)).unwrap_err(),
        TrackError::MissingRequestedFormats
    );
    assert_eq!(
        SplitTrack::try_from(dump(None, Some(vec![stream("v", true)]))).unwrap_err(),
        TrackError::FormatCount(1)
    );
    assert_eq!(
        SplitTrack::try_from(dump(
            None,
            Some(vec![stream("v", true), stream("a", false), stream("b", false)])
        ))
        .unwrap_err(),
        TrackError::FormatCount(3)
    );
    assert_eq!(
        SplitTrack::try_from(dump(None, Some(vec![stream("v", true), stream("w", true)])))
            .unwrap_err(),
        TrackError::MultipleVideoFormats
    );
    assert_eq!(
        SplitTrack::try_from(dump(None, Some(vec![stream("a", false), stream("b", false)])))
            .unwrap_err(),
        TrackError::MultipleAudioFormats
    );
}

#[test]
fn extractor_arguments() {
    let args = Video::dump_json_args("https://y/1", Format::Merged, MinHeight(360));
    assert_eq!(
        args,
        vec!["-f", "(mp4,webm)[height<=360]", "--skip-download", "--dump-json", "https://y/1"]
    );
    let args = Video::download_args("https://y/2", "/tmp/f", MinHeight(480));
    assert_eq!(
        args,
        vec![
            "-f",
            "bv[vcodec^=avc1][height<=480]+ba[ext=m4a]/ba+bv[height<=480]",
            "--retries",
            "0",
            "--fragment-retries",
            "0",
            "--abort-on-unavailable-fragments",
            "-o",
            "/tmp/f",
            "https://y/2",
        ]
    );
}

#[test]
fn player_arguments() {
    let vlc = VlcClient::with_binary_path("vlc".to_string());
    assert_eq!(vlc.binary(), "vlc");
    let merged = Track::Merged(MergedTrack {
        merged_url: "https://m".to_string(),
        track_info: info("p", "18"),
    });
    assert_eq!(
        vlc.launch_args(&merged, "Song"),
        vec!["--play-and-exit", "--fullscreen", "--meta-title", "Song", "https://m"]
    );
    let split = Track::Split(SplitTrack {
        audio_url: "https://a".to_string(),
        video_url: "https://v".to_string(),
        track_info: info("p", "18"),
    });
    assert_eq!(
        vlc.launch_args(&split, "Song"),
        vec![
            "--play-and-exit",
            "--fullscreen",
            "--meta-title",
            "Song",
            "--input-slave",
            "https://a",
            "https://v"
        ]
    );
    let file = Track::File("/tmp/x.mp4".to_string());
    assert_eq!(
        vlc.launch_args(&file, "Local"),
        vec!["--play-and-exit", "--fullscreen", "--meta-title", "Local", "/tmp/x.mp4"]
    );
}

#[test]
fn desync_detection() {
    let merged = JobType::QueueMerged {
        url: "u".to_string(),
        height: None,
        format_id: "18".to_string(),
    };
    assert!(!merged.is_desynced(&info("u", "18")));
    assert!(merged.is_desynced(&info("u", "22")));
    let split = JobType::QueueSplit {
        url: "u".to_string(),
        height: Some(720),
        format_id: "137+140".to_string(),
    };
    assert!(split.is_desynced(&info("u", "18")));
    let file = JobType::QueueFile { title: "t".to_string(), file: "/f".to_string() };
    assert!(!file.is_desynced(&info("u", "18")));
}

#[test]
fn rpc_query_strings() {
    assert_eq!(RpcCommand::SeekForward.to_query_string(), "command=seek&val=%2B10");
    assert_eq!(RpcCommand::SeekRewind.to_query_string(), "command=seek&val=-10");
    assert_eq!(RpcCommand::SeekTo(42).to_query_string(), "command=seek&val=42");
    assert_eq!(RpcCommand::TogglePause.to_query_string(), "command=pl_pause");
    assert_eq!(RpcCommand::Mute.to_query_string(), "command=volume&val=0");
    assert_eq!(RpcCommand::FullVolume.to_query_string(), "command=volume&val=255");
}

#[test]
fn rpc_urls() {
    let rpc = Rpc::new("0.0.0.0".to_string(), 8081, "abc".to_string());
    assert_eq!(rpc.url(), "http://0.0.0.0:8081/requests/status.json");
    assert_eq!(rpc.password(), "abc");
    assert_eq!(
        rpc.command_url(&RpcCommand::TogglePause),
        "http://0.0.0.0:8081/requests/status.json?command=pl_pause"
    );
    assert_eq!(rpc.url_with_query("a=b"), "http://0.0.0.0:8081/requests/status.json?a=b");
}

#[test]
fn launch_sources_and_titles() {
    let merged = JobType::QueueMerged {
        url: "https://y/1".to_string(),
        height: None,
        format_id: "18".to_string(),
    };
    assert_eq!(
        merged.launch_source(),
        LaunchSource::Resolve {
            url: "https://y/1".to_string(),
            format: Format::Merged,
            min_height: MinHeight(480),
        }
    );
    let split = JobType::QueueSplit {
        url: "https://y/2".to_string(),
        height: Some(1080),
        format_id: "137+140".to_string(),
    };
    assert_eq!(
        split.launch_source(),
        LaunchSource::Resolve {
            url: "https://y/2".to_string(),
            format: Format::Split,
            min_height: MinHeight(1080),
        }
    );
    let file = JobType::QueueFile { title: "Saved".to_string(), file: "/tmp/f".to_string() };
    assert_eq!(file.launch_source(), LaunchSource::File { path: "/tmp/f".to_string() });

    let file_job = Job { id: 1, metadata: info("p", "18"), job_type: file };
    assert_eq!(file_job.launch_title(&Track::File("/tmp/f".to_string())), "Saved");
    let url_job = Job { id: 2, metadata: info("p", "18"), job_type: merged };
    let mut fresh = info("p", "22");
    fresh.title = "Fresh title".to_string();
    let track = Track::Merged(MergedTrack { merged_url: "https://m".to_string(), track_info: fresh });
    assert_eq!(url_job.launch_title(&track), "Fresh title");
}
