use yt_dlp::error::Error;
use yt_dlp::events::RecordingMethod;
use yt_dlp::format::{
    CodecInfo, DownloadInfo, Extension, FileInfo, Format, HttpHeaders, Protocol, QualityInfo, RatesInfo,
    StoryboardInfo, VideoResolution,
};
use yt_dlp::live::{
    ffmpeg_args, initial_positions, make_quality_label, max_duration_reached, plan_recording, poll_stop_reason, process_exit_outcome, retry_segment_fetch,
    ytdlp_args, PollDecision, RecordingEngine, SegmentTracker, PROGRESS_THROTTLE_NANOS, SEGMENT_RETRY_ATTEMPTS,
};
use yt_dlp::video::{ExtractorInfo, Version, Video};

fn hls(id: &str, height: Option<u32>, total: Option<f64>) -> Format {
    Format {
        format: id.to_string(),
        format_id: id.to_string(),
        format_note: None,
        protocol: Protocol::M3U8Native,
        language: None,
        container: None,
        available_at: None,
        language_preference: None,
        source_preference: None,
        codec_info: CodecInfo {
            audio_codec: Some("mp4a".to_string()),
            video_codec: Some("avc1".to_string()),
            audio_ext: Extension::Mp4,
            video_ext: Extension::Mp4,
            audio_channels: None,
            asr: None,
        },
        video_resolution: VideoResolution { width: None, height, resolution: None, fps: None, aspect_ratio: None },
        download_info: DownloadInfo {
            url: Some(format!("https://cdn.example.com/{}.m3u8", id)),
            ext: Extension::Mp4,
            http_headers: HttpHeaders::browser_defaults("UA".to_string()),
            manifest_url: None,
            downloader_options: None,
        },
        quality_info: QualityInfo { quality: None, dynamic_range: None },
        file_info: FileInfo { filesize_approx: None, filesize: None },
        storyboard_info: StoryboardInfo { rows: None, columns: None, fragments: None },
        rates_info: RatesInfo { video_rate: None, audio_rate: None, total_rate: total.map(|t| t.to_bits()) },
        video_id: Some("live1".to_string()),
    }
}

fn live_video(formats: Vec<Format>, live: bool) -> Video {
    Video {
        id: "live1".to_string(),
        title: "Live".to_string(),
        thumbnail: None,
        description: None,
        availability: None,
        upload_date: None,
        duration: None,
        duration_string: None,
        webpage_url: Some("https://www.youtube.com/watch?v=live1".to_string()),
        language: None,
        media_type: None,
        is_live: Some(live),
        was_live: None,
        release_timestamp: None,
        release_year: None,
        concurrent_view_count: None,
        view_count: None,
        like_count: None,
        comment_count: None,
        channel: None,
        channel_id: None,
        channel_url: None,
        channel_follower_count: None,
        uploader: None,
        uploader_id: None,
        uploader_url: None,
        channel_is_verified: None,
        formats,
        thumbnails: vec![],
        automatic_caption_languages: vec![],
        subtitle_languages: vec![],
        tags: vec![],
        categories: vec![],
        age_limit: 0,
        live_status: if live { "is_live".to_string() } else { "was_live".to_string() },
        playable_in_embed: true,
        extractor_info: ExtractorInfo { extractor: "youtube".to_string(), extractor_key: "Youtube".to_string() },
        version: Version {
            version: "2024.10.22".to_string(),
            current_git_head: None,
            release_git_head: None,
            repository: "yt-dlp/yt-dlp".to_string(),
        },
    }
}

#[test]
fn plan_refuses_a_video_that_is_not_live() {
    let v = live_video(vec![hls("a", Some(720), Some(1000.0))], false);
    match plan_recording(&v, None, RecordingMethod::Native, false) {
        Err(Error::LiveUnavailable { url, live_status, reason }) => {
            assert_eq!(url, "https://www.youtube.com/watch?v=live1");
            assert_eq!(live_status, "was_live");
            assert_eq!(reason, "video is not currently live");
        },
        other => panic!("unexpected {:?}", other),
    }
}

#[test]
fn plan_live_from_start_goes_to_ytdlp() {
    let v = live_video(vec![hls("a", Some(720), Some(1000.0))], true);
    let p = plan_recording(&v, None, RecordingMethod::Native, true).unwrap();
    assert_eq!(p.engine, RecordingEngine::YtDlp);
    assert_eq!(p.url, "https://www.youtube.com/watch?v=live1");
    assert_eq!(p.quality, "best");
    let f = hls("b", Some(1080), None);
    let p2 = plan_recording(&v, Some(&f), RecordingMethod::Fallback, true).unwrap();
    assert_eq!(p2.quality, "1080p");
    assert_eq!(p2.engine, RecordingEngine::YtDlp);
}

#[test]
fn plan_picks_highest_bitrate_hls_format() {
    let v = live_video(
        vec![hls("low", Some(360), Some(800.0)), hls("high", Some(1080), Some(4500.0)), hls("mid", None, Some(2500.0))],
        true,
    );
    let p = plan_recording(&v, None, RecordingMethod::Native, false).unwrap();
    assert_eq!(p.engine, RecordingEngine::Native);
    assert_eq!(p.url, "https://cdn.example.com/high.m3u8");
    assert_eq!(p.quality, "1080p");
    assert_eq!(v.live_formats().last().unwrap().format_id, "high");
    let q = plan_recording(&v, None, RecordingMethod::YtDlp, false).unwrap();
    assert_eq!(q.engine, RecordingEngine::Ffmpeg);
    let mid = hls("mid", None, Some(2500.0));
    let r = plan_recording(&v, Some(&mid), RecordingMethod::Fallback, false).unwrap();
    assert_eq!(r.engine, RecordingEngine::Ffmpeg);
    assert_eq!(r.quality, "unknown");
    assert_eq!(r.url, "https://cdn.example.com/mid.m3u8");
}

#[test]
fn plan_without_hls_or_url_fails() {
    let mut plain = hls("p", Some(720), Some(1000.0));
    plain.protocol = Protocol::Https;
    let v = live_video(vec![plain], true);
    match plan_recording(&v, None, RecordingMethod::Native, false) {
        Err(Error::LiveRecording { url, reason }) => {
            assert_eq!(url, "https://www.youtube.com/watch?v=live1");
            assert_eq!(reason, "no HLS formats available");
        },
        other => panic!("unexpected {:?}", other),
    }
    let mut nourl = hls("n", Some(720), Some(1000.0));
    nourl.download_info.url = None;
    match plan_recording(&v, Some(&nourl), RecordingMethod::Native, false) {
        Err(Error::FormatNoUrl { video_id, format_id }) => {
            assert_eq!(video_id, "live1");
            assert_eq!(format_id, "n");
        },
        other => panic!("unexpected {:?}", other),
    }
}

#[test]
fn quality_labels() {
    assert_eq!(make_quality_label(Some(720), "unknown"), "720p");
    assert_eq!(make_quality_label(None, "best"), "best");
    assert_eq!(make_quality_label(Some(0), "x"), "0p");
}

#[test]
fn segment_tracker_seeds_and_finds_new_segments() {
    let mut t = SegmentTracker::new();
    t.seed(&vec![10, 11, 12]);
    assert!(t.new_segment_positions(&vec![10, 11, 12]).is_empty());
    assert_eq!(t.new_segment_positions(&vec![11, 12, 13, 14]), vec![2, 3]);
    assert!(!t.stream_ended(&vec![11, 12, 13], true));
    assert!(!t.stream_ended(&vec![11, 12], false));
    assert!(t.stream_ended(&vec![11, 12], true));
    t.record_segment(13, 1000);
    t.record_segment(14, 500);
    assert_eq!(t.segments_downloaded(), 2);
    assert_eq!(t.bytes_written(), 1500);
    assert!(t.new_segment_positions(&vec![12, 13, 14]).is_empty());
    assert!(t.stream_ended(&vec![12, 13, 14], true));
}

#[test]
fn segment_tracker_bytes_wrap() {
    let mut t = SegmentTracker::new();
    t.record_segment(1, u64::MAX);
    t.record_segment(2, 2);
    assert_eq!(t.bytes_written(), 1);
}

#[test]
fn progress_reports_are_throttled() {
    let mut t = SegmentTracker::new();
    assert!(!t.progress_due(PROGRESS_THROTTLE_NANOS - 1));
    assert!(t.progress_due(PROGRESS_THROTTLE_NANOS));
    assert!(!t.progress_due(PROGRESS_THROTTLE_NANOS * 2 - 1));
    assert!(t.progress_due(PROGRESS_THROTTLE_NANOS * 2));
}

#[test]
fn segment_fetch_retries() {
    assert_eq!(SEGMENT_RETRY_ATTEMPTS, 3);
    assert!(retry_segment_fetch(1));
    assert!(retry_segment_fetch(2));
    assert!(!retry_segment_fetch(3));
}

#[test]
fn ffmpeg_command_lines() {
    assert_eq!(
        ffmpeg_args("https://x/y.m3u8", "out.ts", None, false),
        vec!["-i", "https://x/y.m3u8", "-c", "copy", "-y", "out.ts"]
    );
    assert_eq!(
        ffmpeg_args("u", "o", Some(3600), true),
        vec!["-live_start_index", "0", "-i", "u", "-c", "copy", "-t", "3600", "-y", "o"]
    );
}

#[test]
fn ytdlp_command_lines() {
    let extra = vec!["--cookies".to_string(), "c.txt".to_string()];
    assert_eq!(
        ytdlp_args("https://w/v", "rec.mp4", &extra),
        vec!["--live-from-start", "--no-part", "-o", "rec.mp4", "--cookies", "c.txt", "https://w/v"]
    );
    assert_eq!(ytdlp_args("u", "o", &vec![]), vec!["--live-from-start", "--no-part", "-o", "o", "u"]);
}

#[test]
fn process_exit_reasons() {
    let (reason, err) = process_exit_outcome("ffmpeg", 0, "done\n".to_string());
    assert_eq!(reason, "stream ended");
    assert!(err.is_none());
    let (reason, err) = process_exit_outcome("ffmpeg", 1, "a\nlast line\r\n".to_string());
    assert_eq!(reason, "ffmpeg exited with code 1: last line");
    match err {
        Some(Error::CommandFailed { command, exit_code, stderr }) => {
            assert_eq!(command, "ffmpeg");
            assert_eq!(exit_code, 1);
            assert_eq!(stderr, "a\nlast line\r\n");
        },
        other => panic!("unexpected {:?}", other),
    }
    let (reason, _) = process_exit_outcome("yt-dlp", -9, String::new());
    assert_eq!(reason, "yt-dlp exited with code -9: ");
    let (reason, _) = process_exit_outcome("yt-dlp", 2, "only".to_string());
    assert_eq!(reason, "yt-dlp exited with code 2: only");
}

#[test]
fn poll_decisions() {
    let mut t = SegmentTracker::new();
    t.seed(&vec![1, 2]);
    assert_eq!(t.decide_poll(&vec![1, 2], false), PollDecision::Download { positions: vec![], stop_after: false });
    assert_eq!(t.decide_poll(&vec![2, 3, 4], false), PollDecision::Download { positions: vec![1, 2], stop_after: false });
    assert_eq!(t.decide_poll(&vec![2, 3], true), PollDecision::Download { positions: vec![1], stop_after: true });
    assert_eq!(t.decide_poll(&vec![1, 2], true), PollDecision::Stop { reason: "stream ended".to_string() });
    assert_eq!(t.decide_poll(&vec![], true), PollDecision::Stop { reason: "stream ended".to_string() });
}

#[test]
fn maximum_durations() {
    assert!(!max_duration_reached(5, None));
    assert!(!max_duration_reached(4, Some(5)));
    assert!(max_duration_reached(5, Some(5)));
    assert!(max_duration_reached(u64::MAX, Some(0)));
}

#[test]
fn native_start_and_stop_rules() {
    assert_eq!(initial_positions(&vec![7, 8, 9], true), vec![0, 1, 2]);
    assert!(initial_positions(&vec![7, 8, 9], false).is_empty());
    assert!(initial_positions(&vec![], true).is_empty());
    assert_eq!(poll_stop_reason(10, Some(10), true), Some("max duration reached".to_string()));
    assert_eq!(poll_stop_reason(9, Some(10), true), Some("cancelled".to_string()));
    assert_eq!(poll_stop_reason(9, None, false), None);
    assert_eq!(poll_stop_reason(u64::MAX, None, false), None);
}
