use std::path::PathBuf;
use std::time::Duration;

use yt_dlp::events::{DownloadEvent, MetadataType, PostProcessOperation, RecordingMethod};

fn samples() -> Vec<DownloadEvent> {
    vec![
        DownloadEvent::VideoFetchFailed { url: "u".to_string(), error: "e".to_string(), duration: Duration::from_secs(1) },
        DownloadEvent::DownloadQueued { download_id: 1, url: "u".to_string(), output_path: PathBuf::from("o") },
        DownloadEvent::DownloadStarted { download_id: 2, url: "u".to_string(), total_bytes: 10, format_id: None },
        DownloadEvent::DownloadProgress {
            download_id: 3,
            downloaded_bytes: 50,
            total_bytes: 100,
            speed_bytes_per_sec: 1.5f64.to_bits(),
            eta_seconds: Some(4),
        },
        DownloadEvent::DownloadPaused { download_id: 4, reason: "r".to_string() },
        DownloadEvent::DownloadResumed { download_id: 5 },
        DownloadEvent::DownloadCompleted {
            download_id: 6,
            url: "u".to_string(),
            output_path: PathBuf::from("o"),
            duration: Duration::from_secs(2),
            total_bytes: 7,
        },
        DownloadEvent::DownloadFailed { download_id: 7, url: "u".to_string(), error: "e".to_string(), retry_count: 3 },
        DownloadEvent::DownloadCanceled { download_id: 8, reason: "r".to_string() },
        DownloadEvent::MetadataApplied { path: PathBuf::from("p"), metadata_type: MetadataType::Mp3 },
        DownloadEvent::SegmentStarted { download_id: 9, segment_index: 0, total_segments: 2 },
        DownloadEvent::SegmentCompleted { download_id: 10, segment_index: 1, total_segments: 2, bytes: 5 },
        DownloadEvent::PlaylistCompleted {
            playlist_id: "pl".to_string(),
            total_items: 3,
            successful: 2,
            failed: 1,
            duration: Duration::from_secs(3),
        },
        DownloadEvent::LiveRecordingFailed { video_id: "v".to_string(), error: "e".to_string() },
    ]
}

#[test]
fn event_download_ids() {
    let ids: Vec<Option<u64>> = samples().iter().map(|e| e.download_id()).collect();
    assert_eq!(
        ids,
        vec![None, Some(1), Some(2), Some(3), Some(4), Some(5), Some(6), Some(7), Some(8), None, Some(9), Some(10), None, None]
    );
}

#[test]
fn terminal_and_progress_events() {
    let events = samples();
    let terminal: Vec<bool> = events.iter().map(|e| e.is_terminal()).collect();
    assert_eq!(terminal, vec![false, false, false, false, false, false, true, true, true, false, false, false, false, false]);
    for e in &events {
        if e.is_terminal() {
            assert!(e.download_id().is_some());
        }
    }
    let progress: Vec<bool> = events.iter().map(|e| e.is_progress()).collect();
    assert_eq!(progress.iter().filter(|p| **p).count(), 1);
    assert!(events[3].is_progress());
}

#[test]
fn event_type_names() {
    let names: Vec<&str> = samples().iter().map(|e| e.event_type()).collect();
    assert_eq!(
        names,
        vec![
            "video_fetch_failed",
            "download_queued",
            "download_started",
            "download_progress",
            "download_paused",
            "download_resumed",
            "download_completed",
            "download_failed",
            "download_canceled",
            "metadata_applied",
            "segment_started",
            "segment_completed",
            "playlist_completed",
            "live_recording_failed",
        ]
    );
    let stopped = DownloadEvent::LiveRecordingStopped {
        video_id: "v".to_string(),
        reason: "cancelled".to_string(),
        output_path: PathBuf::from("live.ts"),
        total_bytes: 1,
        total_duration: Duration::from_secs(1),
    };
    assert_eq!(stopped.event_type(), "live_recording_stopped");
    let op = PostProcessOperation::Custom { description: "x".to_string() };
    let started = DownloadEvent::PostProcessStarted { input_path: PathBuf::from("in"), operation: op };
    assert_eq!(started.event_type(), "post_process_started");
}

#[test]
fn event_displays() {
    let texts: Vec<String> = samples().iter().map(|e| e.to_string()).collect();
    assert_eq!(texts[0], "video_fetch_failed");
    assert_eq!(texts[1], "download_queued(id=1)");
    assert_eq!(texts[3], "DownloadProgress(id=3, downloaded=50, total=100)");
    assert_eq!(texts[8], "download_canceled(id=8)");
    assert_eq!(texts[9], "metadata_applied");
    assert_eq!(texts[11], "segment_completed(id=10)");
}

#[test]
fn enum_event_displays() {
    assert_eq!(RecordingMethod::Native.to_string(), "Native");
    assert_eq!(RecordingMethod::Fallback.to_string(), "Fallback");
    assert_eq!(RecordingMethod::YtDlp.to_string(), "YtDlp");
    assert_eq!(MetadataType::Ffmpeg.to_string(), "Ffmpeg");
    assert_eq!(MetadataType::Mp4.to_string(), "Mp4");
    let combine = PostProcessOperation::CombineStreams { audio_path: PathBuf::from("a"), video_path: PathBuf::from("v") };
    assert_eq!(combine.to_string(), "CombineStreams");
    assert_eq!(PostProcessOperation::ConvertAudio { target_format: "mp3".to_string() }.to_string(), "ConvertAudio(format=mp3)");
    assert_eq!(PostProcessOperation::Custom { description: "trim".to_string() }.to_string(), "Custom(description=trim)");
    assert_eq!(PostProcessOperation::EmbedThumbnail { thumbnail_path: PathBuf::from("t") }.to_string(), "EmbedThumbnail");
    assert_eq!(
        PostProcessOperation::SplitChapters { source_path: PathBuf::from("s"), chapter_count: 12 }.to_string(),
        "SplitChapters(chapters=12)"
    );
}
