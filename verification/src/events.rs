//! Events emitted during downloads, post-processing and live recordings, and
//! their classification.
use std::path::PathBuf;
use std::time::Duration;
use vstd::prelude::*;
use vstd::string::StringExecFns;

use crate::format::Format;
use crate::text::{decimal, push_decimal};
use crate::video::Video;

verus! {

broadcast use vstd::string::group_string_axioms;

/// The method used for live recording.
#[derive(Debug, Clone, Copy, PartialEq, Eq, Hash, Structural)]
pub enum RecordingMethod {
    /// Pure Rust recording via HLS segment fetching.
    Native,
    /// FFmpeg-based recording (fallback).
    Fallback,
    /// yt-dlp-based recording with `--live-from-start` support.
    YtDlp,
}

/// Types of metadata that can be applied.
#[derive(Debug, Clone, Copy, PartialEq, Eq, Hash, Structural)]
pub enum MetadataType {
    /// MP3 ID3 tags.
    Mp3,
    /// MP4/M4A metadata.
    Mp4,
    /// FFmpeg metadata.
    Ffmpeg,
}

/// Post-processing operations.
#[derive(Debug, Clone, PartialEq, Eq)]
pub enum PostProcessOperation {
    /// Combining audio and video streams.
    CombineStreams { audio_path: PathBuf, video_path: PathBuf },
    /// Converting audio format.
    ConvertAudio { target_format: String },
    /// Embedding subtitles.
    EmbedSubtitles { subtitle_path: PathBuf },
    /// Embedding thumbnail.
    EmbedThumbnail { thumbnail_path: PathBuf },
    /// Custom FFmpeg operation.
    Custom { description: String },
    /// Splitting a video into individual chapter files.
    SplitChapters { source_path: PathBuf, chapter_count: usize },
}

/// Represents the events that can occur during download operations.
/// Floating-point rates are held as `f64` bits.
#[derive(Debug, Clone)]
pub enum DownloadEvent {
    /// Video metadata has been fetched from the URL.
    VideoFetched { url: String, video: Box<Video>, duration: Duration },
    /// Video metadata fetch failed.
    VideoFetchFailed { url: String, error: String, duration: Duration },
    /// Download has been queued in the download manager.
    DownloadQueued { download_id: u64, url: String, output_path: PathBuf },
    /// Download has started processing.
    DownloadStarted { download_id: u64, url: String, total_bytes: u64, format_id: Option<String> },
    /// Download progress update.
    DownloadProgress {
        download_id: u64,
        downloaded_bytes: u64,
        total_bytes: u64,
        speed_bytes_per_sec: u64,
        eta_seconds: Option<u64>,
    },
    /// Download has been paused.
    DownloadPaused { download_id: u64, reason: String },
    /// Download has been resumed.
    DownloadResumed { download_id: u64 },
    /// Download completed successfully.
    DownloadCompleted { download_id: u64, url: String, output_path: PathBuf, duration: Duration, total_bytes: u64 },
    /// Download failed with error.
    DownloadFailed { download_id: u64, url: String, error: String, retry_count: u32 },
    /// Download was canceled.
    DownloadCanceled { download_id: u64, reason: String },
    /// Format has been selected for download.
    FormatSelected { video_id: String, format: Format, quality: String },
    /// Metadata has been applied to a file.
    MetadataApplied { path: PathBuf, metadata_type: MetadataType },
    /// Chapters have been embedded into a file.
    ChaptersEmbedded { path: PathBuf, chapter_count: usize },
    /// Post-processing has started.
    PostProcessStarted { input_path: PathBuf, operation: PostProcessOperation },
    /// Post-processing completed successfully.
    PostProcessCompleted {
        input_path: PathBuf,
        output_path: PathBuf,
        operation: PostProcessOperation,
        duration: Duration,
    },
    /// Post-processing failed.
    PostProcessFailed { input_path: PathBuf, operation: PostProcessOperation, error: String },
    /// Playlist metadata has been fetched.
    PlaylistFetched { url: String, duration: Duration },
    /// Playlist metadata fetch failed.
    PlaylistFetchFailed { url: String, error: String, duration: Duration },
    /// Playlist item download has started.
    PlaylistItemStarted { playlist_id: String, index: usize, total: usize, video_id: String },
    /// Playlist item download completed.
    PlaylistItemCompleted { playlist_id: String, index: usize, total: usize, video_id: String, output_path: PathBuf },
    /// Playlist item download failed.
    PlaylistItemFailed { playlist_id: String, index: usize, total: usize, video_id: String, error: String },
    /// Entire playlist download completed.
    PlaylistCompleted { playlist_id: String, total_items: usize, successful: usize, failed: usize, duration: Duration },
    /// Segment download started (for parallel downloads).
    SegmentStarted { download_id: u64, segment_index: usize, total_segments: usize },
    /// Segment download completed.
    SegmentCompleted { download_id: u64, segment_index: usize, total_segments: usize, bytes: u64 },
    /// Live recording has started.
    LiveRecordingStarted { video_id: String, url: String, quality: String, method: RecordingMethod },
    /// Live recording progress update.
    LiveRecordingProgress { video_id: String, elapsed: Duration, bytes_written: u64, segments: u64, bitrate_bps: u64 },
    /// Live recording stopped (graceful).
    LiveRecordingStopped {
        video_id: String,
        reason: String,
        output_path: PathBuf,
        total_bytes: u64,
        total_duration: Duration,
    },
    /// Live recording failed.
    LiveRecordingFailed { video_id: String, error: String },
}

impl RecordingMethod {
    /// The name that `Display` gives the method.
    pub open spec fn display(self) -> Seq<char> {
        match self {
            RecordingMethod::Native => "Native"@,
            RecordingMethod::Fallback => "Fallback"@,
            RecordingMethod::YtDlp => "YtDlp"@,
        }
    }

    /// Renders the method as `Display` does.
    pub fn to_string(&self) -> (r: String)
        ensures
            r@ == self.display(),
    {
        String::from_str(
            match self {
                RecordingMethod::Native => "Native",
                RecordingMethod::Fallback => "Fallback",
                RecordingMethod::YtDlp => "YtDlp",
            },
        )
    }
}

impl MetadataType {
    /// The name that `Display` gives the metadata type.
    pub open spec fn display(self) -> Seq<char> {
        match self {
            MetadataType::Mp3 => "Mp3"@,
            MetadataType::Mp4 => "Mp4"@,
            MetadataType::Ffmpeg => "Ffmpeg"@,
        }
    }

    /// Renders the metadata type as `Display` does.
    pub fn to_string(&self) -> (r: String)
        ensures
            r@ == self.display(),
    {
        String::from_str(
            match self {
                MetadataType::Mp3 => "Mp3",
                MetadataType::Mp4 => "Mp4",
                MetadataType::Ffmpeg => "Ffmpeg",
            },
        )
    }
}

impl PostProcessOperation {
    /// The text that `Display` gives an operation: its name, with the target
    /// format, the description or the chapter count where it has one.
    pub open spec fn display(self) -> Seq<char> {
        match self {
            PostProcessOperation::CombineStreams { .. } => "CombineStreams"@,
            PostProcessOperation::ConvertAudio { target_format } => "ConvertAudio(format="@ + target_format@ + ")"@,
            PostProcessOperation::EmbedSubtitles { .. } => "EmbedSubtitles"@,
            PostProcessOperation::EmbedThumbnail { .. } => "EmbedThumbnail"@,
            PostProcessOperation::Custom { description } => "Custom(description="@ + description@ + ")"@,
            PostProcessOperation::SplitChapters { chapter_count, .. } => "SplitChapters(chapters="@ + decimal(
                chapter_count as nat,
            ) + ")"@,
        }
    }

    /// Renders the operation as `Display` does.
    pub fn to_string(&self) -> (r: String)
        ensures
            r@ == self.display(),
    {
        match self {
            PostProcessOperation::CombineStreams { .. } => String::from_str("CombineStreams"),
            PostProcessOperation::ConvertAudio { target_format } => {
                let mut s = String::from_str("ConvertAudio(format=");
                s.append(target_format.as_str());
                s.append(")");
                s
            },
            PostProcessOperation::EmbedSubtitles { .. } => String::from_str("EmbedSubtitles"),
            PostProcessOperation::EmbedThumbnail { .. } => String::from_str("EmbedThumbnail"),
            PostProcessOperation::Custom { description } => {
                let mut s = String::from_str("Custom(description=");
                s.append(description.as_str());
                s.append(")");
                s
            },
            PostProcessOperation::SplitChapters { chapter_count, .. } => {
                let mut s = String::from_str("SplitChapters(chapters=");
                push_decimal(&mut s, *chapter_count as u64);
                s.append(")");
                s
            },
        }
    }
}

/// The download an event belongs to: the download ID of the download and
/// segment events, `None` for every other event.
pub open spec fn event_download_id(e: DownloadEvent) -> Option<u64> {
    match e {
        DownloadEvent::DownloadQueued { download_id, .. } => Some(download_id),
        DownloadEvent::DownloadStarted { download_id, .. } => Some(download_id),
        DownloadEvent::DownloadProgress { download_id, .. } => Some(download_id),
        DownloadEvent::DownloadPaused { download_id, .. } => Some(download_id),
        DownloadEvent::DownloadResumed { download_id } => Some(download_id),
        DownloadEvent::DownloadCompleted { download_id, .. } => Some(download_id),
        DownloadEvent::DownloadFailed { download_id, .. } => Some(download_id),
        DownloadEvent::DownloadCanceled { download_id, .. } => Some(download_id),
        DownloadEvent::SegmentStarted { download_id, .. } => Some(download_id),
        DownloadEvent::SegmentCompleted { download_id, .. } => Some(download_id),
        _ => None,
    }
}

/// A terminal event: the download completed, failed or was canceled.
pub open spec fn event_is_terminal(e: DownloadEvent) -> bool {
    e is DownloadCompleted || e is DownloadFailed || e is DownloadCanceled
}

/// The snake-case name of an event's kind.
pub open spec fn event_type_name(e: DownloadEvent) -> Seq<char> {
    match e {
        DownloadEvent::VideoFetched { .. } => "video_fetched"@,
        DownloadEvent::VideoFetchFailed { .. } => "video_fetch_failed"@,
        DownloadEvent::DownloadQueued { .. } => "download_queued"@,
        DownloadEvent::DownloadStarted { .. } => "download_started"@,
        DownloadEvent::DownloadProgress { .. } => "download_progress"@,
        DownloadEvent::DownloadPaused { .. } => "download_paused"@,
        DownloadEvent::DownloadResumed { .. } => "download_resumed"@,
        DownloadEvent::DownloadCompleted { .. } => "download_completed"@,
        DownloadEvent::DownloadFailed { .. } => "download_failed"@,
        DownloadEvent::DownloadCanceled { .. } => "download_canceled"@,
        DownloadEvent::FormatSelected { .. } => "format_selected"@,
        DownloadEvent::MetadataApplied { .. } => "metadata_applied"@,
        DownloadEvent::ChaptersEmbedded { .. } => "chapters_embedded"@,
        DownloadEvent::PostProcessStarted { .. } => "post_process_started"@,
        DownloadEvent::PostProcessCompleted { .. } => "post_process_completed"@,
        DownloadEvent::PostProcessFailed { .. } => "post_process_failed"@,
        DownloadEvent::PlaylistFetched { .. } => "playlist_fetched"@,
        DownloadEvent::PlaylistFetchFailed { .. } => "playlist_fetch_failed"@,
        DownloadEvent::PlaylistItemStarted { .. } => "playlist_item_started"@,
        DownloadEvent::PlaylistItemCompleted { .. } => "playlist_item_completed"@,
        DownloadEvent::PlaylistItemFailed { .. } => "playlist_item_failed"@,
        DownloadEvent::PlaylistCompleted { .. } => "playlist_completed"@,
        DownloadEvent::SegmentStarted { .. } => "segment_started"@,
        DownloadEvent::SegmentCompleted { .. } => "segment_completed"@,
        DownloadEvent::LiveRecordingStarted { .. } => "live_recording_started"@,
        DownloadEvent::LiveRecordingProgress { .. } => "live_recording_progress"@,
        DownloadEvent::LiveRecordingStopped { .. } => "live_recording_stopped"@,
        DownloadEvent::LiveRecordingFailed { .. } => "live_recording_failed"@,
    }
}

/// The text that `Display` gives an event: the progress counters of a
/// progress event, else the kind's name followed by `(id=<id>)` when the
/// event belongs to a download.
pub open spec fn event_display(e: DownloadEvent) -> Seq<char> {
    match e {
        DownloadEvent::DownloadProgress { download_id, downloaded_bytes, total_bytes, .. } => "DownloadProgress(id="@
            + decimal(download_id as nat) + ", downloaded="@ + decimal(downloaded_bytes as nat) + ", total="@ + decimal(
            total_bytes as nat,
        ) + ")"@,
        _ => match event_download_id(e) {
            Some(id) => event_type_name(e) + "(id="@ + decimal(id as nat) + ")"@,
            None => event_type_name(e),
        },
    }
}

impl DownloadEvent {
    /// Returns the download ID if this event is associated with a specific download.
    pub fn download_id(&self) -> (r: Option<u64>)
        ensures
            r == event_download_id(*self),
    {
        match self {
            DownloadEvent::DownloadQueued { download_id, .. } => Some(*download_id),
            DownloadEvent::DownloadStarted { download_id, .. } => Some(*download_id),
            DownloadEvent::DownloadProgress { download_id, .. } => Some(*download_id),
            DownloadEvent::DownloadPaused { download_id, .. } => Some(*download_id),
            DownloadEvent::DownloadResumed { download_id } => Some(*download_id),
            DownloadEvent::DownloadCompleted { download_id, .. } => Some(*download_id),
            DownloadEvent::DownloadFailed { download_id, .. } => Some(*download_id),
            DownloadEvent::DownloadCanceled { download_id, .. } => Some(*download_id),
            DownloadEvent::SegmentStarted { download_id, .. } => Some(*download_id),
            DownloadEvent::SegmentCompleted { download_id, .. } => Some(*download_id),
            _ => None,
        }
    }

    /// Returns true if this is a terminal event (download completed, failed, or canceled).
    pub fn is_terminal(&self) -> (r: bool)
        ensures
            r == event_is_terminal(*self),
    {
        match self {
            DownloadEvent::DownloadCompleted { .. } | DownloadEvent::DownloadFailed { .. } | DownloadEvent::DownloadCanceled { .. } => true,
            _ => false,
        }
    }

    /// Returns true if this is a progress event.
    pub fn is_progress(&self) -> (r: bool)
        ensures
            r == (*self is DownloadProgress),
    {
        match self {
            DownloadEvent::DownloadProgress { .. } => true,
            _ => false,
        }
    }

    /// Returns a human-readable event type name.
    pub fn event_type(&self) -> (r: &'static str)
        ensures
            r@ == event_type_name(*self),
    {
        match self {
            DownloadEvent::VideoFetched { .. } => "video_fetched",
            DownloadEvent::VideoFetchFailed { .. } => "video_fetch_failed",
            DownloadEvent::DownloadQueued { .. } => "download_queued",
            DownloadEvent::DownloadStarted { .. } => "download_started",
            DownloadEvent::DownloadProgress { .. } => "download_progress",
            DownloadEvent::DownloadPaused { .. } => "download_paused",
            DownloadEvent::DownloadResumed { .. } => "download_resumed",
            DownloadEvent::DownloadCompleted { .. } => "download_completed",
            DownloadEvent::DownloadFailed { .. } => "download_failed",
            DownloadEvent::DownloadCanceled { .. } => "download_canceled",
            DownloadEvent::FormatSelected { .. } => "format_selected",
            DownloadEvent::MetadataApplied { .. } => "metadata_applied",
            DownloadEvent::ChaptersEmbedded { .. } => "chapters_embedded",
            DownloadEvent::PostProcessStarted { .. } => "post_process_started",
            DownloadEvent::PostProcessCompleted { .. } => "post_process_completed",
            DownloadEvent::PostProcessFailed { .. } => "post_process_failed",
            DownloadEvent::PlaylistFetched { .. } => "playlist_fetched",
            DownloadEvent::PlaylistFetchFailed { .. } => "playlist_fetch_failed",
            DownloadEvent::PlaylistItemStarted { .. } => "playlist_item_started",
            DownloadEvent::PlaylistItemCompleted { .. } => "playlist_item_completed",
            DownloadEvent::PlaylistItemFailed { .. } => "playlist_item_failed",
            DownloadEvent::PlaylistCompleted { .. } => "playlist_completed",
            DownloadEvent::SegmentStarted { .. } => "segment_started",
            DownloadEvent::SegmentCompleted { .. } => "segment_completed",
            DownloadEvent::LiveRecordingStarted { .. } => "live_recording_started",
            DownloadEvent::LiveRecordingProgress { .. } => "live_recording_progress",
            DownloadEvent::LiveRecordingStopped { .. } => "live_recording_stopped",
            DownloadEvent::LiveRecordingFailed { .. } => "live_recording_failed",
        }
    }

    /// Renders the event as `Display` does.
    pub fn to_string(&self) -> (r: String)
        ensures
            r@ == event_display(*self),
    {
        match self {
            DownloadEvent::DownloadProgress { download_id, downloaded_bytes, total_bytes, .. } => {
                let mut s = String::from_str("DownloadProgress(id=");
                push_decimal(&mut s, *download_id);
                s.append(", downloaded=");
                push_decimal(&mut s, *downloaded_bytes);
                s.append(", total=");
                push_decimal(&mut s, *total_bytes);
                s.append(")");
                s
            },
            _ => {
                let mut s = String::from_str(self.event_type());
                match self.download_id() {
                    Some(id) => {
                        s.append("(id=");
                        push_decimal(&mut s, id);
                        s.append(")");
                    },
                    None => {},
                }
                s
            },
        }
    }
}

} // verus!
