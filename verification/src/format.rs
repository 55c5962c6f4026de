//! Formats of a video: the model of one entry of `yt-dlp`'s `formats` list and
//! the rules that classify it.
//!
//! Floating-point fields (quality, frame rate, aspect ratio, bitrates,
//! fragment durations) are held as their IEEE-754 bit patterns
//! (`f64::to_bits`); [`crate::float_order`] orders them.
use vstd::prelude::*;

use crate::error::Error;
use crate::text::{ascii_lower_seq, chars_eq, chars_of, debug_text, decimal, decimal_int, lower_chars, push_decimal, push_decimal_signed, quote_debug};
use vstd::string::StringExecFns;

verus! {

broadcast use vstd::string::group_string_axioms;

/// The available format types.
/// It can be audio, video, both of them, a manifest, or a storyboard.
#[derive(Default, Debug, Clone, Copy, PartialEq, Eq, Hash, Structural)]
pub enum FormatType {
    /// The format contains only audio.
    Audio,
    /// The format contains only video.
    Video,
    /// The format contains both audio and video.
    AudioVideo,
    /// The format is a manifest.
    Manifest { audio: bool, video: bool },
    /// The format is a storyboard.
    Storyboard,
    /// An unknown format type.
    #[default]
    Unknown,
}

impl FormatType {
    /// Whether the type carries both audio and video.
    pub open spec fn has_audio_and_video(self) -> bool {
        self matches FormatType::AudioVideo || self matches FormatType::Manifest { audio: true, video: true }
    }

    /// Whether the type carries video.
    pub open spec fn has_video(self) -> bool {
        ||| self matches FormatType::Video
        ||| self matches FormatType::AudioVideo
        ||| self matches FormatType::Manifest { video: true, .. }
    }

    /// Whether the type carries audio.
    pub open spec fn has_audio(self) -> bool {
        ||| self matches FormatType::Audio
        ||| self matches FormatType::AudioVideo
        ||| self matches FormatType::Manifest { audio: true, .. }
    }

    /// Checks if the format is an audio and video format.
    pub fn is_audio_and_video(&self) -> (r: bool)
        ensures
            r == self.has_audio_and_video(),
    {
        match self {
            FormatType::AudioVideo => true,
            FormatType::Manifest { audio, video } => *audio && *video,
            _ => false,
        }
    }

    /// Checks if the format is a video format (video only, audio and video,
    /// or a manifest with video).
    pub fn is_video(&self) -> (r: bool)
        ensures
            r == self.has_video(),
    {
        match self {
            FormatType::Video | FormatType::AudioVideo => true,
            FormatType::Manifest { video, .. } => *video,
            _ => false,
        }
    }

    /// Checks if the format is an audio format (audio only, audio and video,
    /// or a manifest with audio).
    pub fn is_audio(&self) -> (r: bool)
        ensures
            r == self.has_audio(),
    {
        match self {
            FormatType::Audio | FormatType::AudioVideo => true,
            FormatType::Manifest { audio, .. } => *audio,
            _ => false,
        }
    }

    /// Checks if the format is a storyboard format.
    pub fn is_storyboard(&self) -> (r: bool)
        ensures
            r == (*self matches FormatType::Storyboard),
    {
        matches!(self, FormatType::Storyboard)
    }

    /// Checks if the format is a manifest format.
    pub fn is_manifest(&self) -> (r: bool)
        ensures
            r == (*self matches FormatType::Manifest { .. }),
    {
        matches!(self, FormatType::Manifest { .. })
    }
}

/// The available extensions of a format.
#[derive(Default, Debug, Clone, Copy, PartialEq, Eq, Hash, Structural)]
pub enum Extension {
    /// The M4A extension.
    M4A,
    /// The MP3 extension.
    Mp3,
    /// The MP4 extension.
    Mp4,
    /// The Webm extension.
    Webm,
    /// The FLAC extension.
    Flac,
    /// The OGG extension (Vorbis/Opus).
    Ogg,
    /// The WAV extension.
    Wav,
    /// The AAC extension.
    Aac,
    /// The AIFF extension.
    Aiff,
    /// The AVI extension.
    Avi,
    /// The MPEG-TS extension.
    Ts,
    /// The FLV extension.
    Flv,
    /// The MHTML extension.
    Mhtml,
    /// If there is no extension (`"none"` or the empty string).
    Empty,
    /// An unknown extension.
    #[default]
    Unknown,
}

/// The lowercase file extension of an extension; `"bin"` for `Empty` and
/// `Unknown`.
pub open spec fn extension_str(e: Extension) -> Seq<char> {
    match e {
        Extension::M4A => "m4a"@,
        Extension::Mp3 => "mp3"@,
        Extension::Mp4 => "mp4"@,
        Extension::Webm => "webm"@,
        Extension::Flac => "flac"@,
        Extension::Ogg => "ogg"@,
        Extension::Wav => "wav"@,
        Extension::Aac => "aac"@,
        Extension::Aiff => "aiff"@,
        Extension::Avi => "avi"@,
        Extension::Ts => "ts"@,
        Extension::Flv => "flv"@,
        Extension::Mhtml => "mhtml"@,
        Extension::Empty => "bin"@,
        Extension::Unknown => "bin"@,
    }
}

/// The name that `Display` gives an extension.
pub open spec fn extension_display(e: Extension) -> Seq<char> {
    match e {
        Extension::M4A => "M4A"@,
        Extension::Mp3 => "Mp3"@,
        Extension::Mp4 => "Mp4"@,
        Extension::Webm => "Webm"@,
        Extension::Flac => "Flac"@,
        Extension::Ogg => "Ogg"@,
        Extension::Wav => "Wav"@,
        Extension::Aac => "Aac"@,
        Extension::Aiff => "Aiff"@,
        Extension::Avi => "Avi"@,
        Extension::Ts => "Ts"@,
        Extension::Flv => "Flv"@,
        Extension::Mhtml => "Mhtml"@,
        Extension::Empty => "None"@,
        Extension::Unknown => "Unknown"@,
    }
}

/// The extension that a lower-cased name stands for; every other name is
/// `Unknown`.
pub open spec fn extension_named(l: Seq<char>) -> Extension {
    if l == "m4a"@ {
        Extension::M4A
    } else if l == "mp3"@ {
        Extension::Mp3
    } else if l == "mp4"@ {
        Extension::Mp4
    } else if l == "webm"@ {
        Extension::Webm
    } else if l == "flac"@ {
        Extension::Flac
    } else if l == "ogg"@ || l == "oga"@ || l == "opus"@ {
        Extension::Ogg
    } else if l == "wav"@ {
        Extension::Wav
    } else if l == "aac"@ {
        Extension::Aac
    } else if l == "aiff"@ || l == "aif"@ {
        Extension::Aiff
    } else if l == "avi"@ {
        Extension::Avi
    } else if l == "ts"@ || l == "m2ts"@ || l == "mts"@ {
        Extension::Ts
    } else if l == "flv"@ {
        Extension::Flv
    } else if l == "mhtml"@ {
        Extension::Mhtml
    } else if l == ""@ || l == "none"@ {
        Extension::Empty
    } else {
        Extension::Unknown
    }
}

fn is_name(l: &Vec<char>, name: &str) -> (r: bool)
    ensures
        r == (l@ == name@),
{
    let n = chars_of(name);
    chars_eq(l, &n)
}

impl Extension {
    /// Returns the lowercase file extension string for this variant.
    /// `Empty` and `Unknown` return `"bin"` as a safe fallback.
    pub fn as_str(&self) -> (r: &'static str)
        ensures
            r@ == extension_str(*self),
    {
        match self {
            Extension::M4A => "m4a",
            Extension::Mp3 => "mp3",
            Extension::Mp4 => "mp4",
            Extension::Webm => "webm",
            Extension::Flac => "flac",
            Extension::Ogg => "ogg",
            Extension::Wav => "wav",
            Extension::Aac => "aac",
            Extension::Aiff => "aiff",
            Extension::Avi => "avi",
            Extension::Ts => "ts",
            Extension::Flv => "flv",
            Extension::Mhtml => "mhtml",
            Extension::Empty => "bin",
            Extension::Unknown => "bin",
        }
    }

    /// Renders the extension as `Display` does (its variant name, `"None"`
    /// for `Empty`).
    pub fn to_string(&self) -> (r: String)
        ensures
            r@ == extension_display(*self),
    {
        let name = match self {
            Extension::M4A => "M4A",
            Extension::Mp3 => "Mp3",
            Extension::Mp4 => "Mp4",
            Extension::Webm => "Webm",
            Extension::Flac => "Flac",
            Extension::Ogg => "Ogg",
            Extension::Wav => "Wav",
            Extension::Aac => "Aac",
            Extension::Aiff => "Aiff",
            Extension::Avi => "Avi",
            Extension::Ts => "Ts",
            Extension::Flv => "Flv",
            Extension::Mhtml => "Mhtml",
            Extension::Empty => "None",
            Extension::Unknown => "Unknown",
        };
        String::from_str(name)
    }

    /// Parses an extension name, ignoring case: `oga`/`opus` are `Ogg`,
    /// `aif` is `Aiff`, `m2ts`/`mts` are `Ts`, the empty name and `none` are
    /// `Empty`, every other name is `Unknown`. (Only ASCII letters can lower
    /// to the ASCII names recognised here, so ASCII case folding decides as
    /// Unicode lower-casing does.)
    pub fn parse(s: &str) -> (r: Extension)
        ensures
            r == extension_named(ascii_lower_seq(s@)),
    {
        let l = lower_chars(s);
        if is_name(&l, "m4a") {
            Extension::M4A
        } else if is_name(&l, "mp3") {
            Extension::Mp3
        } else if is_name(&l, "mp4") {
            Extension::Mp4
        } else if is_name(&l, "webm") {
            Extension::Webm
        } else if is_name(&l, "flac") {
            Extension::Flac
        } else if is_name(&l, "ogg") || is_name(&l, "oga") || is_name(&l, "opus") {
            Extension::Ogg
        } else if is_name(&l, "wav") {
            Extension::Wav
        } else if is_name(&l, "aac") {
            Extension::Aac
        } else if is_name(&l, "aiff") || is_name(&l, "aif") {
            Extension::Aiff
        } else if is_name(&l, "avi") {
            Extension::Avi
        } else if is_name(&l, "ts") || is_name(&l, "m2ts") || is_name(&l, "mts") {
            Extension::Ts
        } else if is_name(&l, "flv") {
            Extension::Flv
        } else if is_name(&l, "mhtml") {
            Extension::Mhtml
        } else if is_name(&l, "") || is_name(&l, "none") {
            Extension::Empty
        } else {
            Extension::Unknown
        }
    }
}

impl std::str::FromStr for Extension {
    type Err = ();

    /// Parses an extension name as [`Extension::parse`] does; never fails.
    fn from_str(s: &str) -> (r: Result<Extension, ()>)
        ensures
            r == Ok::<Extension, ()>(extension_named(ascii_lower_seq(s@))),
    {
        Ok(Extension::parse(s))
    }
}

/// The available containers extensions of a format.
#[derive(Default, Debug, Clone, Copy, PartialEq, Eq, Hash, Structural)]
pub enum Container {
    /// The Webm container.
    Webm,
    /// The M4A container.
    M4A,
    /// The MP4 container.
    Mp4,
    /// An unknown container.
    #[default]
    Unknown,
}

/// The available protocols of a format.
#[derive(Default, Debug, Clone, Copy, PartialEq, Eq, Hash, Structural)]
pub enum Protocol {
    /// The HTTP protocol, used for audio and video formats.
    Https,
    /// The M3U8 protocol, used for manifest formats.
    M3U8Native,
    /// The MHTML protocol, used for storyboard formats.
    Mhtml,
    /// An unknown protocol.
    #[default]
    Unknown,
}

/// The available dynamic ranges of a format.
#[derive(Default, Debug, Clone, Copy, PartialEq, Eq, Hash, Structural)]
pub enum DynamicRange {
    /// The SDR dynamic range.
    SDR,
    /// The HDR dynamic range.
    HDR,
    /// An unknown dynamic range.
    #[default]
    Unknown,
}

/// Represents the codec information of a format.
#[derive(Debug, Clone, PartialEq, Eq, Hash)]
pub struct CodecInfo {
    /// The name of the audio codec, e.g. 'opus' or 'mp4a.xx'.
    pub audio_codec: Option<String>,
    /// The name of the video codec, e.g. 'vp9' or 'avc1.xx'.
    pub video_codec: Option<String>,
    /// The extension of the audio file.
    pub audio_ext: Extension,
    /// The extension of the video file.
    pub video_ext: Extension,
    /// The number of audio channels.
    pub audio_channels: Option<i64>,
    /// The audio sample rate.
    pub asr: Option<i64>,
}

/// Represents the video resolution information of a format.
#[derive(Debug, Clone, PartialEq, Eq, Hash)]
pub struct VideoResolution {
    /// The width of the video.
    pub width: Option<u32>,
    /// The height of the video.
    pub height: Option<u32>,
    /// The combined resolution of the video, e.g. '1920x1080' or 'audio only'.
    pub resolution: Option<String>,
    /// The frames per second of the video, as `f64` bits.
    pub fps: Option<u64>,
    /// The aspect ratio of the video, as `f64` bits.
    pub aspect_ratio: Option<u64>,
}

/// Represents the options used by the downloader.
#[derive(Debug, Clone, PartialEq, Eq, Hash)]
pub struct DownloaderOptions {
    /// The size of the HTTP chunk.
    pub http_chunk_size: i64,
}

/// Represents the HTTP headers used by the downloader.
#[derive(Debug, Clone, PartialEq, Eq, Hash)]
pub struct HttpHeaders {
    /// The user agent used by the downloader.
    pub user_agent: String,
    /// The accept header used by the downloader.
    pub accept: String,
    /// The accept language used by the downloader.
    pub accept_language: String,
    /// The fetch mode used by the downloader.
    pub sec_fetch_mode: String,
}

/// Represents the download information of a format.
#[derive(Debug, Clone, PartialEq, Eq, Hash)]
pub struct DownloadInfo {
    /// The decrypted URL of the format.
    pub url: Option<String>,
    /// The extension of the format.
    pub ext: Extension,
    /// The HTTP headers used by the downloader.
    pub http_headers: HttpHeaders,
    /// The manifest URL, if the format is a manifest.
    pub manifest_url: Option<String>,
    /// The options used by the downloader.
    pub downloader_options: Option<DownloaderOptions>,
}

/// Represents the quality information of a format.
#[derive(Debug, Clone, PartialEq, Eq, Hash)]
pub struct QualityInfo {
    /// A relative quality score, as `f64` bits.
    pub quality: Option<u64>,
    /// If the format is using a large dynamic range.
    pub dynamic_range: Option<DynamicRange>,
}

/// Represents the file information of a format.
#[derive(Debug, Clone, PartialEq, Eq, Hash)]
pub struct FileInfo {
    /// The approximate file size of the format.
    pub filesize_approx: Option<i64>,
    /// The exact file size of the format.
    pub filesize: Option<i64>,
}

/// Represents the rates information of a format (all as `f64` bits).
#[derive(Debug, Clone, PartialEq, Eq, Hash)]
pub struct RatesInfo {
    /// The video bitrate of the format.
    pub video_rate: Option<u64>,
    /// The audio bitrate of the format.
    pub audio_rate: Option<u64>,
    /// The total bitrate (video + audio) of the format.
    pub total_rate: Option<u64>,
}

/// Represents a fragment of a storyboard.
#[derive(Debug, Clone, PartialEq, Eq, Hash)]
pub struct Fragment {
    /// The URL of the fragment.
    pub url: String,
    /// The duration of the fragment in seconds, as `f64` bits.
    pub duration: u64,
}

/// Represents the storyboard information of a format.
#[derive(Debug, Clone, PartialEq, Eq, Hash)]
pub struct StoryboardInfo {
    /// The number of rows in the storyboard.
    pub rows: Option<i64>,
    /// The number of columns in the storyboard.
    pub columns: Option<i64>,
    /// The fragments of the storyboard.
    pub fragments: Option<Vec<Fragment>>,
}

/// Represents an available format of a video.
/// It can be audio, video, both of them, a manifest, or a storyboard.
#[derive(Debug, Clone, PartialEq, Eq, Hash)]
pub struct Format {
    /// The display name of the format, e.g. '303 - 1920x1080 (1080p60)'.
    pub format: String,
    /// The format ID, e.g. '303'.
    pub format_id: String,
    /// The format note, e.g. '1080p60'.
    pub format_note: Option<String>,
    /// The type of the format.
    pub protocol: Protocol,
    /// The language of the format.
    pub language: Option<String>,
    /// The extension of the file containing the format.
    pub container: Option<Container>,
    /// The Unix timestamp when this format's stream URL became available.
    pub available_at: Option<i64>,
    /// yt-dlp internal language preference score for this format.
    pub language_preference: Option<i64>,
    /// yt-dlp internal source preference score for this format.
    pub source_preference: Option<i64>,
    /// All the codec-related information.
    pub codec_info: CodecInfo,
    /// All the video resolution-related information.
    pub video_resolution: VideoResolution,
    /// All the download-related information.
    pub download_info: DownloadInfo,
    /// All the quality-related information.
    pub quality_info: QualityInfo,
    /// All the file-related information.
    pub file_info: FileInfo,
    /// All the storyboard-related information.
    pub storyboard_info: StoryboardInfo,
    /// All the rates-related information.
    pub rates_info: RatesInfo,
    /// The ID of the video this format belongs to.
    pub video_id: Option<String>,
}

/// The text of an optional string, or a default.
pub open spec fn or_text(o: Option<String>, default: Seq<char>) -> Seq<char> {
    match o {
        Some(s) => s@,
        None => default,
    }
}

fn append_or(s: &mut String, o: &Option<String>, default: &str)
    ensures
        final(s)@ == old(s)@ + or_text(*o, default@),
{
    match o {
        Some(v) => s.append(v.as_str()),
        None => s.append(default),
    }
}

impl Container {
    /// The name that `Display` gives the container.
    pub open spec fn display(self) -> Seq<char> {
        match self {
            Container::Mp4 => "Mp4"@,
            Container::Webm => "Webm"@,
            Container::M4A => "M4A"@,
            Container::Unknown => "Unknown"@,
        }
    }

    /// Renders the container as `Display` does.
    pub fn to_string(&self) -> (r: String)
        ensures
            r@ == self.display(),
    {
        String::from_str(
            match self {
                Container::Mp4 => "Mp4",
                Container::Webm => "Webm",
                Container::M4A => "M4A",
                Container::Unknown => "Unknown",
            },
        )
    }
}

impl Protocol {
    /// The name that `Display` gives the protocol (`"HLS"` for M3U8).
    pub open spec fn display(self) -> Seq<char> {
        match self {
            Protocol::Https => "Https"@,
            Protocol::M3U8Native => "HLS"@,
            Protocol::Mhtml => "Mhtml"@,
            Protocol::Unknown => "Unknown"@,
        }
    }

    /// Renders the protocol as `Display` does.
    pub fn to_string(&self) -> (r: String)
        ensures
            r@ == self.display(),
    {
        String::from_str(
            match self {
                Protocol::Https => "Https",
                Protocol::M3U8Native => "HLS",
                Protocol::Mhtml => "Mhtml",
                Protocol::Unknown => "Unknown",
            },
        )
    }
}

impl DynamicRange {
    /// The name that `Display` gives the dynamic range.
    pub open spec fn display(self) -> Seq<char> {
        match self {
            DynamicRange::SDR => "SDR"@,
            DynamicRange::HDR => "HDR"@,
            DynamicRange::Unknown => "Unknown"@,
        }
    }

    /// Renders the dynamic range as `Display` does.
    pub fn to_string(&self) -> (r: String)
        ensures
            r@ == self.display(),
    {
        String::from_str(
            match self {
                DynamicRange::SDR => "SDR",
                DynamicRange::HDR => "HDR",
                DynamicRange::Unknown => "Unknown",
            },
        )
    }
}

impl FormatType {
    /// The name that `Display` gives the format type.
    pub open spec fn display(self) -> Seq<char> {
        match self {
            FormatType::Audio => "Audio"@,
            FormatType::Video => "Video"@,
            FormatType::AudioVideo => "AudioVideo"@,
            FormatType::Manifest { .. } => "Manifest"@,
            FormatType::Storyboard => "Storyboard"@,
            FormatType::Unknown => "Unknown"@,
        }
    }

    /// Renders the format type as `Display` does.
    pub fn to_string(&self) -> (r: String)
        ensures
            r@ == self.display(),
    {
        String::from_str(
            match self {
                FormatType::Audio => "Audio",
                FormatType::Video => "Video",
                FormatType::AudioVideo => "AudioVideo",
                FormatType::Manifest { .. } => "Manifest",
                FormatType::Storyboard => "Storyboard",
                FormatType::Unknown => "Unknown",
            },
        )
    }
}

impl CodecInfo {
    /// `CodecInfo(audio=<codec or "none">, video=<codec or "none">)`.
    pub open spec fn display(self) -> Seq<char> {
        "CodecInfo(audio="@ + or_text(self.audio_codec, "none"@) + ", video="@ + or_text(self.video_codec, "none"@) + ")"@
    }

    /// Renders the codec information as `Display` does.
    pub fn to_string(&self) -> (r: String)
        ensures
            r@ == self.display(),
    {
        let mut s = String::from_str("CodecInfo(audio=");
        append_or(&mut s, &self.audio_codec, "none");
        s.append(", video=");
        append_or(&mut s, &self.video_codec, "none");
        s.append(")");
        s
    }
}

impl VideoResolution {
    /// `VideoResolution(width=<w>, height=<h>)` when both are known, else
    /// `VideoResolution(unknown)`.
    pub open spec fn display(self) -> Seq<char> {
        match (self.width, self.height) {
            (Some(w), Some(h)) => "VideoResolution(width="@ + decimal(w as nat) + ", height="@ + decimal(h as nat) + ")"@,
            _ => "VideoResolution(unknown)"@,
        }
    }

    /// Renders the resolution as `Display` does.
    pub fn to_string(&self) -> (r: String)
        ensures
            r@ == self.display(),
    {
        match (self.width, self.height) {
            (Some(w), Some(h)) => {
                let mut s = String::from_str("VideoResolution(width=");
                push_decimal(&mut s, w as u64);
                s.append(", height=");
                push_decimal(&mut s, h as u64);
                s.append(")");
                s
            },
            _ => String::from_str("VideoResolution(unknown)"),
        }
    }
}

impl DownloadInfo {
    /// `DownloadInfo(url=<url or "none">)`.
    pub open spec fn display(self) -> Seq<char> {
        "DownloadInfo(url="@ + or_text(self.url, "none"@) + ")"@
    }

    /// Renders the download information as `Display` does.
    pub fn to_string(&self) -> (r: String)
        ensures
            r@ == self.display(),
    {
        let mut s = String::from_str("DownloadInfo(url=");
        append_or(&mut s, &self.url, "none");
        s.append(")");
        s
    }
}

impl FileInfo {
    /// `FileInfo(size=<n>)`, else `FileInfo(approx_size=<n>)`, else
    /// `FileInfo(size=unknown)`.
    pub open spec fn display(self) -> Seq<char> {
        match (self.filesize, self.filesize_approx) {
            (Some(n), _) => "FileInfo(size="@ + decimal_int(n as int) + ")"@,
            (None, Some(n)) => "FileInfo(approx_size="@ + decimal_int(n as int) + ")"@,
            (None, None) => "FileInfo(size=unknown)"@,
        }
    }

    /// Renders the file information as `Display` does.
    pub fn to_string(&self) -> (r: String)
        ensures
            r@ == self.display(),
    {
        match (self.filesize, self.filesize_approx) {
            (Some(n), _) => {
                let mut s = String::from_str("FileInfo(size=");
                push_decimal_signed(&mut s, n);
                s.append(")");
                s
            },
            (None, Some(n)) => {
                let mut s = String::from_str("FileInfo(approx_size=");
                push_decimal_signed(&mut s, n);
                s.append(")");
                s
            },
            (None, None) => String::from_str("FileInfo(size=unknown)"),
        }
    }
}

impl StoryboardInfo {
    /// `StoryboardInfo(rows=<r>, columns=<c>)` when both are known, else
    /// `StoryboardInfo(unknown)`.
    pub open spec fn display(self) -> Seq<char> {
        match (self.rows, self.columns) {
            (Some(r), Some(c)) => "StoryboardInfo(rows="@ + decimal_int(r as int) + ", columns="@ + decimal_int(c as int) + ")"@,
            _ => "StoryboardInfo(unknown)"@,
        }
    }

    /// Renders the storyboard information as `Display` does.
    pub fn to_string(&self) -> (r: String)
        ensures
            r@ == self.display(),
    {
        match (self.rows, self.columns) {
            (Some(r), Some(c)) => {
                let mut s = String::from_str("StoryboardInfo(rows=");
                push_decimal_signed(&mut s, r);
                s.append(", columns=");
                push_decimal_signed(&mut s, c);
                s.append(")");
                s
            },
            _ => String::from_str("StoryboardInfo(unknown)"),
        }
    }
}

impl DownloaderOptions {
    /// `DownloaderOptions(chunk_size=<n>)`.
    pub open spec fn display(self) -> Seq<char> {
        "DownloaderOptions(chunk_size="@ + decimal_int(self.http_chunk_size as int) + ")"@
    }

    /// Renders the options as `Display` does.
    pub fn to_string(&self) -> (r: String)
        ensures
            r@ == self.display(),
    {
        let mut s = String::from_str("DownloaderOptions(chunk_size=");
        push_decimal_signed(&mut s, self.http_chunk_size);
        s.append(")");
        s
    }
}

impl HttpHeaders {
    /// Creates browser-like headers for a user agent: accept `*/*`,
    /// accept-language `en-US,en`, fetch mode `navigate`.
    pub fn browser_defaults(user_agent: String) -> (r: HttpHeaders)
        ensures
            r.user_agent == user_agent,
            r.accept@ == "*/*"@,
            r.accept_language@ == "en-US,en"@,
            r.sec_fetch_mode@ == "navigate"@,
    {
        HttpHeaders {
            user_agent,
            accept: String::from_str("*/*"),
            accept_language: String::from_str("en-US,en"),
            sec_fetch_mode: String::from_str("navigate"),
        }
    }

    /// `HttpHeaders(user_agent=<agent>)`.
    pub open spec fn display(self) -> Seq<char> {
        "HttpHeaders(user_agent="@ + self.user_agent@ + ")"@
    }

    /// Renders the headers as `Display` does.
    pub fn to_string(&self) -> (r: String)
        ensures
            r@ == self.display(),
    {
        let mut s = String::from_str("HttpHeaders(user_agent=");
        s.append(self.user_agent.as_str());
        s.append(")");
        s
    }
}

/// The type of a format, decided from its storyboard fragments, its codecs
/// and its manifest URL.
pub open spec fn format_type_of(f: Format) -> FormatType {
    let audio = f.codec_info.audio_codec is Some;
    let video = f.codec_info.video_codec is Some;
    if f.storyboard_info.fragments is Some {
        FormatType::Storyboard
    } else if f.download_info.manifest_url is Some {
        FormatType::Manifest { audio, video }
    } else if audio && video {
        FormatType::AudioVideo
    } else if audio {
        FormatType::Audio
    } else if video {
        FormatType::Video
    } else {
        FormatType::Manifest { audio, video }
    }
}

impl Format {
    /// Gets the type of the format.
    /// It can be audio, video, both of them, a manifest, or a storyboard.
    pub fn format_type(&self) -> (r: FormatType)
        ensures
            r == format_type_of(*self),
    {
        if self.storyboard_info.fragments.is_some() {
            return FormatType::Storyboard;
        }
        let audio = self.codec_info.audio_codec.is_some();
        let video = self.codec_info.video_codec.is_some();
        if self.download_info.manifest_url.is_some() {
            return FormatType::Manifest { audio, video };
        }
        if audio && video {
            FormatType::AudioVideo
        } else if audio {
            FormatType::Audio
        } else if video {
            FormatType::Video
        } else {
            FormatType::Manifest { audio, video }
        }
    }

    /// Checks if the format is a video format.
    pub fn is_video(&self) -> (r: bool)
        ensures
            r == format_type_of(*self).has_video(),
    {
        let format_type = self.format_type();
        format_type.is_video()
    }

    /// Checks if the format is an audio format.
    pub fn is_audio(&self) -> (r: bool)
        ensures
            r == format_type_of(*self).has_audio(),
    {
        let format_type = self.format_type();
        format_type.is_audio()
    }

    /// Checks if the format is a manifest.
    pub fn is_manifest(&self) -> (r: bool)
        ensures
            r == (format_type_of(*self) matches FormatType::Manifest { .. }),
    {
        let format_type = self.format_type();
        format_type.is_manifest()
    }

    /// `Format(id=<id>, format=<display name as {:?} renders it>)`.
    pub open spec fn display(self) -> Seq<char> {
        "Format(id="@ + self.format_id@ + ", format="@ + debug_text(self.format@) + ")"@
    }

    /// Renders the format as `Display` does.
    pub fn to_string(&self) -> (r: String)
        ensures
            r@ == self.display(),
    {
        let mut s = String::from_str("Format(id=");
        s.append(self.format_id.as_str());
        s.append(", format=");
        let q = quote_debug(self.format.as_str());
        s.append(q.as_str());
        s.append(")");
        s
    }

    /// Returns the decrypted URL for this format, or
    /// [`Error::FormatNoUrl`] (naming the video, `"unknown"` when the format
    /// carries no video ID, and the format) if it has none.
    pub fn url(&self) -> (r: Result<&String, Error>)
        ensures
            match r {
                Ok(u) => self.download_info.url == Some(*u),
                Err(e) => {
                    &&& self.download_info.url is None
                    &&& e matches Error::FormatNoUrl { video_id, format_id }
                    &&& video_id@ == match self.video_id {
                        Some(v) => v@,
                        None => "unknown"@,
                    }
                    &&& format_id == self.format_id
                },
            },
    {
        match &self.download_info.url {
            Some(u) => Ok(u),
            None => {
                let video_id = match &self.video_id {
                    Some(v) => v.clone(),
                    None => "unknown".to_string(),
                };
                Err(Error::FormatNoUrl { video_id, format_id: self.format_id.clone() })
            },
        }
    }
}

} // verus!
