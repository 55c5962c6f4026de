use yt_dlp::error::Error;
use yt_dlp::format::{
    CodecInfo, Container, DownloadInfo, DownloaderOptions, DynamicRange, Extension, FileInfo, Format, FormatType,
    Fragment, HttpHeaders, Protocol, QualityInfo, RatesInfo, StoryboardInfo, VideoResolution,
};

fn headers() -> HttpHeaders {
    HttpHeaders::browser_defaults("Mozilla/5.0".to_string())
}

fn format_with(id: &str, audio: Option<&str>, video: Option<&str>) -> Format {
    Format {
        format: format!("{} - test", id),
        format_id: id.to_string(),
        format_note: None,
        protocol: Protocol::Https,
        language: None,
        container: None,
        available_at: None,
        language_preference: None,
        source_preference: None,
        codec_info: CodecInfo {
            audio_codec: audio.map(|s| s.to_string()),
            video_codec: video.map(|s| s.to_string()),
            audio_ext: Extension::M4A,
            video_ext: Extension::Mp4,
            audio_channels: None,
            asr: None,
        },
        video_resolution: VideoResolution { width: None, height: None, resolution: None, fps: None, aspect_ratio: None },
        download_info: DownloadInfo {
            url: Some(format!("https://example.com/{}", id)),
            ext: Extension::Mp4,
            http_headers: headers(),
            manifest_url: None,
            downloader_options: None,
        },
        quality_info: QualityInfo { quality: None, dynamic_range: None },
        file_info: FileInfo { filesize_approx: None, filesize: None },
        storyboard_info: StoryboardInfo { rows: None, columns: None, fragments: None },
        rates_info: RatesInfo { video_rate: None, audio_rate: None, total_rate: None },
        video_id: None,
    }
}

#[test]
fn format_type_predicates() {
    assert!(FormatType::AudioVideo.is_audio_and_video());
    assert!(FormatType::AudioVideo.is_audio());
    assert!(FormatType::AudioVideo.is_video());
    assert!(FormatType::Audio.is_audio());
    assert!(!FormatType::Audio.is_video());
    assert!(FormatType::Video.is_video());
    assert!(!FormatType::Video.is_audio());
    let m = FormatType::Manifest { audio: true, video: false };
    assert!(m.is_audio());
    assert!(!m.is_video());
    assert!(!m.is_audio_and_video());
    assert!(m.is_manifest());
    assert!(FormatType::Manifest { audio: true, video: true }.is_audio_and_video());
    assert!(FormatType::Storyboard.is_storyboard());
    assert!(!FormatType::Storyboard.is_audio());
    assert!(!FormatType::Unknown.is_video());
    assert!(!FormatType::Unknown.is_manifest());
}

#[test]
fn format_type_is_decided_by_codecs_manifest_and_fragments() {
    assert_eq!(format_with("a", Some("opus"), None).format_type(), FormatType::Audio);
    assert_eq!(format_with("v", None, Some("vp9")).format_type(), FormatType::Video);
    assert_eq!(format_with("av", Some("mp4a"), Some("avc1")).format_type(), FormatType::AudioVideo);
    assert_eq!(format_with("n", None, None).format_type(), FormatType::Manifest { audio: false, video: false });
    let mut m = format_with("m", Some("mp4a"), Some("avc1"));
    m.download_info.manifest_url = Some("https://example.com/m.m3u8".to_string());
    assert_eq!(m.format_type(), FormatType::Manifest { audio: true, video: true });
    assert!(m.is_manifest());
    assert!(m.is_video());
    assert!(m.is_audio());
    let mut s = format_with("sb", None, None);
    s.storyboard_info.fragments = Some(vec![Fragment { url: "https://example.com/f".to_string(), duration: 0 }]);
    assert_eq!(s.format_type(), FormatType::Storyboard);
    assert!(!s.is_video());
    assert!(!s.is_audio());
    assert!(!s.is_manifest());
}

#[test]
fn format_url_present_and_missing() {
    let f = format_with("22", Some("mp4a"), Some("avc1"));
    assert_eq!(f.url().unwrap(), "https://example.com/22");
    let mut g = format_with("18", None, Some("avc1"));
    g.download_info.url = None;
    match g.url() {
        Err(Error::FormatNoUrl { video_id, format_id }) => {
            assert_eq!(video_id, "unknown");
            assert_eq!(format_id, "18");
        },
        other => panic!("unexpected {:?}", other),
    }
    g.video_id = Some("abc".to_string());
    match g.url() {
        Err(Error::FormatNoUrl { video_id, .. }) => assert_eq!(video_id, "abc"),
        other => panic!("unexpected {:?}", other),
    }
}

#[test]
fn format_display_quotes_the_display_name() {
    let mut f = format_with("303", None, Some("vp9"));
    f.format = "303 - 1920x1080 (1080p60)".to_string();
    assert_eq!(f.to_string(), "Format(id=303, format=\"303 - 1920x1080 (1080p60)\")");
    f.format = "a\"b\\c\n".to_string();
    assert_eq!(f.to_string(), "Format(id=303, format=\"a\\\"b\\\\c\\n\")");
}

#[test]
fn extension_as_str_values() {
    assert_eq!(Extension::M4A.as_str(), "m4a");
    assert_eq!(Extension::Mp3.as_str(), "mp3");
    assert_eq!(Extension::Webm.as_str(), "webm");
    assert_eq!(Extension::Mhtml.as_str(), "mhtml");
    assert_eq!(Extension::Empty.as_str(), "bin");
    assert_eq!(Extension::Unknown.as_str(), "bin");
}

#[test]
fn extension_display_values() {
    assert_eq!(Extension::M4A.to_string(), "M4A");
    assert_eq!(Extension::Mp4.to_string(), "Mp4");
    assert_eq!(Extension::Empty.to_string(), "None");
    assert_eq!(Extension::Unknown.to_string(), "Unknown");
}

#[test]
fn extension_parse_aliases_and_case() {
    assert_eq!(Extension::parse("MP4"), Extension::Mp4);
    assert_eq!(Extension::parse("Opus"), Extension::Ogg);
    assert_eq!(Extension::parse("oga"), Extension::Ogg);
    assert_eq!(Extension::parse("aif"), Extension::Aiff);
    assert_eq!(Extension::parse("M2TS"), Extension::Ts);
    assert_eq!(Extension::parse("mts"), Extension::Ts);
    assert_eq!(Extension::parse(""), Extension::Empty);
    assert_eq!(Extension::parse("NONE"), Extension::Empty);
    assert_eq!(Extension::parse("mkv"), Extension::Unknown);
    assert_eq!(Extension::parse("\u{212A}"), Extension::Unknown);
    assert_eq!("webm".parse::<Extension>(), Ok(Extension::Webm));
}

#[test]
fn extension_round_trips() {
    let all = [
        Extension::M4A,
        Extension::Mp3,
        Extension::Mp4,
        Extension::Webm,
        Extension::Flac,
        Extension::Ogg,
        Extension::Wav,
        Extension::Aac,
        Extension::Aiff,
        Extension::Avi,
        Extension::Ts,
        Extension::Flv,
        Extension::Mhtml,
        Extension::Empty,
        Extension::Unknown,
    ];
    for e in all {
        assert_eq!(Extension::parse(&e.to_string()), e);
        if e != Extension::Empty && e != Extension::Unknown {
            assert_eq!(Extension::parse(e.as_str()), e);
        }
    }
    assert_eq!(Extension::parse(Extension::Empty.as_str()), Extension::Unknown);
}

#[test]
fn enum_displays() {
    assert_eq!(Container::Webm.to_string(), "Webm");
    assert_eq!(Container::Unknown.to_string(), "Unknown");
    assert_eq!(Protocol::M3U8Native.to_string(), "HLS");
    assert_eq!(Protocol::Https.to_string(), "Https");
    assert_eq!(DynamicRange::HDR.to_string(), "HDR");
    assert_eq!(FormatType::Manifest { audio: true, video: false }.to_string(), "Manifest");
    assert_eq!(FormatType::AudioVideo.to_string(), "AudioVideo");
}

#[test]
fn struct_displays() {
    let c = CodecInfo {
        audio_codec: Some("opus".to_string()),
        video_codec: None,
        audio_ext: Extension::Webm,
        video_ext: Extension::Empty,
        audio_channels: Some(2),
        asr: Some(48000),
    };
    assert_eq!(c.to_string(), "CodecInfo(audio=opus, video=none)");
    let r = VideoResolution { width: Some(1920), height: Some(1080), resolution: None, fps: None, aspect_ratio: None };
    assert_eq!(r.to_string(), "VideoResolution(width=1920, height=1080)");
    let r2 = VideoResolution { width: Some(1920), height: None, resolution: None, fps: None, aspect_ratio: None };
    assert_eq!(r2.to_string(), "VideoResolution(unknown)");
    let d = DownloadInfo {
        url: None,
        ext: Extension::Mp4,
        http_headers: headers(),
        manifest_url: None,
        downloader_options: None,
    };
    assert_eq!(d.to_string(), "DownloadInfo(url=none)");
    assert_eq!(FileInfo { filesize_approx: Some(10), filesize: Some(-5) }.to_string(), "FileInfo(size=-5)");
    assert_eq!(FileInfo { filesize_approx: Some(10), filesize: None }.to_string(), "FileInfo(approx_size=10)");
    assert_eq!(FileInfo { filesize_approx: None, filesize: None }.to_string(), "FileInfo(size=unknown)");
    assert_eq!(StoryboardInfo { rows: Some(3), columns: Some(4), fragments: None }.to_string(), "StoryboardInfo(rows=3, columns=4)");
    assert_eq!(StoryboardInfo { rows: Some(3), columns: None, fragments: None }.to_string(), "StoryboardInfo(unknown)");
    assert_eq!(DownloaderOptions { http_chunk_size: 10485760 }.to_string(), "DownloaderOptions(chunk_size=10485760)");
    assert_eq!(headers().to_string(), "HttpHeaders(user_agent=Mozilla/5.0)");
}

#[test]
fn browser_default_headers() {
    let h = HttpHeaders::browser_defaults("UA".to_string());
    assert_eq!(h.user_agent, "UA");
    assert_eq!(h.accept, "*/*");
    assert_eq!(h.accept_language, "en-US,en");
    assert_eq!(h.sec_fetch_mode, "navigate");
}

#[test]
fn header_map_holds_valid_headers() {
    let map = headers().to_header_map();
    assert_eq!(map.len(), 4);
    assert_eq!(map.get("user-agent").unwrap(), "Mozilla/5.0");
    assert_eq!(map.get("accept").unwrap(), "*/*");
    assert_eq!(map.get("accept-language").unwrap(), "en-US,en");
    assert_eq!(map.get("Sec-Fetch-Mode").unwrap(), "navigate");
}

#[test]
fn header_map_drops_invalid_values() {
    let mut h = headers();
    h.user_agent = "bad\nagent".to_string();
    h.sec_fetch_mode = "caf\u{e9}".to_string();
    let map = h.to_header_map();
    assert_eq!(map.len(), 3);
    assert!(map.get("user-agent").is_none());
    assert_eq!(map.get("sec-fetch-mode").unwrap().as_bytes(), "caf\u{e9}".as_bytes());
}
