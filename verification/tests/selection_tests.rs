use std::cmp::Ordering;

use yt_dlp::error::Error;
use yt_dlp::format::{
    CodecInfo, DownloadInfo, Extension, FileInfo, Format, FormatType, Fragment, HttpHeaders, Protocol, QualityInfo,
    RatesInfo, StoryboardInfo, VideoResolution,
};
use yt_dlp::selector::{
    AudioCodecPreference, AudioQuality, StoryboardQuality, ThumbnailQuality, VideoCodecPreference, VideoQuality,
};
use yt_dlp::thumbnail::Thumbnail;
use yt_dlp::video::{ExtractorInfo, Version, Video};

fn bits(x: f64) -> u64 {
    x.to_bits()
}

fn base(id: &str, audio: Option<&str>, video: Option<&str>) -> Format {
    Format {
        format: format!("{} - test", id),
        format_id: id.to_string(),
        format_note: None,
        protocol: Protocol::Https,
        language: None,
        container: None,
        available_at: None,
        language_preference: None,
        source_preference: None,
        codec_info: CodecInfo {
            audio_codec: audio.map(|s| s.to_string()),
            video_codec: video.map(|s| s.to_string()),
            audio_ext: Extension::M4A,
            video_ext: Extension::Mp4,
            audio_channels: None,
            asr: None,
        },
        video_resolution: VideoResolution { width: None, height: None, resolution: None, fps: None, aspect_ratio: None },
        download_info: DownloadInfo {
            url: Some(format!("https://example.com/{}", id)),
            ext: Extension::Mp4,
            http_headers: HttpHeaders::browser_defaults("UA".to_string()),
            manifest_url: None,
            downloader_options: None,
        },
        quality_info: QualityInfo { quality: None, dynamic_range: None },
        file_info: FileInfo { filesize_approx: None, filesize: None },
        storyboard_info: StoryboardInfo { rows: None, columns: None, fragments: None },
        rates_info: RatesInfo { video_rate: None, audio_rate: None, total_rate: None },
        video_id: None,
    }
}

fn video_fmt(id: &str, codec: &str, width: u32, height: u32, quality: f64) -> Format {
    let mut f = base(id, None, Some(codec));
    f.video_resolution.width = Some(width);
    f.video_resolution.height = Some(height);
    f.quality_info.quality = Some(bits(quality));
    f
}

fn audio_fmt(id: &str, codec: &str, abr: f64) -> Format {
    let mut f = base(id, Some(codec), None);
    f.rates_info.audio_rate = Some(bits(abr));
    f
}

fn storyboard(id: &str, fragments: usize, width: u32, height: u32) -> Format {
    let mut f = base(id, None, None);
    f.protocol = Protocol::Mhtml;
    f.video_resolution.width = Some(width);
    f.video_resolution.height = Some(height);
    let frags = (0..fragments).map(|i| Fragment { url: format!("https://example.com/{}/{}", id, i), duration: 0 }).collect();
    f.storyboard_info.fragments = Some(frags);
    f
}

fn thumb(id: &str, width: Option<i64>, height: Option<i64>, preference: i64) -> Thumbnail {
    Thumbnail {
        url: format!("https://example.com/{}.jpg", id),
        preference,
        id: id.to_string(),
        height,
        width,
        resolution: None,
    }
}

fn video(formats: Vec<Format>, thumbnails: Vec<Thumbnail>) -> Video {
    Video {
        id: "vid".to_string(),
        title: "A title".to_string(),
        thumbnail: None,
        description: None,
        availability: None,
        upload_date: None,
        duration: None,
        duration_string: None,
        webpage_url: Some("https://www.youtube.com/watch?v=vid".to_string()),
        language: None,
        media_type: None,
        is_live: None,
        was_live: None,
        release_timestamp: None,
        release_year: None,
        concurrent_view_count: None,
        view_count: None,
        like_count: None,
        comment_count: None,
        channel: Some("Chan".to_string()),
        channel_id: None,
        channel_url: None,
        channel_follower_count: None,
        uploader: None,
        uploader_id: None,
        uploader_url: None,
        channel_is_verified: None,
        formats,
        thumbnails,
        automatic_caption_languages: vec![],
        subtitle_languages: vec![],
        tags: vec![],
        categories: vec![],
        age_limit: 0,
        live_status: "not_live".to_string(),
        playable_in_embed: true,
        extractor_info: ExtractorInfo { extractor: "youtube".to_string(), extractor_key: "Youtube".to_string() },
        version: Version {
            version: "2024.10.22".to_string(),
            current_git_head: None,
            release_git_head: None,
            repository: "yt-dlp/yt-dlp".to_string(),
        },
    }
}

fn sample() -> Video {
    video(
        vec![
            video_fmt("v480", "avc1.4d401e", 854, 480, 6.0),
            video_fmt("v1080", "vp9", 1920, 1080, 9.0),
            video_fmt("v720", "avc1.64001f", 1280, 720, 8.0),
            audio_fmt("a48", "mp4a.40.5", 48.0),
            audio_fmt("a129", "opus", 129.5),
            audio_fmt("a160", "opus", 160.0),
            storyboard("sb0", 2, 48, 27),
            storyboard("sb1", 5, 80, 45),
            storyboard("sb2", 5, 160, 90),
        ],
        vec![thumb("t0", Some(120), Some(90), -10), thumb("t1", Some(1280), Some(720), -5), thumb("t2", None, None, 0)],
    )
}

fn id(f: Option<&Format>) -> &str {
    f.map(|f| f.format_id.as_str()).unwrap_or("-")
}

#[test]
fn best_and_worst_video_and_audio() {
    let v = sample();
    assert_eq!(id(v.best_video_format()), "v1080");
    assert_eq!(id(v.worst_video_format()), "v480");
    assert_eq!(id(v.best_audio_format()), "a160");
    assert_eq!(id(v.worst_audio_format()), "a48");
}

#[test]
fn no_formats_select_nothing() {
    let v = video(vec![], vec![]);
    assert!(v.best_video_format().is_none());
    assert!(v.worst_audio_format().is_none());
    assert!(v.select_video_format(VideoQuality::High, VideoCodecPreference::Any).is_none());
    assert!(v.select_audio_format(AudioQuality::Low, AudioCodecPreference::Any).is_none());
    assert!(v.best_storyboard_format().is_none());
    assert!(v.storyboard_formats().is_empty());
    assert!(v.select_thumbnail(ThumbnailQuality::Best).is_none());
}

#[test]
fn ties_pick_last_best_and_first_worst() {
    let v = video(vec![video_fmt("x", "vp9", 640, 360, 5.0), video_fmt("y", "vp9", 640, 360, 5.0)], vec![]);
    assert_eq!(id(v.best_video_format()), "y");
    assert_eq!(id(v.worst_video_format()), "x");
}

#[test]
fn non_manifest_ranks_above_manifest() {
    let a = video_fmt("plain", "vp9", 640, 360, 5.0);
    let mut b = video_fmt("hls", "vp9", 640, 360, 5.0);
    b.download_info.manifest_url = Some("https://example.com/x.m3u8".to_string());
    let v = video(vec![a.clone(), b.clone()], vec![]);
    assert_eq!(v.compare_video_formats(&a, &b), Ordering::Greater);
    assert_eq!(v.compare_video_formats(&b, &a), Ordering::Less);
    assert_eq!(id(v.best_video_format()), "plain");
}

#[test]
fn comparisons_follow_the_criteria() {
    let v = sample();
    let hi = video_fmt("hi", "vp9", 1920, 1080, 9.0);
    let lo = video_fmt("lo", "vp9", 1920, 1080, 7.0);
    assert_eq!(v.compare_video_formats(&hi, &lo), Ordering::Greater);
    assert_eq!(v.compare_video_formats(&hi, &hi), Ordering::Equal);
    let mut fast = hi.clone();
    fast.video_resolution.fps = Some(bits(60.0));
    assert_eq!(v.compare_video_formats(&fast, &hi), Ordering::Greater);
    let mut nan = lo.clone();
    nan.quality_info.quality = Some(bits(f64::NAN));
    assert_eq!(v.compare_video_formats(&nan, &hi), Ordering::Greater);
    let a = audio_fmt("a", "opus", 128.0);
    let mut b = audio_fmt("b", "opus", 128.0);
    b.codec_info.asr = Some(48000);
    assert_eq!(v.compare_audio_formats(&a, &b), Ordering::Less);
    let mut c = b.clone();
    c.codec_info.audio_channels = Some(2);
    assert_eq!(v.compare_audio_formats(&c, &b), Ordering::Greater);
    let mut neg = a.clone();
    neg.quality_info.quality = Some(bits(-1.0));
    assert_eq!(v.compare_audio_formats(&neg, &a), Ordering::Less);
}

#[test]
fn select_video_by_height_presets() {
    let v = sample();
    assert_eq!(id(v.select_video_format(VideoQuality::High, VideoCodecPreference::Any)), "v1080");
    assert_eq!(id(v.select_video_format(VideoQuality::Medium, VideoCodecPreference::Any)), "v720");
    assert_eq!(id(v.select_video_format(VideoQuality::Low, VideoCodecPreference::Any)), "v480");
    assert_eq!(id(v.select_video_format(VideoQuality::CustomHeight(600), VideoCodecPreference::Any)), "v720");
    assert_eq!(id(v.select_video_format(VideoQuality::CustomHeight(2160), VideoCodecPreference::Any)), "v1080");
    assert_eq!(id(v.select_video_format(VideoQuality::CustomWidth(1000), VideoCodecPreference::Any)), "v720");
    assert_eq!(id(v.select_video_format(VideoQuality::Best, VideoCodecPreference::Any)), "v1080");
    assert_eq!(id(v.select_video_format(VideoQuality::Worst, VideoCodecPreference::Any)), "v480");
}

#[test]
fn select_video_by_codec_with_fallback() {
    let v = sample();
    let avc = VideoCodecPreference::Custom("AVC1".to_string());
    assert_eq!(id(v.select_video_format(VideoQuality::Best, avc.clone())), "v720");
    assert_eq!(id(v.select_video_format(VideoQuality::High, avc)), "v720");
    let av1 = VideoCodecPreference::Custom("av01".to_string());
    assert_eq!(id(v.select_video_format(VideoQuality::Best, av1)), "v1080");
}

#[test]
fn select_audio_by_bitrate() {
    let v = sample();
    assert_eq!(id(v.select_audio_format(AudioQuality::High, AudioCodecPreference::Any)), "a160");
    assert_eq!(id(v.select_audio_format(AudioQuality::Medium, AudioCodecPreference::Any)), "a129");
    assert_eq!(id(v.select_audio_format(AudioQuality::Low, AudioCodecPreference::Any)), "a129");
    assert_eq!(id(v.select_audio_format(AudioQuality::CustomBitrate(40), AudioCodecPreference::Any)), "a48");
    assert_eq!(id(v.select_audio_format(AudioQuality::CustomBitrate(320), AudioCodecPreference::Any)), "a160");
    assert_eq!(id(v.select_audio_format(AudioQuality::Best, AudioCodecPreference::Any)), "a160");
    assert_eq!(id(v.select_audio_format(AudioQuality::Worst, AudioCodecPreference::Any)), "a48");
    let mp4a = AudioCodecPreference::Custom("mp4a".to_string());
    assert_eq!(id(v.select_audio_format(AudioQuality::High, mp4a)), "a48");
    let flac = AudioCodecPreference::Custom("flac".to_string());
    assert_eq!(id(v.select_audio_format(AudioQuality::Worst, flac)), "a48");
}

#[test]
fn storyboards_best_worst_and_order() {
    let v = sample();
    assert_eq!(id(v.best_storyboard_format()), "sb2");
    assert_eq!(id(v.worst_storyboard_format()), "sb0");
    assert_eq!(id(v.select_storyboard_format(StoryboardQuality::Best)), "sb2");
    assert_eq!(id(v.select_storyboard_format(StoryboardQuality::Worst)), "sb0");
    let order: Vec<&str> = v.storyboard_formats().iter().map(|f| f.format_id.as_str()).collect();
    assert_eq!(order, vec!["sb2", "sb1", "sb0"]);
}

#[test]
fn thumbnails_best_worst_and_minimum() {
    let v = sample();
    assert_eq!(v.best_thumbnail().unwrap().id, "t1");
    assert_eq!(v.worst_thumbnail().unwrap().id, "t0");
    assert_eq!(v.thumbnail_for_size(100, 80).unwrap().id, "t0");
    assert_eq!(v.thumbnail_for_size(200, 100).unwrap().id, "t1");
    assert!(v.thumbnail_for_size(4000, 100).is_none());
    assert_eq!(v.select_thumbnail(ThumbnailQuality::Best).unwrap().id, "t1");
    assert_eq!(v.select_thumbnail(ThumbnailQuality::Worst).unwrap().id, "t0");
    assert_eq!(v.select_thumbnail(ThumbnailQuality::MinimumResolution(200, 100)).unwrap().id, "t1");
}

#[test]
fn thumbnails_without_dimensions_fall_back_to_preference() {
    let v = video(vec![], vec![thumb("a", None, None, -3), thumb("b", Some(10), None, 7), thumb("c", None, None, 7)]);
    assert_eq!(v.best_thumbnail().unwrap().id, "c");
    assert_eq!(v.worst_thumbnail().unwrap().id, "a");
}

#[test]
fn best_audio_video_format_or_error() {
    let mut v = sample();
    match v.best_audio_video_format() {
        Err(Error::FormatNotAvailable { video_id, format_type, available_formats }) => {
            assert_eq!(video_id, "vid");
            assert_eq!(format_type, FormatType::AudioVideo);
            assert_eq!(available_formats.len(), 9);
            assert_eq!(available_formats[0], "v480");
        },
        other => panic!("unexpected {:?}", other),
    }
    v.formats.push(base("18", Some("mp4a"), Some("avc1")));
    v.formats.push(base("22", Some("mp4a"), Some("avc1")));
    assert_eq!(v.best_audio_video_format().unwrap().format_id, "22");
    let mut hi = base("37", Some("mp4a"), Some("avc1"));
    hi.video_resolution.height = Some(1080);
    let mut lo = base("18b", Some("mp4a"), Some("avc1"));
    lo.video_resolution.height = Some(360);
    let w = video(vec![lo, hi], vec![]);
    assert_eq!(w.best_audio_video_format().unwrap().format_id, "37");
}

#[test]
fn live_state_and_live_formats() {
    let mut v = sample();
    assert!(!v.is_currently_live());
    assert!(!v.is_upcoming());
    v.live_status = "is_upcoming".to_string();
    assert!(v.is_upcoming());
    v.live_status = "is_live".to_string();
    assert!(v.is_currently_live());
    v.live_status = "not_live".to_string();
    v.is_live = Some(true);
    assert!(v.is_currently_live());
    let mut h1 = base("h1", Some("mp4a"), Some("avc1"));
    h1.protocol = Protocol::M3U8Native;
    h1.rates_info.total_rate = Some(bits(3000.0));
    let mut h2 = base("h2", Some("mp4a"), Some("avc1"));
    h2.protocol = Protocol::M3U8Native;
    h2.rates_info.total_rate = Some(bits(800.0));
    let mut h3 = base("h3", Some("mp4a"), Some("avc1"));
    h3.protocol = Protocol::M3U8Native;
    v.formats = vec![h1, base("plain", Some("mp4a"), None), h2, h3];
    let order: Vec<&str> = v.live_formats().iter().map(|f| f.format_id.as_str()).collect();
    assert_eq!(order, vec!["h3", "h2", "h1"]);
}

#[test]
fn format_url_freshness() {
    let mut v = sample();
    assert_eq!(v.formats_available_at(), None);
    assert!(v.are_format_urls_fresh());
    v.formats[0].available_at = Some(1_000);
    v.formats[3].available_at = Some(500);
    let mut sb = storyboard("sbx", 1, 10, 10);
    sb.available_at = Some(10);
    v.formats.push(sb);
    assert_eq!(v.formats_available_at(), Some(500));
    assert!(v.are_format_urls_fresh_at(500 + 6 * 3600 - 1));
    assert!(!v.are_format_urls_fresh_at(500 + 6 * 3600));
    assert!(!v.are_format_urls_fresh());
}

#[test]
fn subtitle_languages_sorted_unique() {
    let mut v = sample();
    v.subtitle_languages = vec!["fr".to_string(), "en".to_string()];
    v.automatic_caption_languages = vec!["en".to_string(), "de".to_string(), "fr".to_string()];
    assert_eq!(v.list_subtitle_languages(), vec!["de".to_string(), "en".to_string(), "fr".to_string()]);
    assert!(v.has_subtitle_language("de"));
    assert!(v.has_subtitle_language("fr"));
    assert!(!v.has_subtitle_language("es"));
    assert!(!v.has_subtitle_language("EN"));
    let empty = video(vec![], vec![]);
    assert!(empty.list_subtitle_languages().is_empty());
}

#[test]
fn video_and_model_displays() {
    let v = sample();
    assert_eq!(v.to_string(), "Video(id=vid, title=\"A title\", channel=\"Chan\", formats=9)");
    let mut w = video(vec![], vec![]);
    w.channel = None;
    w.title = "say \"hi\"".to_string();
    assert_eq!(w.to_string(), "Video(id=vid, title=\"say \\\"hi\\\"\", channel=\"Unknown\", formats=0)");
    assert_eq!(v.extractor_info.to_string(), "ExtractorInfo(extractor=youtube, key=Youtube)");
    assert_eq!(v.version.to_string(), "Version(version=2024.10.22, repository=yt-dlp/yt-dlp)");
    assert_eq!(thumb("t9", None, None, 0).to_string(), "Thumbnail(id=t9, resolution=unknown)");
    let mut t = thumb("t8", Some(10), Some(10), 0);
    t.resolution = Some("10x10".to_string());
    assert_eq!(t.to_string(), "Thumbnail(id=t8, resolution=10x10)");
}

#[test]
fn range_checks_before_thumbnail_and_expiry_calls() {
    let v = sample();
    assert!(v.thumbnail_areas_in_range());
    assert!(v.fitting_areas_in_range(0, 0));
    assert!(v.expiry_in_range());
    let big = video(vec![], vec![thumb("huge", Some(i64::MAX), Some(2), 0), thumb("small", Some(10), Some(10), 0)]);
    assert!(!big.thumbnail_areas_in_range());
    assert!(!big.fitting_areas_in_range(5, 1));
    assert!(big.fitting_areas_in_range(5, 5));
    assert_eq!(big.thumbnail_for_size(5, 5).unwrap().id, "small");
    let mut late = sample();
    late.formats[0].available_at = Some(i64::MAX - 10);
    assert!(!late.expiry_in_range());
}

#[test]
fn presets_select_as_their_targets() {
    let v = sample();
    let pairs = [
        (VideoQuality::High, VideoQuality::CustomHeight(1080)),
        (VideoQuality::Medium, VideoQuality::CustomHeight(720)),
        (VideoQuality::Low, VideoQuality::CustomHeight(480)),
    ];
    for (preset, custom) in pairs {
        assert_eq!(
            id(v.select_video_format(preset, VideoCodecPreference::Any)),
            id(v.select_video_format(custom, VideoCodecPreference::Any))
        );
    }
    let audio_pairs = [
        (AudioQuality::High, AudioQuality::CustomBitrate(192)),
        (AudioQuality::Medium, AudioQuality::CustomBitrate(128)),
        (AudioQuality::Low, AudioQuality::CustomBitrate(96)),
    ];
    for (preset, custom) in audio_pairs {
        assert_eq!(
            id(v.select_audio_format(preset, AudioCodecPreference::Any)),
            id(v.select_audio_format(custom, AudioCodecPreference::Any))
        );
    }
}

#[test]
fn picks_agree_with_comparisons() {
    let v = sample();
    let best = v.best_video_format().unwrap();
    let worst = v.worst_video_format().unwrap();
    let best_audio = v.best_audio_format().unwrap();
    for f in v.formats.iter() {
        if f.format_type() == FormatType::Video {
            assert_ne!(v.compare_video_formats(f, best), Ordering::Greater);
            assert_ne!(v.compare_video_formats(f, worst), Ordering::Less);
        }
        if f.format_type() == FormatType::Audio {
            assert_ne!(v.compare_audio_formats(f, best_audio), Ordering::Greater);
        }
    }
    let (a, b, c) = (&v.formats[0], &v.formats[2], &v.formats[1]);
    assert_eq!(v.compare_video_formats(a, b), Ordering::Less);
    assert_eq!(v.compare_video_formats(b, c), Ordering::Less);
    assert_eq!(v.compare_video_formats(a, c), Ordering::Less);
    assert_eq!(v.compare_video_formats(c, a), Ordering::Greater);
}

#[test]
fn best_and_worst_rank_only_single_stream_formats() {
    let av = video(vec![base("18", Some("mp4a"), Some("avc1"))], vec![]);
    assert!(av.best_video_format().is_none());
    assert!(av.worst_video_format().is_none());
    assert!(av.best_audio_format().is_none());
    assert!(av.worst_audio_format().is_none());
    assert_eq!(id(av.select_video_format(VideoQuality::Best, VideoCodecPreference::Any)), "18");
    let mut hi_av = video_fmt("hi_av", "vp9", 3840, 2160, 10.0);
    hi_av.codec_info.audio_codec = Some("opus".to_string());
    let mut loud_av = base("loud_av", Some("opus"), Some("vp9"));
    loud_av.rates_info.audio_rate = Some(bits(320.0));
    let mut v = sample();
    v.formats.push(hi_av);
    v.formats.push(loud_av);
    assert_eq!(id(v.best_video_format()), "v1080");
    assert_eq!(id(v.best_audio_format()), "a160");
}

#[test]
fn unmatched_codec_selects_as_any() {
    let v = sample();
    let qualities = [
        VideoQuality::Best,
        VideoQuality::Worst,
        VideoQuality::High,
        VideoQuality::Low,
        VideoQuality::CustomHeight(600),
        VideoQuality::CustomWidth(1000),
    ];
    for q in qualities {
        assert_eq!(
            id(v.select_video_format(q, VideoCodecPreference::Custom("av01".to_string()))),
            id(v.select_video_format(q, VideoCodecPreference::Any))
        );
    }
    let aq = [AudioQuality::Best, AudioQuality::Worst, AudioQuality::High, AudioQuality::CustomBitrate(100)];
    for q in aq {
        assert_eq!(
            id(v.select_audio_format(q, AudioCodecPreference::Custom("flac".to_string()))),
            id(v.select_audio_format(q, AudioCodecPreference::Any))
        );
        let picked = v.select_audio_format(q, AudioCodecPreference::Custom("OPUS".to_string())).unwrap();
        assert_eq!(picked.codec_info.audio_codec.as_deref(), Some("opus"));
    }
}
