//! The preferences a caller gives when asking for a format or a thumbnail.
use vstd::prelude::*;

use crate::text::{ascii_lower_seq, contains_chars, has_infix, lower_chars};

verus! {

/// The desired video quality.
#[derive(Debug, Clone, Copy, PartialEq, Eq, Hash, Structural)]
pub enum VideoQuality {
    /// The highest-ranked video format.
    Best,
    /// The lowest-ranked video format.
    Worst,
    /// Closest to 1080 pixels high.
    High,
    /// Closest to 720 pixels high.
    Medium,
    /// Closest to 480 pixels high.
    Low,
    /// Closest to the given height in pixels.
    CustomHeight(u32),
    /// Closest to the given width in pixels.
    CustomWidth(u32),
}

/// The desired audio quality.
#[derive(Debug, Clone, Copy, PartialEq, Eq, Hash, Structural)]
pub enum AudioQuality {
    /// The highest-ranked audio format.
    Best,
    /// The lowest-ranked audio format.
    Worst,
    /// Closest to 192 kbps.
    High,
    /// Closest to 128 kbps.
    Medium,
    /// Closest to 96 kbps.
    Low,
    /// Closest to the given bitrate in kbps.
    CustomBitrate(u32),
}

/// The desired storyboard quality.
#[derive(Debug, Clone, Copy, PartialEq, Eq, Hash, Structural)]
pub enum StoryboardQuality {
    /// Most fragments, then largest frames.
    Best,
    /// Fewest fragments, then smallest frames.
    Worst,
}

/// The desired thumbnail quality.
#[derive(Debug, Clone, Copy, PartialEq, Eq, Hash, Structural)]
pub enum ThumbnailQuality {
    /// The largest thumbnail.
    Best,
    /// The smallest thumbnail.
    Worst,
    /// The smallest thumbnail at least this wide and this high.
    MinimumResolution(u32, u32),
}

/// The preferred video codec.
#[derive(Debug, Clone, PartialEq, Eq, Hash)]
pub enum VideoCodecPreference {
    /// Any codec.
    Any,
    /// Codecs whose name contains this text, ignoring ASCII case (e.g. `"avc1"`, `"vp9"`).
    Custom(String),
}

/// The preferred audio codec.
#[derive(Debug, Clone, PartialEq, Eq, Hash)]
pub enum AudioCodecPreference {
    /// Any codec.
    Any,
    /// Codecs whose name contains this text, ignoring ASCII case (e.g. `"opus"`, `"mp4a"`).
    Custom(String),
}

/// A codec name matches a wanted name when it contains it, ASCII case ignored.
pub open spec fn codec_name_matches(codec: Seq<char>, wanted: Seq<char>) -> bool {
    has_infix(ascii_lower_seq(codec), ascii_lower_seq(wanted))
}

/// Whether a video codec name satisfies the preference.
pub open spec fn video_codec_matches(codec: Seq<char>, preference: VideoCodecPreference) -> bool {
    match preference {
        VideoCodecPreference::Any => true,
        VideoCodecPreference::Custom(w) => codec_name_matches(codec, w@),
    }
}

/// Whether an audio codec name satisfies the preference.
pub open spec fn audio_codec_matches(codec: Seq<char>, preference: AudioCodecPreference) -> bool {
    match preference {
        AudioCodecPreference::Any => true,
        AudioCodecPreference::Custom(w) => codec_name_matches(codec, w@),
    }
}

/// Checks whether a video codec name satisfies the preference.
pub fn matches_video_codec(codec: &str, preference: &VideoCodecPreference) -> (r: bool)
    ensures
        r == video_codec_matches(codec@, *preference),
{
    match preference {
        VideoCodecPreference::Any => true,
        VideoCodecPreference::Custom(w) => {
            let hay = lower_chars(codec);
            let needle = lower_chars(w.as_str());
            contains_chars(&hay, &needle)
        },
    }
}

/// Checks whether an audio codec name satisfies the preference.
pub fn matches_audio_codec(codec: &str, preference: &AudioCodecPreference) -> (r: bool)
    ensures
        r == audio_codec_matches(codec@, *preference),
{
    match preference {
        AudioCodecPreference::Any => true,
        AudioCodecPreference::Custom(w) => {
            let hay = lower_chars(codec);
            let needle = lower_chars(w.as_str());
            contains_chars(&hay, &needle)
        },
    }
}

} // verus!
