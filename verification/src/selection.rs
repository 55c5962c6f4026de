//! Choosing video, audio and storyboard formats and thumbnails of a video.
//!
//! Video formats rank by quality, then height, then frame rate, then video
//! bitrate, then non-manifest before manifest; audio formats by quality, then
//! audio bitrate, then sample rate, then channel count. Floating-point fields
//! rank in `OrderedFloat` order and default to `0.0` when absent; integers
//! default to 0.
use vstd::prelude::*;

use crate::float_order::{f64_bits_of_u32, float_key, float_key_or_zero, order_key, order_key_or_zero, u32_f64_bits};
use crate::error::Error;
use crate::format::{format_type_of, Format, FormatType};
use crate::ranking::{
    any_selected, argmax_last, argmin_first, is_first_min, is_last_max, is_stable_order, key_table, stable_order,
    uniform,
};
use crate::selector::{
    audio_codec_matches, matches_audio_codec, matches_video_codec, video_codec_matches, AudioCodecPreference,
    AudioQuality, StoryboardQuality, ThumbnailQuality, VideoCodecPreference, VideoQuality,
};
use crate::thumbnail::Thumbnail;
use crate::video::{collect_refs, is_storyboard, lists, storyboard_key, Video};

verus! {

/// A dimension that defaults to 0.
pub open spec fn or_zero(d: Option<u32>) -> int {
    match d {
        Some(v) => v as int,
        None => 0,
    }
}

/// An integer that defaults to 0.
pub open spec fn i64_or_zero(d: Option<i64>) -> int {
    match d {
        Some(v) => v as int,
        None => 0,
    }
}

/// Rank of a video format: quality, height, frame rate, video bitrate, then
/// non-manifest (1) above manifest (0).
pub open spec fn video_key(f: Format) -> Seq<i128> {
    seq![
        float_key_or_zero(f.quality_info.quality),
        or_zero(f.video_resolution.height) as i128,
        float_key_or_zero(f.video_resolution.fps),
        float_key_or_zero(f.rates_info.video_rate),
        if format_type_of(f) matches FormatType::Manifest { .. } { 0i128 } else { 1i128 },
    ]
}

/// Rank of an audio format: quality, audio bitrate, sample rate, channels.
pub open spec fn audio_key(f: Format) -> Seq<i128> {
    seq![
        float_key_or_zero(f.quality_info.quality),
        float_key_or_zero(f.rates_info.audio_rate),
        i64_or_zero(f.codec_info.asr) as i128,
        i64_or_zero(f.codec_info.audio_channels) as i128,
    ]
}

/// The height (or width) of a format.
pub open spec fn dimension(f: Format, by_width: bool) -> Option<u32> {
    if by_width {
        f.video_resolution.width
    } else {
        f.video_resolution.height
    }
}

/// The dimension is known and reaches the target.
pub open spec fn reaches(f: Format, target: u32, by_width: bool) -> bool {
    dimension(f, by_width) matches Some(d) && d >= target
}

/// Rank for the closest format above a target dimension: the distance to the
/// target (`saturating_sub`), then the video rank.
pub open spec fn gap_key(f: Format, target: u32, by_width: bool) -> Seq<i128> {
    let d = or_zero(dimension(f, by_width));
    seq![if d >= target { (d - target) as i128 } else { 0i128 }] + video_key(f)
}

/// Rank for the fallback when no format reaches the target: the dimension,
/// then the video rank.
pub open spec fn size_key(f: Format, by_width: bool) -> Seq<i128> {
    seq![or_zero(dimension(f, by_width)) as i128] + video_key(f)
}

/// The audio bitrate is known and reaches the target bitrate (compared as
/// `OrderedFloat` values).
pub open spec fn reaches_rate(f: Format, target: u32) -> bool {
    f.rates_info.audio_rate matches Some(r) && float_key(r) >= float_key(u32_f64_bits(target))
}

/// Rank for audio formats around a target bitrate: the audio bitrate, then the
/// audio rank. Among formats that reach the target this orders them by their
/// distance to it.
pub open spec fn rate_key(f: Format) -> Seq<i128> {
    seq![float_key_or_zero(f.rates_info.audio_rate)] + audio_key(f)
}

/// Rank of a storyboard for listing from best to worst: fragment count and
/// frame area, both negated so that an ascending order lists the largest first.
pub open spec fn storyboard_desc_key(f: Format) -> Seq<i128> {
    seq![(-storyboard_key(f)[0]) as i128, (-storyboard_key(f)[1]) as i128]
}

/// The target height of a video quality preset.
pub open spec fn preset_height(q: VideoQuality) -> u32 {
    match q {
        VideoQuality::High => 1080,
        VideoQuality::Medium => 720,
        VideoQuality::Low => 480,
        VideoQuality::CustomHeight(h) => h,
        _ => 0,
    }
}

/// The target bitrate of an audio quality preset.
pub open spec fn preset_bitrate(q: AudioQuality) -> u32 {
    match q {
        AudioQuality::High => 192,
        AudioQuality::Medium => 128,
        AudioQuality::Low => 96,
        AudioQuality::CustomBitrate(b) => b,
        _ => 0,
    }
}

/// The video codec of a format satisfies the preference.
pub open spec fn video_codec_ok(f: Format, codec: VideoCodecPreference) -> bool {
    f.codec_info.video_codec matches Some(c) && video_codec_matches(c@, codec)
}

/// The audio codec of a format satisfies the preference.
pub open spec fn audio_codec_ok(f: Format, codec: AudioCodecPreference) -> bool {
    f.codec_info.audio_codec matches Some(c) && audio_codec_matches(c@, codec)
}

impl Video {
    /// Video formats, by position.
    pub open spec fn video_formats(self) -> Seq<bool> {
        self.formats@.map_values(|f: Format| format_type_of(f).has_video())
    }

    /// Audio formats, by position.
    pub open spec fn audio_formats(self) -> Seq<bool> {
        self.formats@.map_values(|f: Format| format_type_of(f).has_audio())
    }

    /// Video-only formats (of type `FormatType::Video`), by position.
    pub open spec fn video_only_formats(self) -> Seq<bool> {
        self.formats@.map_values(|f: Format| format_type_of(f) == FormatType::Video)
    }

    /// Audio-only formats (of type `FormatType::Audio`), by position.
    pub open spec fn audio_only_formats(self) -> Seq<bool> {
        self.formats@.map_values(|f: Format| format_type_of(f) == FormatType::Audio)
    }

    /// Video ranks, by position.
    pub open spec fn video_keys(self) -> Seq<Seq<i128>> {
        self.formats@.map_values(|f: Format| video_key(f))
    }

    /// Audio ranks, by position.
    pub open spec fn audio_keys(self) -> Seq<Seq<i128>> {
        self.formats@.map_values(|f: Format| audio_key(f))
    }

    /// The video formats whose codec satisfies the preference, by position.
    pub open spec fn video_codec_matching(self, codec: VideoCodecPreference) -> Seq<bool> {
        self.formats@.map_values(|f: Format| format_type_of(f).has_video() && video_codec_ok(f, codec))
    }

    /// The audio formats whose codec satisfies the preference, by position.
    pub open spec fn audio_codec_matching(self, codec: AudioCodecPreference) -> Seq<bool> {
        self.formats@.map_values(|f: Format| format_type_of(f).has_audio() && audio_codec_ok(f, codec))
    }

    /// The video formats among which a codec preference chooses: those whose
    /// codec satisfies it, or every video format when the preference is
    /// `Any` or no video format satisfies it.
    pub open spec fn video_candidates(self, codec: VideoCodecPreference) -> Seq<bool> {
        let matching = self.video_codec_matching(codec);
        if codec is Any || !any_selected(matching) {
            self.video_formats()
        } else {
            matching
        }
    }

    /// The audio formats among which a codec preference chooses, as for video.
    pub open spec fn audio_candidates(self, codec: AudioCodecPreference) -> Seq<bool> {
        let matching = self.audio_codec_matching(codec);
        if codec is Any || !any_selected(matching) {
            self.audio_formats()
        } else {
            matching
        }
    }

    /// `i` is the candidate closest to the target dimension: the first of the
    /// smallest distance (then lowest video rank) among the candidates that
    /// reach the target, or when none does, the last of the largest dimension
    /// (then highest video rank) among all candidates.
    pub open spec fn closest_dimension_at(self, cands: Seq<bool>, target: u32, by_width: bool, i: int) -> bool {
        let above = Seq::new(cands.len(), |j: int| cands[j] && reaches(self.formats@[j], target, by_width));
        if any_selected(above) {
            is_first_min(self.formats@.map_values(|f: Format| gap_key(f, target, by_width)), above, i)
        } else {
            is_last_max(self.formats@.map_values(|f: Format| size_key(f, by_width)), cands, i)
        }
    }

    /// `i` is the candidate closest to the target bitrate: the first of the
    /// lowest bitrate (then lowest audio rank) among the candidates that reach
    /// the target, or when none does, the last of the highest bitrate (then
    /// highest audio rank) among all candidates.
    pub open spec fn closest_rate_at(self, cands: Seq<bool>, target: u32, i: int) -> bool {
        let above = Seq::new(cands.len(), |j: int| cands[j] && reaches_rate(self.formats@[j], target));
        if any_selected(above) {
            is_first_min(self.formats@.map_values(|f: Format| rate_key(f)), above, i)
        } else {
            is_last_max(self.formats@.map_values(|f: Format| rate_key(f)), cands, i)
        }
    }

    /// `i` is the video format that a quality and a codec preference select.
    pub open spec fn video_choice_at(self, quality: VideoQuality, codec: VideoCodecPreference, i: int) -> bool {
        let cands = self.video_candidates(codec);
        match quality {
            VideoQuality::Best => is_last_max(self.video_keys(), cands, i),
            VideoQuality::Worst => is_first_min(self.video_keys(), cands, i),
            VideoQuality::CustomWidth(w) => self.closest_dimension_at(cands, w, true, i),
            _ => self.closest_dimension_at(cands, preset_height(quality), false, i),
        }
    }

    /// `i` is the audio format that a quality and a codec preference select.
    pub open spec fn audio_choice_at(self, quality: AudioQuality, codec: AudioCodecPreference, i: int) -> bool {
        let cands = self.audio_candidates(codec);
        match quality {
            AudioQuality::Best => is_last_max(self.audio_keys(), cands, i),
            AudioQuality::Worst => is_first_min(self.audio_keys(), cands, i),
            _ => self.closest_rate_at(cands, preset_bitrate(quality), i),
        }
    }

    /// The rank of a video format.
    pub fn video_key_of(f: &Format) -> (k: Vec<i128>)
        ensures
            k@ == video_key(*f),
    {
        let mut k: Vec<i128> = Vec::new();
        k.push(order_key_or_zero(f.quality_info.quality));
        k.push(
            match f.video_resolution.height {
                Some(h) => h as i128,
                None => 0,
            },
        );
        k.push(order_key_or_zero(f.video_resolution.fps));
        k.push(order_key_or_zero(f.rates_info.video_rate));
        let manifest = f.is_manifest();
        k.push(if manifest { 0 } else { 1 });
        assert(k@ =~= video_key(*f));
        k
    }

    /// The rank of an audio format.
    pub fn audio_key_of(f: &Format) -> (k: Vec<i128>)
        ensures
            k@ == audio_key(*f),
    {
        let mut k: Vec<i128> = Vec::new();
        k.push(order_key_or_zero(f.quality_info.quality));
        k.push(order_key_or_zero(f.rates_info.audio_rate));
        k.push(
            match f.codec_info.asr {
                Some(v) => v as i128,
                None => 0,
            },
        );
        k.push(
            match f.codec_info.audio_channels {
                Some(v) => v as i128,
                None => 0,
            },
        );
        assert(k@ =~= audio_key(*f));
        k
    }

    /// Video ranks and video flags of all formats.
    fn video_table(&self) -> (r: (Vec<Vec<i128>>, Vec<bool>))
        ensures
            r.0.len() == self.formats.len(),
            r.1.len() == self.formats.len(),
            key_table(r.0@) == self.video_keys(),
            r.1@ == self.video_formats(),
            uniform(key_table(r.0@), 5),
    {
        let mut keys: Vec<Vec<i128>> = Vec::new();
        let mut sel: Vec<bool> = Vec::new();
        let mut i: usize = 0;
        while i < self.formats.len()
            invariant
                i <= self.formats.len(),
                keys.len() == i,
                sel.len() == i,
                forall|k: int| 0 <= k < i ==> #[trigger] keys@[k]@ == video_key(self.formats@[k]),
                forall|k: int| 0 <= k < i ==> #[trigger] sel@[k] == format_type_of(self.formats@[k]).has_video(),
            decreases self.formats.len() - i,
        {
            keys.push(Self::video_key_of(&self.formats[i]));
            sel.push(self.formats[i].is_video());
            i = i + 1;
        }
        assert(key_table(keys@) =~= self.video_keys());
        assert(sel@ =~= self.video_formats());
        (keys, sel)
    }

    /// Audio ranks and audio flags of all formats.
    fn audio_table(&self) -> (r: (Vec<Vec<i128>>, Vec<bool>))
        ensures
            r.0.len() == self.formats.len(),
            r.1.len() == self.formats.len(),
            key_table(r.0@) == self.audio_keys(),
            r.1@ == self.audio_formats(),
            uniform(key_table(r.0@), 4),
    {
        let mut keys: Vec<Vec<i128>> = Vec::new();
        let mut sel: Vec<bool> = Vec::new();
        let mut i: usize = 0;
        while i < self.formats.len()
            invariant
                i <= self.formats.len(),
                keys.len() == i,
                sel.len() == i,
                forall|k: int| 0 <= k < i ==> #[trigger] keys@[k]@ == audio_key(self.formats@[k]),
                forall|k: int| 0 <= k < i ==> #[trigger] sel@[k] == format_type_of(self.formats@[k]).has_audio(),
            decreases self.formats.len() - i,
        {
            keys.push(Self::audio_key_of(&self.formats[i]));
            sel.push(self.formats[i].is_audio());
            i = i + 1;
        }
        assert(key_table(keys@) =~= self.audio_keys());
        assert(sel@ =~= self.audio_formats());
        (keys, sel)
    }

    /// Flags of the formats of type `t`, by position.
    fn type_flags(&self, t: FormatType) -> (r: Vec<bool>)
        ensures
            r@ == self.formats@.map_values(|f: Format| format_type_of(f) == t),
    {
        let mut flags: Vec<bool> = Vec::new();
        let mut i: usize = 0;
        while i < self.formats.len()
            invariant
                i <= self.formats.len(),
                flags.len() == i,
                forall|k: int| 0 <= k < i ==> #[trigger] flags@[k] == (format_type_of(self.formats@[k]) == t),
            decreases self.formats.len() - i,
        {
            let ft = self.formats[i].format_type();
            flags.push(ft == t);
            i = i + 1;
        }
        assert(flags@ =~= self.formats@.map_values(|f: Format| format_type_of(f) == t));
        flags
    }

    /// Returns the best video-only format: the last of the highest video rank
    /// among the formats of type `FormatType::Video`, or `None` if there is
    /// none.
    pub fn best_video_format(&self) -> (r: Option<&Format>)
        ensures
            r is None <==> !any_selected(self.video_only_formats()),
            r matches Some(f) ==> exists|i: int| is_last_max(self.video_keys(), self.video_only_formats(), i) && *f == self.formats@[i],
    {
        let (keys, _) = self.video_table();
        let sel = self.type_flags(FormatType::Video);
        match argmax_last(&keys, &sel, Ghost(5)) {
            Some(i) => Some(&self.formats[i]),
            None => None,
        }
    }

    /// Returns the worst video-only format: the first of the lowest video rank
    /// among the formats of type `FormatType::Video`, or `None` if there is
    /// none.
    pub fn worst_video_format(&self) -> (r: Option<&Format>)
        ensures
            r is None <==> !any_selected(self.video_only_formats()),
            r matches Some(f) ==> exists|i: int| is_first_min(self.video_keys(), self.video_only_formats(), i) && *f == self.formats@[i],
    {
        let (keys, _) = self.video_table();
        let sel = self.type_flags(FormatType::Video);
        match argmin_first(&keys, &sel, Ghost(5)) {
            Some(i) => Some(&self.formats[i]),
            None => None,
        }
    }

    /// Returns the best audio-only format: the last of the highest audio rank
    /// among the formats of type `FormatType::Audio`, or `None` if there is
    /// none.
    pub fn best_audio_format(&self) -> (r: Option<&Format>)
        ensures
            r is None <==> !any_selected(self.audio_only_formats()),
            r matches Some(f) ==> exists|i: int| is_last_max(self.audio_keys(), self.audio_only_formats(), i) && *f == self.formats@[i],
    {
        let (keys, _) = self.audio_table();
        let sel = self.type_flags(FormatType::Audio);
        match argmax_last(&keys, &sel, Ghost(4)) {
            Some(i) => Some(&self.formats[i]),
            None => None,
        }
    }

    /// Returns the worst audio-only format: the first of the lowest audio rank
    /// among the formats of type `FormatType::Audio`, or `None` if there is
    /// none.
    pub fn worst_audio_format(&self) -> (r: Option<&Format>)
        ensures
            r is None <==> !any_selected(self.audio_only_formats()),
            r matches Some(f) ==> exists|i: int| is_first_min(self.audio_keys(), self.audio_only_formats(), i) && *f == self.formats@[i],
    {
        let (keys, _) = self.audio_table();
        let sel = self.type_flags(FormatType::Audio);
        match argmin_first(&keys, &sel, Ghost(4)) {
            Some(i) => Some(&self.formats[i]),
            None => None,
        }
    }

    /// Formats that carry both audio and video, by position.
    pub open spec fn audio_video_formats(self) -> Seq<bool> {
        self.formats@.map_values(|f: Format| format_type_of(f).has_audio_and_video())
    }

    /// Returns the best format that contains both audio and video: the last
    /// of the highest video rank among them. When there is none,
    /// [`Error::FormatNotAvailable`] names the video, the audio-video type and
    /// the IDs of all its formats.
    pub fn best_audio_video_format(&self) -> (r: Result<&Format, Error>)
        ensures
            r is Err <==> !any_selected(self.audio_video_formats()),
            match r {
                Ok(f) => exists|i: int| is_last_max(self.video_keys(), self.audio_video_formats(), i) && *f == self.formats@[i],
                Err(e) => {
                    &&& e matches Error::FormatNotAvailable { video_id, format_type, available_formats }
                    &&& video_id == self.id
                    &&& format_type == FormatType::AudioVideo
                    &&& available_formats@ == self.formats@.map_values(|f: Format| f.format_id)
                },
            },
    {
        let (keys, _) = self.video_table();
        let mut sel: Vec<bool> = Vec::new();
        let mut i: usize = 0;
        while i < self.formats.len()
            invariant
                i <= self.formats.len(),
                sel.len() == i,
                forall|k: int| 0 <= k < i ==> #[trigger] sel@[k] == format_type_of(self.formats@[k]).has_audio_and_video(),
            decreases self.formats.len() - i,
        {
            let t = self.formats[i].format_type();
            sel.push(t.is_audio_and_video());
            i = i + 1;
        }
        assert(sel@ =~= self.audio_video_formats());
        match argmax_last(&keys, &sel, Ghost(5)) {
            Some(j) => Ok(&self.formats[j]),
            None => {
                let mut ids: Vec<String> = Vec::new();
                let mut k: usize = 0;
                while k < self.formats.len()
                    invariant
                        k <= self.formats.len(),
                        ids@ == self.formats@.take(k as int).map_values(|f: Format| f.format_id),
                    decreases self.formats.len() - k,
                {
                    ids.push(self.formats[k].format_id.clone());
                    k = k + 1;
                    assert(ids@ =~= self.formats@.take(k as int).map_values(|f: Format| f.format_id));
                }
                assert(self.formats@.take(self.formats.len() as int) =~= self.formats@);
                Err(Error::FormatNotAvailable { video_id: self.id.clone(), format_type: FormatType::AudioVideo, available_formats: ids })
            },
        }
    }

    /// Flags of the video formats a codec preference chooses among.
    fn video_candidate_flags(&self, codec: &VideoCodecPreference) -> (r: Vec<bool>)
        ensures
            r@ == self.video_candidates(*codec),
    {
        let (_, videos) = self.video_table();
        let mut matching: Vec<bool> = Vec::new();
        let mut any = false;
        let mut i: usize = 0;
        while i < self.formats.len()
            invariant
                i <= self.formats.len(),
                matching.len() == i,
                forall|k: int| 0 <= k < i ==> #[trigger] matching@[k] == (format_type_of(self.formats@[k]).has_video() && video_codec_ok(self.formats@[k], *codec)),
                any == exists|k: int| 0 <= k < i && #[trigger] matching@[k],
            decreases self.formats.len() - i,
        {
            let f = &self.formats[i];
            let ok = match &f.codec_info.video_codec {
                Some(c) => matches_video_codec(c.as_str(), codec),
                None => false,
            };
            let m = f.is_video() && ok;
            let ghost before = matching@;
            matching.push(m);
            proof {
                if m {
                    assert(matching@[i as int]);
                }
                assert forall|k: int| 0 <= k < i implies matching@[k] == before[k] by {}
            }
            any = any || m;
            i = i + 1;
        }
        let ghost spec_matching = self.formats@.map_values(|f: Format| format_type_of(f).has_video() && video_codec_ok(f, *codec));
        assert(matching@ =~= spec_matching);
        let is_any = match codec {
            VideoCodecPreference::Any => true,
            _ => false,
        };
        if is_any || !any {
            videos
        } else {
            matching
        }
    }

    /// Flags of the audio formats a codec preference chooses among.
    fn audio_candidate_flags(&self, codec: &AudioCodecPreference) -> (r: Vec<bool>)
        ensures
            r@ == self.audio_candidates(*codec),
    {
        let (_, audios) = self.audio_table();
        let mut matching: Vec<bool> = Vec::new();
        let mut any = false;
        let mut i: usize = 0;
        while i < self.formats.len()
            invariant
                i <= self.formats.len(),
                matching.len() == i,
                forall|k: int| 0 <= k < i ==> #[trigger] matching@[k] == (format_type_of(self.formats@[k]).has_audio() && audio_codec_ok(self.formats@[k], *codec)),
                any == exists|k: int| 0 <= k < i && #[trigger] matching@[k],
            decreases self.formats.len() - i,
        {
            let f = &self.formats[i];
            let ok = match &f.codec_info.audio_codec {
                Some(c) => matches_audio_codec(c.as_str(), codec),
                None => false,
            };
            let m = f.is_audio() && ok;
            let ghost before = matching@;
            matching.push(m);
            proof {
                if m {
                    assert(matching@[i as int]);
                }
                assert forall|k: int| 0 <= k < i implies matching@[k] == before[k] by {}
            }
            any = any || m;
            i = i + 1;
        }
        let ghost spec_matching = self.formats@.map_values(|f: Format| format_type_of(f).has_audio() && audio_codec_ok(f, *codec));
        assert(matching@ =~= spec_matching);
        let is_any = match codec {
            AudioCodecPreference::Any => true,
            _ => false,
        };
        if is_any || !any {
            audios
        } else {
            matching
        }
    }

    /// Chooses among `cands` the format closest to a target height (or width).
    fn closest_dimension(&self, cands: &Vec<bool>, target: u32, by_width: bool) -> (r: Option<usize>)
        requires
            cands.len() == self.formats.len(),
        ensures
            r is None <==> !any_selected(cands@),
            r matches Some(i) ==> self.closest_dimension_at(cands@, target, by_width, i as int),
    {
        let mut gap_keys: Vec<Vec<i128>> = Vec::new();
        let mut size_keys: Vec<Vec<i128>> = Vec::new();
        let mut above: Vec<bool> = Vec::new();
        let mut i: usize = 0;
        while i < self.formats.len()
            invariant
                cands.len() == self.formats.len(),
                i <= self.formats.len(),
                gap_keys.len() == i,
                size_keys.len() == i,
                above.len() == i,
                forall|k: int| 0 <= k < i ==> #[trigger] gap_keys@[k]@ == gap_key(self.formats@[k], target, by_width),
                forall|k: int| 0 <= k < i ==> #[trigger] size_keys@[k]@ == size_key(self.formats@[k], by_width),
                forall|k: int| 0 <= k < i ==> #[trigger] above@[k] == (cands@[k] && reaches(self.formats@[k], target, by_width)),
            decreases self.formats.len() - i,
        {
            let f = &self.formats[i];
            let dim = if by_width {
                f.video_resolution.width
            } else {
                f.video_resolution.height
            };
            let d: u32 = match dim {
                Some(v) => v,
                None => 0,
            };
            let gap: u32 = if d >= target {
                d - target
            } else {
                0
            };
            let vk = Self::video_key_of(f);
            let mut gk: Vec<i128> = Vec::new();
            gk.push(gap as i128);
            let mut sk: Vec<i128> = Vec::new();
            sk.push(d as i128);
            let mut m: usize = 0;
            while m < vk.len()
                invariant
                    m <= vk.len(),
                    gk@ == seq![gap as i128] + vk@.take(m as int),
                    sk@ == seq![d as i128] + vk@.take(m as int),
                decreases vk.len() - m,
            {
                gk.push(vk[m]);
                sk.push(vk[m]);
                m = m + 1;
                assert(gk@ =~= seq![gap as i128] + vk@.take(m as int));
                assert(sk@ =~= seq![d as i128] + vk@.take(m as int));
            }
            assert(vk@.take(vk.len() as int) =~= vk@);
            assert(gk@ =~= gap_key(*f, target, by_width));
            assert(sk@ =~= size_key(*f, by_width));
            gap_keys.push(gk);
            size_keys.push(sk);
            let reached = match dim {
                Some(v) => v >= target,
                None => false,
            };
            above.push(cands[i] && reached);
            i = i + 1;
        }
        let ghost gaps = self.formats@.map_values(|f: Format| gap_key(f, target, by_width));
        let ghost sizes = self.formats@.map_values(|f: Format| size_key(f, by_width));
        let ghost spec_above = Seq::new(cands@.len(), |j: int| cands@[j] && reaches(self.formats@[j], target, by_width));
        assert(key_table(gap_keys@) =~= gaps);
        assert(key_table(size_keys@) =~= sizes);
        assert(above@ =~= spec_above);
        assert(uniform(key_table(gap_keys@), 6));
        assert(uniform(key_table(size_keys@), 6));
        match argmin_first(&gap_keys, &above, Ghost(6)) {
            Some(j) => Some(j),
            None => {
                let r = argmax_last(&size_keys, cands, Ghost(6));
                r
            },
        }
    }

    /// Chooses among `cands` the audio format closest to a target bitrate.
    fn closest_rate(&self, cands: &Vec<bool>, target: u32) -> (r: Option<usize>)
        requires
            cands.len() == self.formats.len(),
        ensures
            r is None <==> !any_selected(cands@),
            r matches Some(i) ==> self.closest_rate_at(cands@, target, i as int),
    {
        let target_key = order_key(f64_bits_of_u32(target));
        let mut keys: Vec<Vec<i128>> = Vec::new();
        let mut above: Vec<bool> = Vec::new();
        let mut i: usize = 0;
        while i < self.formats.len()
            invariant
                cands.len() == self.formats.len(),
                target_key == float_key(u32_f64_bits(target)),
                i <= self.formats.len(),
                keys.len() == i,
                above.len() == i,
                forall|k: int| 0 <= k < i ==> #[trigger] keys@[k]@ == rate_key(self.formats@[k]),
                forall|k: int| 0 <= k < i ==> #[trigger] above@[k] == (cands@[k] && reaches_rate(self.formats@[k], target)),
            decreases self.formats.len() - i,
        {
            let f = &self.formats[i];
            let ak = Self::audio_key_of(f);
            let mut k: Vec<i128> = Vec::new();
            k.push(order_key_or_zero(f.rates_info.audio_rate));
            let mut m: usize = 0;
            while m < ak.len()
                invariant
                    m <= ak.len(),
                    k@ == seq![float_key_or_zero(f.rates_info.audio_rate)] + ak@.take(m as int),
                decreases ak.len() - m,
            {
                k.push(ak[m]);
                m = m + 1;
                assert(k@ =~= seq![float_key_or_zero(f.rates_info.audio_rate)] + ak@.take(m as int));
            }
            assert(ak@.take(ak.len() as int) =~= ak@);
            assert(k@ =~= rate_key(*f));
            keys.push(k);
            let reached = match f.rates_info.audio_rate {
                Some(b) => order_key(b) >= target_key,
                None => false,
            };
            above.push(cands[i] && reached);
            i = i + 1;
        }
        let ghost rates = self.formats@.map_values(|f: Format| rate_key(f));
        let ghost spec_above = Seq::new(cands@.len(), |j: int| cands@[j] && reaches_rate(self.formats@[j], target));
        assert(key_table(keys@) =~= rates);
        assert(above@ =~= spec_above);
        assert(uniform(key_table(keys@), 5));
        match argmin_first(&keys, &above, Ghost(5)) {
            Some(j) => Some(j),
            None => argmax_last(&keys, cands, Ghost(5)),
        }
    }

    /// Selects a video format by quality and codec preference: among the
    /// video formats whose codec satisfies the preference (all video formats
    /// if none does), the best, the worst, or the closest to a target height
    /// (`High` 1080, `Medium` 720, `Low` 480, or a custom one) or width.
    /// `None` if the video has no video format.
    pub fn select_video_format(&self, quality: VideoQuality, codec: VideoCodecPreference) -> (r: Option<&Format>)
        ensures
            r is None <==> !any_selected(self.video_formats()),
            r matches Some(f) ==> exists|i: int| self.video_choice_at(quality, codec, i) && *f == self.formats@[i],
    {
        let (keys, videos) = self.video_table();
        let mut any_video = false;
        let mut i: usize = 0;
        while i < videos.len()
            invariant
                i <= videos.len(),
                any_video == exists|k: int| 0 <= k < i && #[trigger] videos@[k],
            decreases videos.len() - i,
        {
            any_video = any_video || videos[i];
            i = i + 1;
        }
        if !any_video {
            return None;
        }
        let cands = self.video_candidate_flags(&codec);
        proof {
            let matching = self.formats@.map_values(|f: Format| format_type_of(f).has_video() && video_codec_ok(f, codec));
            if !(codec is Any || !any_selected(matching)) {
                assert(cands@ == matching);
            }
            assert(any_selected(cands@));
        }
        let pick = match quality {
            VideoQuality::Best => argmax_last(&keys, &cands, Ghost(5)),
            VideoQuality::Worst => argmin_first(&keys, &cands, Ghost(5)),
            VideoQuality::High => self.closest_dimension(&cands, 1080, false),
            VideoQuality::Medium => self.closest_dimension(&cands, 720, false),
            VideoQuality::Low => self.closest_dimension(&cands, 480, false),
            VideoQuality::CustomHeight(h) => self.closest_dimension(&cands, h, false),
            VideoQuality::CustomWidth(w) => self.closest_dimension(&cands, w, true),
        };
        match pick {
            Some(j) => {
                assert(self.video_choice_at(quality, codec, j as int));
                Some(&self.formats[j])
            },
            None => None,
        }
    }

    /// Selects an audio format by quality and codec preference: among the
    /// audio formats whose codec satisfies the preference (all audio formats
    /// if none does), the best, the worst, or the closest to a target bitrate
    /// (`High` 192, `Medium` 128, `Low` 96 kbps, or a custom one).
    /// `None` if the video has no audio format.
    pub fn select_audio_format(&self, quality: AudioQuality, codec: AudioCodecPreference) -> (r: Option<&Format>)
        ensures
            r is None <==> !any_selected(self.audio_formats()),
            r matches Some(f) ==> exists|i: int| self.audio_choice_at(quality, codec, i) && *f == self.formats@[i],
    {
        let (keys, audios) = self.audio_table();
        let mut any_audio = false;
        let mut i: usize = 0;
        while i < audios.len()
            invariant
                i <= audios.len(),
                any_audio == exists|k: int| 0 <= k < i && #[trigger] audios@[k],
            decreases audios.len() - i,
        {
            any_audio = any_audio || audios[i];
            i = i + 1;
        }
        if !any_audio {
            return None;
        }
        let cands = self.audio_candidate_flags(&codec);
        proof {
            let matching = self.formats@.map_values(|f: Format| format_type_of(f).has_audio() && audio_codec_ok(f, codec));
            if !(codec is Any || !any_selected(matching)) {
                assert(cands@ == matching);
            }
            assert(any_selected(cands@));
        }
        let pick = match quality {
            AudioQuality::Best => argmax_last(&keys, &cands, Ghost(4)),
            AudioQuality::Worst => argmin_first(&keys, &cands, Ghost(4)),
            AudioQuality::High => self.closest_rate(&cands, 192),
            AudioQuality::Medium => self.closest_rate(&cands, 128),
            AudioQuality::Low => self.closest_rate(&cands, 96),
            AudioQuality::CustomBitrate(b) => self.closest_rate(&cands, b),
        };
        match pick {
            Some(j) => {
                assert(self.audio_choice_at(quality, codec, j as int));
                Some(&self.formats[j])
            },
            None => None,
        }
    }

    /// Descending storyboard ranks, by position.
    pub open spec fn storyboard_desc_keys(self) -> Seq<Seq<i128>> {
        self.formats@.map_values(|f: Format| storyboard_desc_key(f))
    }

    /// Returns all storyboard formats ordered from best to worst: most
    /// fragments first, then largest frame area, equal ones in their original
    /// order.
    pub fn storyboard_formats(&self) -> (r: Vec<&Format>)
        ensures
            exists|order: Seq<usize>|
                is_stable_order(self.storyboard_desc_keys(), self.storyboards(), order) && lists(self.formats@, order, r@),
    {
        let (asc, sel) = self.storyboard_table();
        let mut keys: Vec<Vec<i128>> = Vec::new();
        let mut i: usize = 0;
        while i < asc.len()
            invariant
                asc.len() == self.formats.len(),
                key_table(asc@) == self.storyboard_keys(),
                i <= asc.len(),
                keys.len() == i,
                forall|k: int| 0 <= k < i ==> #[trigger] keys@[k]@ == storyboard_desc_key(self.formats@[k]),
            decreases asc.len() - i,
        {
            let a = &asc[i];
            assert(key_table(asc@)[i as int] == asc@[i as int]@);
            assert(self.storyboard_keys()[i as int] == storyboard_key(self.formats@[i as int]));
            assert(a@ == storyboard_key(self.formats@[i as int]));
            assert(0 <= a@[0] < 0x1_0000_0000_0000_0000) by {
                assert(storyboard_key(self.formats@[i as int])[0] == crate::video::fragment_count(self.formats@[i as int]) as i128);
            }
            assert(0 <= a@[1] < 0x1_0000_0000_0000_0000i128) by {
                let f = self.formats@[i as int];
                assert(crate::video::frame_area(f) <= 0xffff_ffff * 0xffff_ffff) by (nonlinear_arith)
                    requires
                        0 <= or_zero(f.video_resolution.width) <= 0xffff_ffff,
                        0 <= or_zero(f.video_resolution.height) <= 0xffff_ffff,
                        crate::video::frame_area(f) == or_zero(f.video_resolution.width) * or_zero(f.video_resolution.height),
                ;
            }
            let mut k: Vec<i128> = Vec::new();
            k.push(-a[0]);
            k.push(-a[1]);
            assert(k@ =~= storyboard_desc_key(self.formats@[i as int]));
            keys.push(k);
            i = i + 1;
        }
        assert(key_table(keys@) =~= self.storyboard_desc_keys());
        let order = stable_order(&keys, &sel, Ghost(2));
        collect_refs(&self.formats, &order)
    }

    /// Selects a storyboard format by quality preference: the best or the
    /// worst storyboard, `None` if there is no storyboard.
    pub fn select_storyboard_format(&self, quality: StoryboardQuality) -> (r: Option<&Format>)
        ensures
            r is None <==> !any_selected(self.storyboards()),
            quality is Best ==> (r matches Some(f) ==> exists|i: int|
                is_last_max(self.storyboard_keys(), self.storyboards(), i) && *f == self.formats@[i]),
            quality is Worst ==> (r matches Some(f) ==> exists|i: int|
                is_first_min(self.storyboard_keys(), self.storyboards(), i) && *f == self.formats@[i]),
    {
        match quality {
            StoryboardQuality::Best => self.best_storyboard_format(),
            StoryboardQuality::Worst => self.worst_storyboard_format(),
        }
    }

    /// Selects a thumbnail by quality preference: the best, the worst, or the
    /// smallest one reaching a minimum resolution.
    pub fn select_thumbnail(&self, quality: ThumbnailQuality) -> (r: Option<&Thumbnail>)
        requires
            match quality {
                ThumbnailQuality::MinimumResolution(w, h) => self.fitting_areas_fit(w, h),
                _ => self.thumbnail_areas_fit(),
            },
        ensures
            match quality {
                ThumbnailQuality::Best => {
                    &&& r is None <==> self.thumbnails@.len() == 0
                    &&& r matches Some(t) ==> exists|i: int| self.best_thumbnail_at(i) && *t == self.thumbnails@[i]
                },
                ThumbnailQuality::Worst => {
                    &&& r is None <==> self.thumbnails@.len() == 0
                    &&& r matches Some(t) ==> exists|i: int| self.worst_thumbnail_at(i) && *t == self.thumbnails@[i]
                },
                ThumbnailQuality::MinimumResolution(w, h) => {
                    &&& r is None <==> !any_selected(self.fitting(w, h))
                    &&& r matches Some(t) ==> exists|i: int|
                        is_first_min(
                            self.thumbnails@.map_values(|t: Thumbnail| crate::video::thumbnail_size_key(t)),
                            self.fitting(w, h),
                            i,
                        ) && *t == self.thumbnails@[i]
                },
            },
    {
        match quality {
            ThumbnailQuality::Best => self.best_thumbnail(),
            ThumbnailQuality::Worst => self.worst_thumbnail(),
            ThumbnailQuality::MinimumResolution(w, h) => self.thumbnail_for_size(w, h),
        }
    }
}

} // verus!
