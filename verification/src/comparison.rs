//! Pairwise comparison of formats, as `std::cmp::Ordering` values.
use std::cmp::Ordering;
use vstd::prelude::*;

use crate::float_order::float_key_or_zero;
use crate::format::{format_type_of, Format, FormatType};
use crate::ranking::{is_first_min, is_last_max, lemma_lex_antisym, lemma_lex_trans, lex_compare, lex_sign};
use crate::selection::{audio_key, i64_or_zero, or_zero, video_key};
use crate::video::Video;

verus! {

/// The ordering that a comparison sign (`-1`, `0`, `1`) stands for.
pub open spec fn ordering_from_sign(s: int) -> Ordering {
    if s < 0 {
        Ordering::Less
    } else if s > 0 {
        Ordering::Greater
    } else {
        Ordering::Equal
    }
}

fn ordering_of(s: i8) -> (r: Ordering)
    ensures
        s < 0 ==> r == Ordering::Less,
        s > 0 ==> r == Ordering::Greater,
        s == 0 ==> r == Ordering::Equal,
{
    if s < 0 {
        Ordering::Less
    } else if s > 0 {
        Ordering::Greater
    } else {
        Ordering::Equal
    }
}

impl Video {
    /// Compares two video formats: quality, then height, then frame rate,
    /// then video bitrate, then non-manifest above manifest.
    pub fn compare_video_formats(&self, a: &Format, b: &Format) -> (r: Ordering)
        ensures
            r == ordering_from_sign(lex_sign(video_key(*a), video_key(*b))),
    {
        let ka = Video::video_key_of(a);
        let kb = Video::video_key_of(b);
        let s = lex_compare(&ka, &kb);
        ordering_of(s)
    }

    /// Compares two audio formats: quality, then audio bitrate, then sample
    /// rate, then channel count.
    pub fn compare_audio_formats(&self, a: &Format, b: &Format) -> (r: Ordering)
        ensures
            r == ordering_from_sign(lex_sign(audio_key(*a), audio_key(*b))),
    {
        let ka = Video::audio_key_of(a);
        let kb = Video::audio_key_of(b);
        let s = lex_compare(&ka, &kb);
        ordering_of(s)
    }
}

/// An ordering seen from the other side.
pub open spec fn reversed(o: Ordering) -> Ordering {
    match o {
        Ordering::Less => Ordering::Greater,
        Ordering::Greater => Ordering::Less,
        Ordering::Equal => Ordering::Equal,
    }
}

/// Swapping the two formats of a comparison reverses its ordering.
pub proof fn law_format_comparisons_are_antisymmetric(a: Format, b: Format)
    ensures
        ordering_from_sign(lex_sign(video_key(b), video_key(a))) == reversed(ordering_from_sign(lex_sign(video_key(a), video_key(b)))),
        ordering_from_sign(lex_sign(audio_key(b), audio_key(a))) == reversed(ordering_from_sign(lex_sign(audio_key(a), audio_key(b)))),
{
    lemma_lex_antisym(video_key(a), video_key(b));
    lemma_lex_antisym(audio_key(a), audio_key(b));
}

/// Format comparisons are transitive: a format not above a second one,
/// itself not above a third, is not above the third.
pub proof fn law_format_comparisons_are_transitive(a: Format, b: Format, c: Format)
    ensures
        ordering_from_sign(lex_sign(video_key(a), video_key(b))) != Ordering::Greater && ordering_from_sign(lex_sign(video_key(b), video_key(c))) != Ordering::Greater
            ==> ordering_from_sign(lex_sign(video_key(a), video_key(c))) != Ordering::Greater,
        ordering_from_sign(lex_sign(audio_key(a), audio_key(b))) != Ordering::Greater && ordering_from_sign(lex_sign(audio_key(b), audio_key(c))) != Ordering::Greater
            ==> ordering_from_sign(lex_sign(audio_key(a), audio_key(c))) != Ordering::Greater,
{
    lemma_lex_trans(video_key(a), video_key(b), video_key(c));
    lemma_lex_trans(audio_key(a), audio_key(b), audio_key(c));
}

/// No video-only format compares above the best video format nor below the
/// worst one, and likewise for audio-only formats: the picks agree with the
/// comparisons.
pub proof fn law_picks_agree_with_comparisons(v: Video, pick: int, j: int)
    requires
        0 <= j < v.formats@.len(),
    ensures
        is_last_max(v.video_keys(), v.video_only_formats(), pick) && v.video_only_formats()[j] ==> ordering_from_sign(
            lex_sign(video_key(v.formats@[j]), video_key(v.formats@[pick])),
        ) != Ordering::Greater,
        is_first_min(v.video_keys(), v.video_only_formats(), pick) && v.video_only_formats()[j] ==> ordering_from_sign(
            lex_sign(video_key(v.formats@[j]), video_key(v.formats@[pick])),
        ) != Ordering::Less,
        is_last_max(v.audio_keys(), v.audio_only_formats(), pick) && v.audio_only_formats()[j] ==> ordering_from_sign(
            lex_sign(audio_key(v.formats@[j]), audio_key(v.formats@[pick])),
        ) != Ordering::Greater,
        is_first_min(v.audio_keys(), v.audio_only_formats(), pick) && v.audio_only_formats()[j] ==> ordering_from_sign(
            lex_sign(audio_key(v.formats@[j]), audio_key(v.formats@[pick])),
        ) != Ordering::Less,
{
}

/// Two formats equal in quality, height and frame rate, and both manifests
/// or both not, compare by video bitrate: the one with the higher video
/// bitrate compares `Greater`.
pub proof fn law_video_bitrate_breaks_ties(a: Format, b: Format)
    requires
        a.quality_info.quality == b.quality_info.quality,
        a.video_resolution.height == b.video_resolution.height,
        a.video_resolution.fps == b.video_resolution.fps,
        (format_type_of(a) matches FormatType::Manifest { .. }) == (format_type_of(b) matches FormatType::Manifest { .. }),
        float_key_or_zero(a.rates_info.video_rate) > float_key_or_zero(b.rates_info.video_rate),
    ensures
        ordering_from_sign(lex_sign(video_key(a), video_key(b))) == Ordering::Greater,
        ordering_from_sign(lex_sign(video_key(b), video_key(a))) == Ordering::Less,
{
    reveal_with_fuel(lex_sign, 5);
    let ka = video_key(a);
    let kb = video_key(b);
    assert(ka[0] == kb[0] && ka[1] == kb[1] && ka[2] == kb[2] && ka[3] > kb[3]);
    assert(ka.drop_first()[0] == ka[1] && kb.drop_first()[0] == kb[1]);
    assert(ka.drop_first().drop_first()[0] == ka[2] && kb.drop_first().drop_first()[0] == kb[2]);
    assert(ka.drop_first().drop_first().drop_first()[0] == ka[3]);
    assert(kb.drop_first().drop_first().drop_first()[0] == kb[3]);
}

/// Of two video-only formats equal in quality, height and frame rate, the
/// one with the lower video bitrate is never the best video format.
pub proof fn law_higher_video_bitrate_wins(v: Video, i: int, j: int)
    requires
        0 <= i < v.formats@.len(),
        0 <= j < v.formats@.len(),
        v.video_only_formats()[i],
        v.video_only_formats()[j],
        v.formats@[i].quality_info.quality == v.formats@[j].quality_info.quality,
        v.formats@[i].video_resolution.height == v.formats@[j].video_resolution.height,
        v.formats@[i].video_resolution.fps == v.formats@[j].video_resolution.fps,
        float_key_or_zero(v.formats@[j].rates_info.video_rate) > float_key_or_zero(v.formats@[i].rates_info.video_rate),
    ensures
        !is_last_max(v.video_keys(), v.video_only_formats(), i),
{
    law_video_bitrate_breaks_ties(v.formats@[j], v.formats@[i]);
    assert(v.video_keys()[j] == video_key(v.formats@[j]));
    assert(v.video_keys()[i] == video_key(v.formats@[i]));
}

/// Comparing video formats ranks them by quality, then height, then frame
/// rate, then video bitrate (absent values counting as zero), then a
/// non-manifest format above a manifest; formats equal in all of these
/// compare `Equal`.
pub proof fn law_video_comparison_criteria(a: Format, b: Format)
    ensures
        ({
            let qa = float_key_or_zero(a.quality_info.quality);
            let qb = float_key_or_zero(b.quality_info.quality);
            let ha = or_zero(a.video_resolution.height);
            let hb = or_zero(b.video_resolution.height);
            let fa = float_key_or_zero(a.video_resolution.fps);
            let fb = float_key_or_zero(b.video_resolution.fps);
            let ra = float_key_or_zero(a.rates_info.video_rate);
            let rb = float_key_or_zero(b.rates_info.video_rate);
            let ma = format_type_of(a) matches FormatType::Manifest { .. };
            let mb = format_type_of(b) matches FormatType::Manifest { .. };
            let o = ordering_from_sign(lex_sign(video_key(a), video_key(b)));
            &&& qa > qb ==> o == Ordering::Greater
            &&& qa < qb ==> o == Ordering::Less
            &&& qa == qb && ha > hb ==> o == Ordering::Greater
            &&& qa == qb && ha < hb ==> o == Ordering::Less
            &&& qa == qb && ha == hb && fa > fb ==> o == Ordering::Greater
            &&& qa == qb && ha == hb && fa < fb ==> o == Ordering::Less
            &&& qa == qb && ha == hb && fa == fb && ra > rb ==> o == Ordering::Greater
            &&& qa == qb && ha == hb && fa == fb && ra < rb ==> o == Ordering::Less
            &&& qa == qb && ha == hb && fa == fb && ra == rb && !ma && mb ==> o == Ordering::Greater
            &&& qa == qb && ha == hb && fa == fb && ra == rb && ma && !mb ==> o == Ordering::Less
            &&& qa == qb && ha == hb && fa == fb && ra == rb && ma == mb ==> o == Ordering::Equal
        }),
{
    reveal_with_fuel(lex_sign, 6);
    let ka = video_key(a);
    let kb = video_key(b);
    let a1 = ka.drop_first();
    let b1 = kb.drop_first();
    let a2 = a1.drop_first();
    let b2 = b1.drop_first();
    let a3 = a2.drop_first();
    let b3 = b2.drop_first();
    let a4 = a3.drop_first();
    let b4 = b3.drop_first();
    assert(a1[0] == ka[1] && b1[0] == kb[1] && a2[0] == ka[2] && b2[0] == kb[2]);
    assert(a3[0] == ka[3] && b3[0] == kb[3] && a4[0] == ka[4] && b4[0] == kb[4]);
    assert(a4.drop_first().len() == 0 && b4.drop_first().len() == 0);
}

/// Comparing audio formats ranks them by quality, then audio bitrate, then
/// sample rate, then channel count (absent values counting as zero);
/// formats equal in all of these compare `Equal`.
pub proof fn law_audio_comparison_criteria(a: Format, b: Format)
    ensures
        ({
            let qa = float_key_or_zero(a.quality_info.quality);
            let qb = float_key_or_zero(b.quality_info.quality);
            let ra = float_key_or_zero(a.rates_info.audio_rate);
            let rb = float_key_or_zero(b.rates_info.audio_rate);
            let sa = i64_or_zero(a.codec_info.asr);
            let sb = i64_or_zero(b.codec_info.asr);
            let ca = i64_or_zero(a.codec_info.audio_channels);
            let cb = i64_or_zero(b.codec_info.audio_channels);
            let o = ordering_from_sign(lex_sign(audio_key(a), audio_key(b)));
            &&& qa > qb ==> o == Ordering::Greater
            &&& qa < qb ==> o == Ordering::Less
            &&& qa == qb && ra > rb ==> o == Ordering::Greater
            &&& qa == qb && ra < rb ==> o == Ordering::Less
            &&& qa == qb && ra == rb && sa > sb ==> o == Ordering::Greater
            &&& qa == qb && ra == rb && sa < sb ==> o == Ordering::Less
            &&& qa == qb && ra == rb && sa == sb && ca > cb ==> o == Ordering::Greater
            &&& qa == qb && ra == rb && sa == sb && ca < cb ==> o == Ordering::Less
            &&& qa == qb && ra == rb && sa == sb && ca == cb ==> o == Ordering::Equal
        }),
{
    reveal_with_fuel(lex_sign, 5);
    let ka = audio_key(a);
    let kb = audio_key(b);
    let a1 = ka.drop_first();
    let b1 = kb.drop_first();
    let a2 = a1.drop_first();
    let b2 = b1.drop_first();
    let a3 = a2.drop_first();
    let b3 = b2.drop_first();
    assert(a1[0] == ka[1] && b1[0] == kb[1] && a2[0] == ka[2] && b2[0] == kb[2]);
    assert(a3[0] == ka[3] && b3[0] == kb[3]);
    assert(a3.drop_first().len() == 0 && b3.drop_first().len() == 0);
}

} // verus!
