//! Properties that hold across the library's operations.
use vstd::arithmetic::div_mod::lemma_add_mod_noop;
use vstd::prelude::*;

use crate::events::{event_download_id, event_is_terminal, DownloadEvent};
use crate::format::{extension_display, extension_named, extension_str, Extension, Format, FormatType};
use crate::live::{ffmpeg_arg_list, ytdlp_arg_list, SegmentTracker, PROGRESS_THROTTLE_NANOS};
use crate::ranking::{
    any_selected, is_first_min, is_last_max, is_stable_order, lemma_lex_antisym, lemma_lex_refl, lex_sign, precedes, sign_at,
};
use crate::float_order::{float_key, float_key_or_zero, u32_f64_bits};
use crate::selection::{dimension, gap_key, preset_bitrate, preset_height, rate_key, reaches, reaches_rate, size_key};
use crate::selector::{codec_name_matches, AudioCodecPreference, AudioQuality, VideoCodecPreference, VideoQuality};
use crate::text::{ascii_lower_seq, decimal};
use crate::utils::expired_at;
use crate::thumbnail::Thumbnail;
use crate::video::{fits_size, thumbnail_area_key, thumbnail_preference_key, total_rate_key, FORMAT_URL_LIFETIME, thumbnail_size_key, earliest_available_at, expiring, fragment_count, frame_area, storyboard_key, Video};
use crate::selection::{or_zero, storyboard_desc_key};

verus! {

/// What the names of the first extensions read as.
proof fn lemma_first_names()
    ensures
        extension_named("m4a"@) == Extension::M4A,
        extension_named("mp3"@) == Extension::Mp3,
        extension_named("mp4"@) == Extension::Mp4,
        extension_named("webm"@) == Extension::Webm,
        extension_named("flac"@) == Extension::Flac,
        extension_named("ogg"@) == Extension::Ogg,
{
    reveal_strlit("m4a");
    reveal_strlit("mp3");
    reveal_strlit("mp4");
    reveal_strlit("webm");
    reveal_strlit("flac");
    reveal_strlit("ogg");
    reveal_strlit("wav");
    reveal_strlit("aac");
    reveal_strlit("aiff");
    reveal_strlit("avi");
    reveal_strlit("ts");
    reveal_strlit("flv");
    reveal_strlit("mhtml");
    reveal_strlit("oga");
    reveal_strlit("opus");
    reveal_strlit("aif");
    reveal_strlit("m2ts");
    reveal_strlit("mts");
    reveal_strlit("");
    reveal_strlit("none");
    assert("m4a"@.len() == 3 && "m4a"@[0] == 'm' && "m4a"@[1] == '4' && "m4a"@[2] == 'a');
    assert("mp3"@.len() == 3 && "mp3"@[0] == 'm' && "mp3"@[1] == 'p' && "mp3"@[2] == '3');
    assert("mp4"@.len() == 3 && "mp4"@[0] == 'm' && "mp4"@[1] == 'p' && "mp4"@[2] == '4');
    assert("webm"@.len() == 4 && "webm"@[0] == 'w' && "webm"@[1] == 'e' && "webm"@[2] == 'b' && "webm"@[3] == 'm');
    assert("flac"@.len() == 4 && "flac"@[0] == 'f' && "flac"@[1] == 'l' && "flac"@[2] == 'a' && "flac"@[3] == 'c');
    assert("ogg"@.len() == 3 && "ogg"@[0] == 'o' && "ogg"@[1] == 'g' && "ogg"@[2] == 'g');
    assert("wav"@.len() == 3 && "wav"@[0] == 'w' && "wav"@[1] == 'a' && "wav"@[2] == 'v');
    assert("aac"@.len() == 3 && "aac"@[0] == 'a' && "aac"@[1] == 'a' && "aac"@[2] == 'c');
    assert("aiff"@.len() == 4 && "aiff"@[0] == 'a' && "aiff"@[1] == 'i' && "aiff"@[2] == 'f' && "aiff"@[3] == 'f');
    assert("avi"@.len() == 3 && "avi"@[0] == 'a' && "avi"@[1] == 'v' && "avi"@[2] == 'i');
    assert("ts"@.len() == 2 && "ts"@[0] == 't' && "ts"@[1] == 's');
    assert("flv"@.len() == 3 && "flv"@[0] == 'f' && "flv"@[1] == 'l' && "flv"@[2] == 'v');
    assert("mhtml"@.len() == 5 && "mhtml"@[0] == 'm' && "mhtml"@[1] == 'h' && "mhtml"@[2] == 't' && "mhtml"@[3] == 'm' && "mhtml"@[4] == 'l');
    assert("oga"@.len() == 3 && "oga"@[0] == 'o' && "oga"@[1] == 'g' && "oga"@[2] == 'a');
    assert("opus"@.len() == 4 && "opus"@[0] == 'o' && "opus"@[1] == 'p' && "opus"@[2] == 'u' && "opus"@[3] == 's');
    assert("aif"@.len() == 3 && "aif"@[0] == 'a' && "aif"@[1] == 'i' && "aif"@[2] == 'f');
    assert("m2ts"@.len() == 4 && "m2ts"@[0] == 'm' && "m2ts"@[1] == '2' && "m2ts"@[2] == 't' && "m2ts"@[3] == 's');
    assert("mts"@.len() == 3 && "mts"@[0] == 'm' && "mts"@[1] == 't' && "mts"@[2] == 's');
    assert(""@.len() == 0);
    assert("none"@.len() == 4 && "none"@[0] == 'n' && "none"@[1] == 'o' && "none"@[2] == 'n' && "none"@[3] == 'e');
}

/// What the names of the remaining extensions read as.
proof fn lemma_other_names()
    ensures
        extension_named("wav"@) == Extension::Wav,
        extension_named("aac"@) == Extension::Aac,
        extension_named("aiff"@) == Extension::Aiff,
        extension_named("avi"@) == Extension::Avi,
        extension_named("ts"@) == Extension::Ts,
        extension_named("flv"@) == Extension::Flv,
        extension_named("mhtml"@) == Extension::Mhtml,
        extension_named("none"@) == Extension::Empty,
{
    reveal_strlit("m4a");
    reveal_strlit("mp3");
    reveal_strlit("mp4");
    reveal_strlit("webm");
    reveal_strlit("flac");
    reveal_strlit("ogg");
    reveal_strlit("wav");
    reveal_strlit("aac");
    reveal_strlit("aiff");
    reveal_strlit("avi");
    reveal_strlit("ts");
    reveal_strlit("flv");
    reveal_strlit("mhtml");
    reveal_strlit("oga");
    reveal_strlit("opus");
    reveal_strlit("aif");
    reveal_strlit("m2ts");
    reveal_strlit("mts");
    reveal_strlit("");
    reveal_strlit("none");
    assert("m4a"@.len() == 3 && "m4a"@[0] == 'm' && "m4a"@[1] == '4' && "m4a"@[2] == 'a');
    assert("mp3"@.len() == 3 && "mp3"@[0] == 'm' && "mp3"@[1] == 'p' && "mp3"@[2] == '3');
    assert("mp4"@.len() == 3 && "mp4"@[0] == 'm' && "mp4"@[1] == 'p' && "mp4"@[2] == '4');
    assert("webm"@.len() == 4 && "webm"@[0] == 'w' && "webm"@[1] == 'e' && "webm"@[2] == 'b' && "webm"@[3] == 'm');
    assert("flac"@.len() == 4 && "flac"@[0] == 'f' && "flac"@[1] == 'l' && "flac"@[2] == 'a' && "flac"@[3] == 'c');
    assert("ogg"@.len() == 3 && "ogg"@[0] == 'o' && "ogg"@[1] == 'g' && "ogg"@[2] == 'g');
    assert("wav"@.len() == 3 && "wav"@[0] == 'w' && "wav"@[1] == 'a' && "wav"@[2] == 'v');
    assert("aac"@.len() == 3 && "aac"@[0] == 'a' && "aac"@[1] == 'a' && "aac"@[2] == 'c');
    assert("aiff"@.len() == 4 && "aiff"@[0] == 'a' && "aiff"@[1] == 'i' && "aiff"@[2] == 'f' && "aiff"@[3] == 'f');
    assert("avi"@.len() == 3 && "avi"@[0] == 'a' && "avi"@[1] == 'v' && "avi"@[2] == 'i');
    assert("ts"@.len() == 2 && "ts"@[0] == 't' && "ts"@[1] == 's');
    assert("flv"@.len() == 3 && "flv"@[0] == 'f' && "flv"@[1] == 'l' && "flv"@[2] == 'v');
    assert("mhtml"@.len() == 5 && "mhtml"@[0] == 'm' && "mhtml"@[1] == 'h' && "mhtml"@[2] == 't' && "mhtml"@[3] == 'm' && "mhtml"@[4] == 'l');
    assert("oga"@.len() == 3 && "oga"@[0] == 'o' && "oga"@[1] == 'g' && "oga"@[2] == 'a');
    assert("opus"@.len() == 4 && "opus"@[0] == 'o' && "opus"@[1] == 'p' && "opus"@[2] == 'u' && "opus"@[3] == 's');
    assert("aif"@.len() == 3 && "aif"@[0] == 'a' && "aif"@[1] == 'i' && "aif"@[2] == 'f');
    assert("m2ts"@.len() == 4 && "m2ts"@[0] == 'm' && "m2ts"@[1] == '2' && "m2ts"@[2] == 't' && "m2ts"@[3] == 's');
    assert("mts"@.len() == 3 && "mts"@[0] == 'm' && "mts"@[1] == 't' && "mts"@[2] == 's');
    assert(""@.len() == 0);
    assert("none"@.len() == 4 && "none"@[0] == 'n' && "none"@[1] == 'o' && "none"@[2] == 'n' && "none"@[3] == 'e');
}

/// Names outside the list read as `Unknown`.
proof fn lemma_unknown_names()
    ensures
        extension_named("unknown"@) == Extension::Unknown,
        extension_named("bin"@) == Extension::Unknown,
{
    reveal_strlit("m4a");
    reveal_strlit("mp3");
    reveal_strlit("mp4");
    reveal_strlit("webm");
    reveal_strlit("flac");
    reveal_strlit("ogg");
    reveal_strlit("wav");
    reveal_strlit("aac");
    reveal_strlit("aiff");
    reveal_strlit("avi");
    reveal_strlit("ts");
    reveal_strlit("flv");
    reveal_strlit("mhtml");
    reveal_strlit("oga");
    reveal_strlit("opus");
    reveal_strlit("aif");
    reveal_strlit("m2ts");
    reveal_strlit("mts");
    reveal_strlit("");
    reveal_strlit("none");
    reveal_strlit("unknown");
    reveal_strlit("bin");
    assert("m4a"@.len() == 3 && "m4a"@[0] == 'm' && "m4a"@[1] == '4' && "m4a"@[2] == 'a');
    assert("mp3"@.len() == 3 && "mp3"@[0] == 'm' && "mp3"@[1] == 'p' && "mp3"@[2] == '3');
    assert("mp4"@.len() == 3 && "mp4"@[0] == 'm' && "mp4"@[1] == 'p' && "mp4"@[2] == '4');
    assert("webm"@.len() == 4 && "webm"@[0] == 'w' && "webm"@[1] == 'e' && "webm"@[2] == 'b' && "webm"@[3] == 'm');
    assert("flac"@.len() == 4 && "flac"@[0] == 'f' && "flac"@[1] == 'l' && "flac"@[2] == 'a' && "flac"@[3] == 'c');
    assert("ogg"@.len() == 3 && "ogg"@[0] == 'o' && "ogg"@[1] == 'g' && "ogg"@[2] == 'g');
    assert("wav"@.len() == 3 && "wav"@[0] == 'w' && "wav"@[1] == 'a' && "wav"@[2] == 'v');
    assert("aac"@.len() == 3 && "aac"@[0] == 'a' && "aac"@[1] == 'a' && "aac"@[2] == 'c');
    assert("aiff"@.len() == 4 && "aiff"@[0] == 'a' && "aiff"@[1] == 'i' && "aiff"@[2] == 'f' && "aiff"@[3] == 'f');
    assert("avi"@.len() == 3 && "avi"@[0] == 'a' && "avi"@[1] == 'v' && "avi"@[2] == 'i');
    assert("ts"@.len() == 2 && "ts"@[0] == 't' && "ts"@[1] == 's');
    assert("flv"@.len() == 3 && "flv"@[0] == 'f' && "flv"@[1] == 'l' && "flv"@[2] == 'v');
    assert("mhtml"@.len() == 5 && "mhtml"@[0] == 'm' && "mhtml"@[1] == 'h' && "mhtml"@[2] == 't' && "mhtml"@[3] == 'm' && "mhtml"@[4] == 'l');
    assert("oga"@.len() == 3 && "oga"@[0] == 'o' && "oga"@[1] == 'g' && "oga"@[2] == 'a');
    assert("opus"@.len() == 4 && "opus"@[0] == 'o' && "opus"@[1] == 'p' && "opus"@[2] == 'u' && "opus"@[3] == 's');
    assert("aif"@.len() == 3 && "aif"@[0] == 'a' && "aif"@[1] == 'i' && "aif"@[2] == 'f');
    assert("m2ts"@.len() == 4 && "m2ts"@[0] == 'm' && "m2ts"@[1] == '2' && "m2ts"@[2] == 't' && "m2ts"@[3] == 's');
    assert("mts"@.len() == 3 && "mts"@[0] == 'm' && "mts"@[1] == 't' && "mts"@[2] == 's');
    assert(""@.len() == 0);
    assert("none"@.len() == 4 && "none"@[0] == 'n' && "none"@[1] == 'o' && "none"@[2] == 'n' && "none"@[3] == 'e');
    assert("unknown"@.len() == 7 && "unknown"@[0] == 'u' && "unknown"@[1] == 'n' && "unknown"@[2] == 'k' && "unknown"@[3] == 'n' && "unknown"@[4] == 'o' && "unknown"@[5] == 'w' && "unknown"@[6] == 'n');
    assert("bin"@.len() == 3 && "bin"@[0] == 'b' && "bin"@[1] == 'i' && "bin"@[2] == 'n');
}

/// How the extension names lower-case.
proof fn lemma_lowered_names()
    ensures
        ascii_lower_seq("M4A"@) == "m4a"@,
        ascii_lower_seq("Mp3"@) == "mp3"@,
        ascii_lower_seq("Mp4"@) == "mp4"@,
        ascii_lower_seq("Webm"@) == "webm"@,
        ascii_lower_seq("Flac"@) == "flac"@,
        ascii_lower_seq("Ogg"@) == "ogg"@,
        ascii_lower_seq("Wav"@) == "wav"@,
        ascii_lower_seq("Aac"@) == "aac"@,
        ascii_lower_seq("Aiff"@) == "aiff"@,
        ascii_lower_seq("Avi"@) == "avi"@,
        ascii_lower_seq("Ts"@) == "ts"@,
        ascii_lower_seq("Flv"@) == "flv"@,
        ascii_lower_seq("Mhtml"@) == "mhtml"@,
        ascii_lower_seq("m4a"@) == "m4a"@,
        ascii_lower_seq("mp3"@) == "mp3"@,
        ascii_lower_seq("mp4"@) == "mp4"@,
        ascii_lower_seq("webm"@) == "webm"@,
        ascii_lower_seq("flac"@) == "flac"@,
        ascii_lower_seq("ogg"@) == "ogg"@,
        ascii_lower_seq("wav"@) == "wav"@,
        ascii_lower_seq("aac"@) == "aac"@,
        ascii_lower_seq("aiff"@) == "aiff"@,
        ascii_lower_seq("avi"@) == "avi"@,
        ascii_lower_seq("ts"@) == "ts"@,
        ascii_lower_seq("flv"@) == "flv"@,
        ascii_lower_seq("mhtml"@) == "mhtml"@,
        ascii_lower_seq("None"@) == "none"@,
        ascii_lower_seq("Unknown"@) == "unknown"@,
        ascii_lower_seq("bin"@) == "bin"@,
{
    reveal_strlit("M4A");
    reveal_strlit("Mp3");
    reveal_strlit("Mp4");
    reveal_strlit("Webm");
    reveal_strlit("Flac");
    reveal_strlit("Ogg");
    reveal_strlit("Wav");
    reveal_strlit("Aac");
    reveal_strlit("Aiff");
    reveal_strlit("Avi");
    reveal_strlit("Ts");
    reveal_strlit("Flv");
    reveal_strlit("Mhtml");
    reveal_strlit("None");
    reveal_strlit("Unknown");
    reveal_strlit("unknown");
    reveal_strlit("bin");
    reveal_strlit("m4a");
    reveal_strlit("mp3");
    reveal_strlit("mp4");
    reveal_strlit("webm");
    reveal_strlit("flac");
    reveal_strlit("ogg");
    reveal_strlit("wav");
    reveal_strlit("aac");
    reveal_strlit("aiff");
    reveal_strlit("avi");
    reveal_strlit("ts");
    reveal_strlit("flv");
    reveal_strlit("mhtml");
    reveal_strlit("none");
    assert(ascii_lower_seq("M4A"@) =~= "m4a"@);
    assert(ascii_lower_seq("m4a"@) =~= "m4a"@);
    assert(ascii_lower_seq("Mp3"@) =~= "mp3"@);
    assert(ascii_lower_seq("mp3"@) =~= "mp3"@);
    assert(ascii_lower_seq("Mp4"@) =~= "mp4"@);
    assert(ascii_lower_seq("mp4"@) =~= "mp4"@);
    assert(ascii_lower_seq("Webm"@) =~= "webm"@);
    assert(ascii_lower_seq("webm"@) =~= "webm"@);
    assert(ascii_lower_seq("Flac"@) =~= "flac"@);
    assert(ascii_lower_seq("flac"@) =~= "flac"@);
    assert(ascii_lower_seq("Ogg"@) =~= "ogg"@);
    assert(ascii_lower_seq("ogg"@) =~= "ogg"@);
    assert(ascii_lower_seq("Wav"@) =~= "wav"@);
    assert(ascii_lower_seq("wav"@) =~= "wav"@);
    assert(ascii_lower_seq("Aac"@) =~= "aac"@);
    assert(ascii_lower_seq("aac"@) =~= "aac"@);
    assert(ascii_lower_seq("Aiff"@) =~= "aiff"@);
    assert(ascii_lower_seq("aiff"@) =~= "aiff"@);
    assert(ascii_lower_seq("Avi"@) =~= "avi"@);
    assert(ascii_lower_seq("avi"@) =~= "avi"@);
    assert(ascii_lower_seq("Ts"@) =~= "ts"@);
    assert(ascii_lower_seq("ts"@) =~= "ts"@);
    assert(ascii_lower_seq("Flv"@) =~= "flv"@);
    assert(ascii_lower_seq("flv"@) =~= "flv"@);
    assert(ascii_lower_seq("Mhtml"@) =~= "mhtml"@);
    assert(ascii_lower_seq("mhtml"@) =~= "mhtml"@);
    assert(ascii_lower_seq("None"@) =~= "none"@);
    assert(ascii_lower_seq("Unknown"@) =~= "unknown"@);
    assert(ascii_lower_seq("bin"@) =~= "bin"@);
}

/// Reading back the file extension of an extension gives that extension,
/// except for `Empty` and `Unknown`, whose file extension `"bin"` names no
/// extension.
pub proof fn law_extension_str_parses_back(e: Extension)
    requires
        e != Extension::Empty,
        e != Extension::Unknown,
    ensures
        extension_named(ascii_lower_seq(extension_str(e))) == e,
{
    lemma_first_names();
    lemma_other_names();
    lemma_lowered_names();
}

/// Parsing the displayed name of an extension gives that extension back.
pub proof fn law_extension_display_parses_back(e: Extension)
    ensures
        extension_named(ascii_lower_seq(extension_display(e))) == e,
{
    lemma_first_names();
    lemma_other_names();
    lemma_unknown_names();
    lemma_lowered_names();
}

/// Parsing an extension name ignores ASCII case: a name and its lower-cased
/// form parse alike.
pub proof fn law_extension_parse_ignores_case(name: Seq<char>)
    ensures
        extension_named(ascii_lower_seq(ascii_lower_seq(name))) == extension_named(ascii_lower_seq(name)),
{
    assert forall|i: int| 0 <= i < name.len() implies #[trigger] ascii_lower_seq(ascii_lower_seq(name))[i] == ascii_lower_seq(name)[i] by {
        let c = name[i];
        if 'A' <= c && c <= 'Z' {
            assert(('a' as u32) <= (c as u32) + 32 <= ('z' as u32));
        }
    }
    assert(ascii_lower_seq(ascii_lower_seq(name)) =~= ascii_lower_seq(name));
}

/// A format type carries audio and video together exactly when it carries
/// each of them; a storyboard or an unknown type carries neither.
pub proof fn law_format_type_components(t: FormatType)
    ensures
        t.has_audio_and_video() <==> t.has_audio() && t.has_video(),
        (t is Storyboard || t is Unknown) ==> !t.has_audio() && !t.has_video(),
{
}

/// At most one position is the last maximum of a selection: the best pick is
/// determined by the keys and the selection alone.
pub proof fn law_last_max_unique(keys: Seq<Seq<i128>>, sel: Seq<bool>, i: int, j: int)
    requires
        is_last_max(keys, sel, i),
        is_last_max(keys, sel, j),
    ensures
        i == j,
{
    lemma_lex_antisym(keys[i], keys[j]);
    assert(sel[i] && sel[j]);
}

/// At most one position is the first minimum of a selection: the worst pick
/// is determined by the keys and the selection alone.
pub proof fn law_first_min_unique(keys: Seq<Seq<i128>>, sel: Seq<bool>, i: int, j: int)
    requires
        is_first_min(keys, sel, i),
        is_first_min(keys, sel, j),
    ensures
        i == j,
{
    lemma_lex_antisym(keys[i], keys[j]);
    assert(sel[i] && sel[j]);
}

/// The best pick of a selection ranks at least as high as its worst pick.
pub proof fn law_best_not_below_worst(keys: Seq<Seq<i128>>, sel: Seq<bool>, best: int, worst: int)
    requires
        is_last_max(keys, sel, best),
        is_first_min(keys, sel, worst),
    ensures
        sign_at(keys, best, worst) >= 0,
{
    assert(sel[best]);
}

/// The last item of a stable ascending order is the last maximum of the
/// selection, and its first item the first minimum.
pub proof fn law_stable_order_ends(keys: Seq<Seq<i128>>, sel: Seq<bool>, order: Seq<usize>)
    requires
        sel.len() <= usize::MAX,
        is_stable_order(keys, sel, order),
        order.len() > 0,
    ensures
        is_last_max(keys, sel, order.last() as int),
        is_first_min(keys, sel, order[0] as int),
{
    let last = order.last() as int;
    let first = order[0] as int;
    assert(order[order.len() - 1] as int == last);
    assert forall|j: int| 0 <= j < sel.len() && #[trigger] sel[j] implies sign_at(keys, j, last) <= 0 && (j > last ==> sign_at(keys, j, last) < 0) by {
        assert(order.contains(j as usize));
        let p = choose|p: int| 0 <= p < order.len() && order[p] == j as usize;
        if p < order.len() - 1 {
            assert(precedes(keys, order[p] as int, order[order.len() - 1] as int));
        } else {
            lemma_lex_refl(keys[j]);
        }
    }
    assert forall|j: int| 0 <= j < sel.len() && #[trigger] sel[j] implies sign_at(keys, j, first) >= 0 && (j < first ==> sign_at(keys, j, first) > 0) by {
        assert(order.contains(j as usize));
        let p = choose|p: int| 0 <= p < order.len() && order[p] == j as usize;
        if p > 0 {
            assert(precedes(keys, order[0] as int, order[p] as int));
            lemma_lex_antisym(keys[first], keys[j]);
        } else {
            lemma_lex_refl(keys[j]);
        }
    }
}

/// The format a live recording uses by default, the last max of the HLS
/// formats by total bitrate, is the last of the live formats listed in
/// ascending bitrate order.
pub proof fn law_default_recording_format_is_last_live_format(v: Video, order: Seq<usize>)
    requires
        is_stable_order(v.total_rate_keys(), v.hls_formats(), order),
        order.len() > 0,
    ensures
        is_last_max(v.total_rate_keys(), v.hls_formats(), order.last() as int),
{
    assert(v.hls_formats().len() == v.formats.len());
    law_stable_order_ends(v.total_rate_keys(), v.hls_formats(), order);
}

/// Negating the storyboard keys reverses their comparison.
proof fn lemma_desc_key_reverses(a: Format, b: Format)
    ensures
        lex_sign(storyboard_desc_key(a), storyboard_desc_key(b)) == -lex_sign(storyboard_key(a), storyboard_key(b)),
{
    assert forall|f: Format| 0 <= #[trigger] frame_area(f) <= 0xffff_ffff_ffff_ffff by {
        let w = or_zero(f.video_resolution.width);
        let h = or_zero(f.video_resolution.height);
        assert(0 <= w * h <= 0xffff_ffff * 0xffff_ffff) by (nonlinear_arith)
            requires
                0 <= w <= 0xffff_ffff,
                0 <= h <= 0xffff_ffff,
        ;
    }
    assert(frame_area(a) >= 0 && frame_area(b) >= 0);
    assert(0 <= fragment_count(a) <= usize::MAX && 0 <= fragment_count(b) <= usize::MAX);
    let ka = storyboard_key(a);
    let kb = storyboard_key(b);
    let da = storyboard_desc_key(a);
    let db = storyboard_desc_key(b);
    assert(da[0] == -ka[0] && da[1] == -ka[1]);
    assert(db[0] == -kb[0] && db[1] == -kb[1]);
    reveal_with_fuel(lex_sign, 3);
    assert(da.drop_first().drop_first().len() == 0);
    assert(ka.drop_first().drop_first().len() == 0);
    assert(da.drop_first()[0] == da[1] && db.drop_first()[0] == db[1]);
    assert(ka.drop_first()[0] == ka[1] && kb.drop_first()[0] == kb[1]);
}

/// The first storyboard listed from best to worst ranks as high as the best
/// storyboard: their fragment counts and frame areas compare equal.
pub proof fn law_first_listed_storyboard_is_best(v: Video, order: Seq<usize>, best: int)
    requires
        is_stable_order(v.storyboard_desc_keys(), v.storyboards(), order),
        order.len() > 0,
        is_last_max(v.storyboard_keys(), v.storyboards(), best),
    ensures
        lex_sign(storyboard_key(v.formats@[order[0] as int]), storyboard_key(v.formats@[best])) == 0,
{
    assert(v.storyboards().len() == v.formats.len());
    law_stable_order_ends(v.storyboard_desc_keys(), v.storyboards(), order);
    let first = order[0] as int;
    lemma_desc_key_reverses(v.formats@[best], v.formats@[first]);
    let fa = v.formats@[first];
    let fb = v.formats@[best];
    assert(v.storyboards()[best]);
    assert(v.storyboards()[first]);
    assert(lex_sign(storyboard_desc_key(fb), storyboard_desc_key(fa)) >= 0);
    assert(lex_sign(storyboard_key(fa), storyboard_key(fb)) <= 0);
    lemma_lex_antisym(storyboard_key(fa), storyboard_key(fb));
}

/// Selecting the best or the worst format without a codec preference ranks
/// every format that carries video (or audio); where all of those are
/// video-only (audio-only) it picks what `best_video_format`,
/// `worst_video_format`, `best_audio_format` and `worst_audio_format` pick.
pub proof fn law_unconstrained_selection_is_best_or_worst(v: Video, i: int)
    ensures
        v.video_choice_at(VideoQuality::Best, VideoCodecPreference::Any, i) <==> is_last_max(v.video_keys(), v.video_formats(), i),
        v.video_choice_at(VideoQuality::Worst, VideoCodecPreference::Any, i) <==> is_first_min(v.video_keys(), v.video_formats(), i),
        v.audio_choice_at(AudioQuality::Best, AudioCodecPreference::Any, i) <==> is_last_max(v.audio_keys(), v.audio_formats(), i),
        v.audio_choice_at(AudioQuality::Worst, AudioCodecPreference::Any, i) <==> is_first_min(v.audio_keys(), v.audio_formats(), i),
        v.video_formats() == v.video_only_formats() ==> (v.video_choice_at(VideoQuality::Best, VideoCodecPreference::Any, i)
            <==> is_last_max(v.video_keys(), v.video_only_formats(), i)),
        v.video_formats() == v.video_only_formats() ==> (v.video_choice_at(VideoQuality::Worst, VideoCodecPreference::Any, i)
            <==> is_first_min(v.video_keys(), v.video_only_formats(), i)),
        v.audio_formats() == v.audio_only_formats() ==> (v.audio_choice_at(AudioQuality::Best, AudioCodecPreference::Any, i)
            <==> is_last_max(v.audio_keys(), v.audio_only_formats(), i)),
        v.audio_formats() == v.audio_only_formats() ==> (v.audio_choice_at(AudioQuality::Worst, AudioCodecPreference::Any, i)
            <==> is_first_min(v.audio_keys(), v.audio_only_formats(), i)),
{
}

/// A codec preference that no format satisfies selects as no preference
/// does; one that some format satisfies selects among those formats only.
pub proof fn law_codec_preference_falls_back(
    v: Video,
    vq: VideoQuality,
    vc: VideoCodecPreference,
    aq: AudioQuality,
    ac: AudioCodecPreference,
    i: int,
)
    ensures
        !any_selected(v.video_codec_matching(vc)) ==> (v.video_choice_at(vq, vc, i) <==> v.video_choice_at(
            vq,
            VideoCodecPreference::Any,
            i,
        )),
        any_selected(v.video_codec_matching(vc)) && v.video_choice_at(vq, vc, i) ==> v.video_codec_matching(vc)[i],
        !any_selected(v.audio_codec_matching(ac)) ==> (v.audio_choice_at(aq, ac, i) <==> v.audio_choice_at(
            aq,
            AudioCodecPreference::Any,
            i,
        )),
        any_selected(v.audio_codec_matching(ac)) && v.audio_choice_at(aq, ac, i) ==> v.audio_codec_matching(ac)[i],
{
    assert(v.video_candidates(VideoCodecPreference::Any) == v.video_formats());
    assert(v.audio_candidates(AudioCodecPreference::Any) == v.audio_formats());
    if any_selected(v.video_codec_matching(vc)) && v.video_choice_at(vq, vc, i) {
        let m = v.video_codec_matching(vc);
        if vc is Any {
            assert(m =~= v.video_formats());
        }
        assert(v.video_candidates(vc) == m);
        match vq {
            VideoQuality::Best => {},
            VideoQuality::Worst => {},
            VideoQuality::CustomWidth(w) => {
                let above = Seq::new(m.len(), |j: int| m[j] && reaches(v.formats@[j], w, true));
                if any_selected(above) {
                    assert(above[i]);
                }
            },
            _ => {
                let t = preset_height(vq);
                let above = Seq::new(m.len(), |j: int| m[j] && reaches(v.formats@[j], t, false));
                if any_selected(above) {
                    assert(above[i]);
                }
            },
        }
    }
    if any_selected(v.audio_codec_matching(ac)) && v.audio_choice_at(aq, ac, i) {
        let m = v.audio_codec_matching(ac);
        if ac is Any {
            assert(m =~= v.audio_formats());
        }
        assert(v.audio_candidates(ac) == m);
        match aq {
            AudioQuality::Best => {},
            AudioQuality::Worst => {},
            _ => {
                let t = preset_bitrate(aq);
                let above = Seq::new(m.len(), |j: int| m[j] && reaches_rate(v.formats@[j], t));
                if any_selected(above) {
                    assert(above[i]);
                }
            },
        }
    }
}

/// A key that compares at least as high as another has a first component at
/// least as high.
proof fn lemma_lex_first(a: Seq<i128>, b: Seq<i128>)
    requires
        a.len() > 0,
        b.len() > 0,
        lex_sign(a, b) >= 0,
    ensures
        a[0] >= b[0],
{
}

/// A candidate whose audio bitrate is exactly the target reaches it, so the
/// format closest to the target bitrate then has exactly that bitrate.
pub proof fn law_exact_bitrate_is_closest(v: Video, cands: Seq<bool>, target: u32, i: int, j: int)
    requires
        cands.len() == v.formats@.len(),
        0 <= j < cands.len(),
        cands[j],
        v.formats@[j].rates_info.audio_rate == Some(u32_f64_bits(target)),
        v.closest_rate_at(cands, target, i),
    ensures
        v.formats@[i].rates_info.audio_rate matches Some(r) && float_key(r) == float_key(u32_f64_bits(target)),
{
    let above = Seq::new(cands.len(), |k: int| cands[k] && reaches_rate(v.formats@[k], target));
    assert(above[j]);
    let keys = v.formats@.map_values(|f: Format| rate_key(f));
    assert(is_first_min(keys, above, i));
    assert(above[i]);
    assert(sign_at(keys, j, i) >= 0);
    lemma_lex_first(keys[j], keys[i]);
    assert(keys[j][0] == float_key_or_zero(v.formats@[j].rates_info.audio_rate));
    assert(keys[i][0] == float_key_or_zero(v.formats@[i].rates_info.audio_rate));
}

/// Selecting audio by a target bitrate (a preset or a custom one) picks a
/// format of exactly that bitrate whenever a candidate has it.
pub proof fn law_select_audio_hits_exact_bitrate(v: Video, q: AudioQuality, ac: AudioCodecPreference, i: int, j: int)
    requires
        !(q is Best),
        !(q is Worst),
        0 <= j < v.formats@.len(),
        v.audio_candidates(ac)[j],
        v.formats@[j].rates_info.audio_rate == Some(u32_f64_bits(preset_bitrate(q))),
        v.audio_choice_at(q, ac, i),
    ensures
        v.formats@[i].rates_info.audio_rate matches Some(r) && float_key(r) == float_key(u32_f64_bits(preset_bitrate(q))),
{
    assert(v.audio_candidates(ac).len() == v.formats@.len());
    law_exact_bitrate_is_closest(v, v.audio_candidates(ac), preset_bitrate(q), i, j);
}

/// The FFmpeg command line of a recording: it reads the stream URL after
/// `-i` and copies it (`-c copy`), ends with `-y <output>`, starts with
/// `-live_start_index 0` exactly when recording from the start, and, whenever
/// a maximum duration is given (whether or not recording from the start),
/// holds `-t` followed by its seconds; it has no other arguments.
pub proof fn law_ffmpeg_command_line(url: Seq<char>, output: Seq<char>, max_secs: Option<u64>, live_from_start: bool)
    ensures
        ({
            let l = ffmpeg_arg_list(url, output, max_secs, live_from_start);
            let o: int = if live_from_start { 2 } else { 0 };
            &&& l.len() == o + 6 + if max_secs is Some { 2int } else { 0int }
            &&& live_from_start ==> l[0] == "-live_start_index"@ && l[1] == "0"@
            &&& l[o] == "-i"@ && l[o + 1] == url && l[o + 2] == "-c"@ && l[o + 3] == "copy"@
            &&& l[l.len() - 2] == "-y"@ && l[l.len() - 1] == output
            &&& max_secs matches Some(s) ==> exists|k: int| 0 <= k && k + 1 < l.len() && #[trigger] l[k] == "-t"@ && l[k + 1] == decimal(s as nat)
        }),
{
    let l = ffmpeg_arg_list(url, output, max_secs, live_from_start);
    match max_secs {
        Some(s) => {
            let t = decimal(s as nat);
            if live_from_start {
                assert(l =~= seq!["-live_start_index"@, "0"@, "-i"@, url, "-c"@, "copy"@, "-t"@, t, "-y"@, output]);
                assert(l[6] == "-t"@ && l[7] == t);
            } else {
                assert(l =~= seq!["-i"@, url, "-c"@, "copy"@, "-t"@, t, "-y"@, output]);
                assert(l[4] == "-t"@ && l[5] == t);
            }
        },
        None => {
            if live_from_start {
                assert(l =~= seq!["-live_start_index"@, "0"@, "-i"@, url, "-c"@, "copy"@, "-y"@, output]);
            } else {
                assert(l =~= seq!["-i"@, url, "-c"@, "copy"@, "-y"@, output]);
            }
        },
    }
}

/// Among thumbnails with both dimensions, the best thumbnail has the largest
/// area (where the areas fit an `i64`), and of equal areas the highest
/// preference; the worst has the smallest area and, of equal areas, the
/// lowest preference.
pub proof fn law_thumbnail_area_then_preference(v: Video, i: int, j: int)
    requires
        0 <= j < v.thumbnails@.len(),
        v.thumbnails@[j].has_dimensions(),
    ensures
        v.best_thumbnail_at(i) && v.thumbnails@[i].area() == v.thumbnails@[j].area() ==> v.thumbnails@[j].preference <= v.thumbnails@[i].preference,
        v.worst_thumbnail_at(i) && v.thumbnails@[i].area() == v.thumbnails@[j].area() ==> v.thumbnails@[j].preference >= v.thumbnails@[i].preference,
        v.best_thumbnail_at(i) && v.thumbnail_areas_fit() ==> v.thumbnails@[j].area() <= v.thumbnails@[i].area(),
        v.worst_thumbnail_at(i) && v.thumbnail_areas_fit() ==> v.thumbnails@[j].area() >= v.thumbnails@[i].area(),
{
    let d = v.dimensioned();
    assert(d[j]);
    assert(any_selected(d));
    let keys = v.thumbnails@.map_values(|t: Thumbnail| thumbnail_area_key(t));
    let ti = v.thumbnails@[i];
    let tj = v.thumbnails@[j];
    reveal_with_fuel(lex_sign, 3);
    if v.best_thumbnail_at(i) {
        assert(is_last_max(keys, d, i));
        assert(d[i]);
        assert(sign_at(keys, j, i) <= 0);
        assert(keys[j] == thumbnail_area_key(tj) && keys[i] == thumbnail_area_key(ti));
        assert(keys[j].drop_first()[0] == keys[j][1] && keys[i].drop_first()[0] == keys[i][1]);
        lemma_lex_antisym(keys[j], keys[i]);
        lemma_lex_first(keys[i], keys[j]);
        if v.thumbnail_areas_fit() {
            assert(ti.area_fits() && tj.area_fits());
        }
    }
    if v.worst_thumbnail_at(i) {
        assert(is_first_min(keys, d, i));
        assert(d[i]);
        assert(sign_at(keys, j, i) >= 0);
        assert(keys[j] == thumbnail_area_key(tj) && keys[i] == thumbnail_area_key(ti));
        assert(keys[j].drop_first()[0] == keys[j][1] && keys[i].drop_first()[0] == keys[i][1]);
        lemma_lex_first(keys[j], keys[i]);
        if v.thumbnail_areas_fit() {
            assert(ti.area_fits() && tj.area_fits());
        }
    }
}

/// Choosing the format closest to a target height (or width): when a
/// candidate reaches the target, the pick reaches it too and no reaching
/// candidate is nearer to the target; when the pick does not reach the
/// target, no candidate does and none is larger.
pub proof fn law_closest_dimension(v: Video, cands: Seq<bool>, target: u32, by_width: bool, i: int, j: int)
    requires
        cands.len() == v.formats@.len(),
        0 <= j < cands.len(),
        cands[j],
        v.closest_dimension_at(cands, target, by_width, i),
    ensures
        reaches(v.formats@[j], target, by_width) ==> reaches(v.formats@[i], target, by_width)
            && or_zero(dimension(v.formats@[i], by_width)) <= or_zero(dimension(v.formats@[j], by_width)),
        !reaches(v.formats@[i], target, by_width) ==> !reaches(v.formats@[j], target, by_width)
            && or_zero(dimension(v.formats@[j], by_width)) <= or_zero(dimension(v.formats@[i], by_width)),
{
    let above = Seq::new(cands.len(), |k: int| cands[k] && reaches(v.formats@[k], target, by_width));
    let gaps = v.formats@.map_values(|f: Format| gap_key(f, target, by_width));
    let sizes = v.formats@.map_values(|f: Format| size_key(f, by_width));
    if any_selected(above) {
        assert(is_first_min(gaps, above, i));
        assert(above[i]);
        if reaches(v.formats@[j], target, by_width) {
            assert(above[j]);
            assert(sign_at(gaps, j, i) >= 0);
            lemma_lex_first(gaps[j], gaps[i]);
        }
    } else {
        assert(is_last_max(sizes, cands, i));
        assert(!above[j]);
        assert(sign_at(sizes, j, i) <= 0);
        lemma_lex_antisym(sizes[j], sizes[i]);
        lemma_lex_first(sizes[i], sizes[j]);
        if reaches(v.formats@[i], target, by_width) {
            assert(above[i]);
        }
    }
}

/// Choosing the audio format closest to a target bitrate: when a candidate
/// reaches the target, the pick reaches it too and no reaching candidate has
/// a lower bitrate; when the pick does not reach the target, no candidate
/// does and none has a higher bitrate.
pub proof fn law_closest_rate(v: Video, cands: Seq<bool>, target: u32, i: int, j: int)
    requires
        cands.len() == v.formats@.len(),
        0 <= j < cands.len(),
        cands[j],
        v.closest_rate_at(cands, target, i),
    ensures
        reaches_rate(v.formats@[j], target) ==> reaches_rate(v.formats@[i], target)
            && float_key_or_zero(v.formats@[i].rates_info.audio_rate) <= float_key_or_zero(v.formats@[j].rates_info.audio_rate),
        !reaches_rate(v.formats@[i], target) ==> !reaches_rate(v.formats@[j], target)
            && float_key_or_zero(v.formats@[j].rates_info.audio_rate) <= float_key_or_zero(v.formats@[i].rates_info.audio_rate),
{
    let above = Seq::new(cands.len(), |k: int| cands[k] && reaches_rate(v.formats@[k], target));
    let keys = v.formats@.map_values(|f: Format| rate_key(f));
    assert(keys[j][0] == float_key_or_zero(v.formats@[j].rates_info.audio_rate));
    assert(keys[i][0] == float_key_or_zero(v.formats@[i].rates_info.audio_rate));
    if any_selected(above) {
        assert(is_first_min(keys, above, i));
        assert(above[i]);
        if reaches_rate(v.formats@[j], target) {
            assert(above[j]);
            assert(sign_at(keys, j, i) >= 0);
            lemma_lex_first(keys[j], keys[i]);
        }
    } else {
        assert(is_last_max(keys, cands, i));
        assert(!above[j]);
        assert(sign_at(keys, j, i) <= 0);
        lemma_lex_antisym(keys[j], keys[i]);
        lemma_lex_first(keys[i], keys[j]);
        if reaches_rate(v.formats@[i], target) {
            assert(above[i]);
        }
    }
}

/// The best storyboard has the most fragments and, of equal counts, the
/// largest frame area; the worst the fewest and, of equal counts, the
/// smallest.
pub proof fn law_storyboard_fragments_then_area(v: Video, i: int, j: int)
    requires
        0 <= j < v.formats@.len(),
        v.storyboards()[j],
    ensures
        is_last_max(v.storyboard_keys(), v.storyboards(), i) ==> fragment_count(v.formats@[j]) <= fragment_count(v.formats@[i])
            && (fragment_count(v.formats@[j]) == fragment_count(v.formats@[i]) ==> frame_area(v.formats@[j]) <= frame_area(v.formats@[i])),
        is_first_min(v.storyboard_keys(), v.storyboards(), i) ==> fragment_count(v.formats@[j]) >= fragment_count(v.formats@[i])
            && (fragment_count(v.formats@[j]) == fragment_count(v.formats@[i]) ==> frame_area(v.formats@[j]) >= frame_area(v.formats@[i])),
{
    let keys = v.storyboard_keys();
    let fi = v.formats@[i];
    let fj = v.formats@[j];
    lemma_storyboard_key_exact(fi);
    lemma_storyboard_key_exact(fj);
    reveal_with_fuel(lex_sign, 3);
    if is_last_max(keys, v.storyboards(), i) || is_first_min(keys, v.storyboards(), i) {
        assert(keys[i] == storyboard_key(fi) && keys[j] == storyboard_key(fj));
        assert(keys[j].drop_first()[0] == keys[j][1] && keys[i].drop_first()[0] == keys[i][1]);
        lemma_lex_antisym(keys[j], keys[i]);
    }
}

/// The storyboard key holds the fragment count and frame area exactly.
proof fn lemma_storyboard_key_exact(f: Format)
    ensures
        storyboard_key(f)[0] == fragment_count(f),
        storyboard_key(f)[1] == frame_area(f),
{
    let w = or_zero(f.video_resolution.width);
    let h = or_zero(f.video_resolution.height);
    assert(0 <= w * h <= 0xffff_ffff * 0xffff_ffff) by (nonlinear_arith)
        requires
            0 <= w <= 0xffff_ffff,
            0 <= h <= 0xffff_ffff,
    ;
    assert(0 <= fragment_count(f) <= usize::MAX);
}

/// The smallest thumbnail at a minimum size satisfies that size, and no
/// thumbnail that satisfies it has a smaller area.
pub proof fn law_thumbnail_for_size(v: Video, min_width: u32, min_height: u32, i: int, j: int)
    requires
        v.fitting_areas_fit(min_width, min_height),
        0 <= j < v.thumbnails@.len(),
        fits_size(v.thumbnails@[j], min_width, min_height),
        is_first_min(v.thumbnails@.map_values(|t: Thumbnail| thumbnail_size_key(t)), v.fitting(min_width, min_height), i),
    ensures
        fits_size(v.thumbnails@[i], min_width, min_height),
        v.thumbnails@[i].area() <= v.thumbnails@[j].area(),
{
    let keys = v.thumbnails@.map_values(|t: Thumbnail| thumbnail_size_key(t));
    let sel = v.fitting(min_width, min_height);
    assert(sel[j]);
    assert(sel[i]);
    assert(sign_at(keys, j, i) >= 0);
    lemma_lex_first(keys[j], keys[i]);
    assert(v.thumbnails@[i].area_fits() && v.thumbnails@[j].area_fits());
}

/// When no thumbnail has both dimensions, the best thumbnail has the highest
/// preference of all and the worst the lowest.
pub proof fn law_thumbnail_preference_fallback(v: Video, i: int, j: int)
    requires
        !any_selected(v.dimensioned()),
        0 <= j < v.thumbnails@.len(),
    ensures
        v.best_thumbnail_at(i) ==> v.thumbnails@[j].preference <= v.thumbnails@[i].preference,
        v.worst_thumbnail_at(i) ==> v.thumbnails@[j].preference >= v.thumbnails@[i].preference,
{
    let keys = v.thumbnails@.map_values(|t: Thumbnail| thumbnail_preference_key(t));
    let all = v.all_thumbnails();
    assert(all[j]);
    if v.best_thumbnail_at(i) {
        assert(sign_at(keys, j, i) <= 0);
        lemma_lex_antisym(keys[j], keys[i]);
        lemma_lex_first(keys[i], keys[j]);
    }
    if v.worst_thumbnail_at(i) {
        assert(sign_at(keys, j, i) >= 0);
        lemma_lex_first(keys[j], keys[i]);
    }
}

/// Minimums are inclusive: a thumbnail exactly at the minimum size satisfies
/// it, a format exactly at the target height (or width) reaches it, and an
/// audio bitrate exactly at the target reaches it.
pub proof fn law_minimums_are_inclusive(t: Thumbnail, f: Format, w: u32, h: u32, target: u32)
    ensures
        t.width == Some(w as i64) && t.height == Some(h as i64) ==> fits_size(t, w, h),
        f.video_resolution.height == Some(target) ==> reaches(f, target, false),
        f.video_resolution.width == Some(target) ==> reaches(f, target, true),
        f.rates_info.audio_rate == Some(u32_f64_bits(target)) ==> reaches_rate(f, target),
        t.width matches Some(tw) && tw < w ==> !fits_size(t, w, h),
        t.height matches Some(th) && th < h ==> !fits_size(t, w, h),
        f.video_resolution.height matches Some(d) && d < target ==> !reaches(f, target, false),
{
}

/// An item whose age equals its TTL has not expired; one second later it has.
pub proof fn law_expiry_boundary(cached_at: i64, ttl: u64, now: i64)
    requires
        now - cached_at == ttl,
        now < i64::MAX,
    ensures
        !expired_at(cached_at, ttl, now),
        expired_at(cached_at, ttl, (now + 1) as i64),
{
}

/// Format URLs are fresh strictly before the earliest `available_at` plus
/// their lifetime, and stale from that instant on.
pub proof fn law_freshness_boundary(v: Video, a: i64)
    requires
        earliest_available_at(v.formats@) == Some(a),
    ensures
        v.urls_fresh_at(a + FORMAT_URL_LIFETIME - 1),
        !v.urls_fresh_at(a + FORMAT_URL_LIFETIME),
{
}

/// The HLS format a recording uses by default has the highest total bitrate:
/// no HLS format has a higher one, and a format without a total bitrate never
/// ranks above one that has it.
pub proof fn law_default_recording_format_has_top_bitrate(v: Video, i: int, j: int)
    requires
        is_last_max(v.total_rate_keys(), v.hls_formats(), i),
        0 <= j < v.formats@.len(),
        v.hls_formats()[j],
    ensures
        v.formats@[j].rates_info.total_rate is Some ==> v.formats@[i].rates_info.total_rate is Some,
        v.formats@[j].rates_info.total_rate is Some ==> float_key_or_zero(v.formats@[j].rates_info.total_rate)
            <= float_key_or_zero(v.formats@[i].rates_info.total_rate),
{
    let keys = v.total_rate_keys();
    assert(sign_at(keys, j, i) <= 0);
    assert(keys[i] == total_rate_key(v.formats@[i]) && keys[j] == total_rate_key(v.formats@[j]));
    reveal_with_fuel(lex_sign, 3);
    assert(keys[j].drop_first()[0] == keys[j][1] && keys[i].drop_first()[0] == keys[i][1]);
    lemma_lex_antisym(keys[j], keys[i]);
}

/// The yt-dlp command line of a recording: `--live-from-start --no-part -o
/// <output>`, then the extra arguments in their order, then the URL last.
pub proof fn law_ytdlp_command_line(url: Seq<char>, output: Seq<char>, extra: Seq<Seq<char>>)
    ensures
        ({
            let l = ytdlp_arg_list(url, output, extra);
            &&& l.len() == extra.len() + 5
            &&& l[0] == "--live-from-start"@ && l[1] == "--no-part"@ && l[2] == "-o"@ && l[3] == output
            &&& forall|k: int| 0 <= k < extra.len() ==> l[4 + k] == #[trigger] extra[k]
            &&& l[l.len() - 1] == url
        }),
{
}

/// Codec preferences ignore ASCII case on both sides, and a codec name
/// satisfies a preference for any part of it.
pub proof fn law_codec_matching_ignores_case(codec: Seq<char>, wanted: Seq<char>, start: int, end: int)
    requires
        0 <= start <= end <= codec.len(),
    ensures
        codec_name_matches(codec, wanted) == codec_name_matches(ascii_lower_seq(codec), ascii_lower_seq(wanted)),
        codec_name_matches(codec, codec.subrange(start, end)),
{
    assert forall|i: int| 0 <= i < codec.len() implies #[trigger] ascii_lower_seq(ascii_lower_seq(codec))[i] == ascii_lower_seq(codec)[i] by {
        let c = codec[i];
        if 'A' <= c && c <= 'Z' {
            assert(('a' as u32) <= (c as u32) + 32 <= ('z' as u32));
        }
    }
    assert forall|i: int| 0 <= i < wanted.len() implies #[trigger] ascii_lower_seq(ascii_lower_seq(wanted))[i] == ascii_lower_seq(wanted)[i] by {
        let c = wanted[i];
        if 'A' <= c && c <= 'Z' {
            assert(('a' as u32) <= (c as u32) + 32 <= ('z' as u32));
        }
    }
    assert(ascii_lower_seq(ascii_lower_seq(codec)) =~= ascii_lower_seq(codec));
    assert(ascii_lower_seq(ascii_lower_seq(wanted)) =~= ascii_lower_seq(wanted));
    let lc = ascii_lower_seq(codec);
    assert(ascii_lower_seq(codec.subrange(start, end)) =~= lc.subrange(start, end));
    assert(lc.subrange(start, start + (end - start)) == ascii_lower_seq(codec.subrange(start, end)));
}

/// The quality presets are the custom targets they name: `High`, `Medium`
/// and `Low` video select as heights 1080, 720 and 480, and audio as
/// bitrates 192, 128 and 96 kbps.
pub proof fn law_quality_presets(v: Video, vc: VideoCodecPreference, ac: AudioCodecPreference, i: int)
    ensures
        v.video_choice_at(VideoQuality::High, vc, i) <==> v.video_choice_at(VideoQuality::CustomHeight(1080), vc, i),
        v.video_choice_at(VideoQuality::Medium, vc, i) <==> v.video_choice_at(VideoQuality::CustomHeight(720), vc, i),
        v.video_choice_at(VideoQuality::Low, vc, i) <==> v.video_choice_at(VideoQuality::CustomHeight(480), vc, i),
        v.audio_choice_at(AudioQuality::High, ac, i) <==> v.audio_choice_at(AudioQuality::CustomBitrate(192), ac, i),
        v.audio_choice_at(AudioQuality::Medium, ac, i) <==> v.audio_choice_at(AudioQuality::CustomBitrate(128), ac, i),
        v.audio_choice_at(AudioQuality::Low, ac, i) <==> v.audio_choice_at(AudioQuality::CustomBitrate(96), ac, i),
{
    assert(preset_height(VideoQuality::High) == 1080);
}

/// The best thumbnail is at least as large as the worst one: with both
/// dimensions known, its area (then preference) ranks at least as high.
pub proof fn law_best_thumbnail_not_below_worst(v: Video, best: int, worst: int)
    requires
        v.best_thumbnail_at(best),
        v.worst_thumbnail_at(worst),
    ensures
        best == worst || any_selected(v.dimensioned()) ==> crate::ranking::lex_sign(
            crate::video::thumbnail_area_key(v.thumbnails@[best]),
            crate::video::thumbnail_area_key(v.thumbnails@[worst]),
        ) >= 0,
{
    if any_selected(v.dimensioned()) {
        let keys = v.thumbnails@.map_values(|t: crate::thumbnail::Thumbnail| crate::video::thumbnail_area_key(t));
        law_best_not_below_worst(keys, v.dimensioned(), best, worst);
    } else {
        crate::ranking::lemma_lex_refl(crate::video::thumbnail_area_key(v.thumbnails@[best]));
    }
}

/// Every terminal event (completed, failed, canceled) belongs to a download.
pub proof fn law_terminal_events_name_their_download(e: DownloadEvent)
    ensures
        event_is_terminal(e) ==> event_download_id(e) is Some,
{
}

/// Once an item has expired, it stays expired: expiry is monotone in time.
pub proof fn law_expiry_is_permanent(cached_at: i64, ttl: u64, now: i64, later: i64)
    requires
        now <= later,
        expired_at(cached_at, ttl, now),
    ensures
        expired_at(cached_at, ttl, later),
{
}

/// Fresh format URLs were fresh at every earlier time.
pub proof fn law_freshness_only_ends(v: Video, earlier: int, now: int)
    requires
        earlier <= now,
        v.urls_fresh_at(now),
    ensures
        v.urls_fresh_at(earlier),
{
}

/// The earliest `available_at` is the minimum over the formats whose URLs
/// expire: it belongs to one of them and none carries an earlier one; with
/// no such format there is none.
pub proof fn law_earliest_available_at_is_minimum(fs: Seq<Format>)
    ensures
        earliest_available_at(fs) is None <==> forall|k: int| 0 <= k < fs.len() ==> !expiring(#[trigger] fs[k]),
        earliest_available_at(fs) matches Some(a) ==> {
            &&& exists|k: int| 0 <= k < fs.len() && expiring(#[trigger] fs[k]) && fs[k].available_at == Some(a)
            &&& forall|k: int| 0 <= k < fs.len() && expiring(#[trigger] fs[k]) ==> a <= fs[k].available_at.unwrap()
        },
    decreases fs.len(),
{
    if fs.len() > 0 {
        let rest = fs.drop_last();
        let last = fs.len() - 1;
        let f = fs[last];
        law_earliest_available_at_is_minimum(rest);
        assert forall|k: int| 0 <= k < last implies #[trigger] fs[k] == rest[k] by {}
        if !expiring(f) {
            assert(earliest_available_at(fs) == earliest_available_at(rest));
            assert forall|k: int| 0 <= k < fs.len() && expiring(#[trigger] fs[k]) implies k < last && expiring(rest[k]) by {}
            if let Some(m) = earliest_available_at(rest) {
                let w = choose|k: int| 0 <= k < rest.len() && expiring(#[trigger] rest[k]) && rest[k].available_at == Some(m);
                assert(fs[w] == rest[w]);
            }
        } else {
            assert(earliest_available_at(fs) is Some);
            let a = earliest_available_at(fs).unwrap();
            assert(a <= f.available_at.unwrap());
            if let Some(m) = earliest_available_at(rest) {
                assert(a <= m);
                if a != f.available_at.unwrap() {
                    let w = choose|k: int| 0 <= k < rest.len() && expiring(#[trigger] rest[k]) && rest[k].available_at == Some(m);
                    assert(fs[w] == rest[w]);
                }
                assert forall|k: int| 0 <= k < fs.len() && expiring(#[trigger] fs[k]) implies a <= fs[k].available_at.unwrap() by {
                    if k < last {
                        assert(expiring(rest[k]));
                    }
                }
            } else {
                assert forall|k: int| 0 <= k < fs.len() && expiring(#[trigger] fs[k]) implies k == last by {
                    if k < last {
                        assert(expiring(rest[k]));
                    }
                }
            }
            assert(expiring(fs[last]));
        }
    }
}

/// Reports of the native engine's progress are at least
/// [`PROGRESS_THROTTLE_NANOS`] apart: after a report at `reported`, none is
/// due before that interval has passed.
pub proof fn law_progress_reports_are_throttled(reported: u64, now: u64)
    requires
        reported <= now,
        now < reported + PROGRESS_THROTTLE_NANOS,
    ensures
        !(now - reported >= PROGRESS_THROTTLE_NANOS),
{
}

/// After `SegmentTracker::seed` with a playlist, every segment of that
/// playlist is seen: polling the same playlist finds no new segment, and a
/// final playlist stops the recording.
pub proof fn law_seeded_playlist_has_nothing_new(before: SegmentTracker, after: SegmentTracker, playlist: Seq<u64>)
    requires
        after.seen_set() == before.seen_set() + playlist.to_set(),
    ensures
        forall|i: int| 0 <= i < playlist.len() ==> after.seen_set().contains(#[trigger] playlist[i]),
{
    assert forall|i: int| 0 <= i < playlist.len() implies after.seen_set().contains(#[trigger] playlist[i]) by {
        assert(playlist.to_set().contains(playlist[i]));
    }
}

/// The bytes of a run of recorded segments, in total.
pub open spec fn byte_total(recs: Seq<(u64, u64)>) -> int
    decreases recs.len(),
{
    if recs.len() == 0 {
        0
    } else {
        byte_total(recs.drop_last()) + recs.last().1
    }
}

/// The sequence numbers of a run of recorded segments.
pub open spec fn recorded_sequences(recs: Seq<(u64, u64)>) -> Set<u64> {
    recs.map_values(|r: (u64, u64)| r.0).to_set()
}

/// Over a run of `SegmentTracker::record_segment` calls (`ts[k]` becoming
/// `ts[k + 1]` by recording `recs[k]`): the recorded sequence numbers join
/// the seen set, so none is ever offered for download again; one segment is
/// counted per call; and the bytes written are the total of the recorded
/// bytes, wrapping at 2^64.
pub proof fn law_recording_run(ts: Seq<SegmentTracker>, recs: Seq<(u64, u64)>)
    requires
        ts.len() == recs.len() + 1,
        forall|k: int| 0 <= k < recs.len() ==> #[trigger] ts[k].records(ts[k + 1], recs[k].0, recs[k].1),
    ensures
        ts.last().seen_set() == ts[0].seen_set() + recorded_sequences(recs),
        forall|k: int| 0 <= k < recs.len() ==> ts.last().seen_set().contains(#[trigger] recs[k].0),
        ts.last().downloaded() == ts[0].downloaded() + recs.len(),
        ts.last().written() == (ts[0].written() + byte_total(recs)) % 0x1_0000_0000_0000_0000,
        ts.last().last_report() == ts[0].last_report(),
    decreases recs.len(),
{
    let m: int = 0x1_0000_0000_0000_0000;
    if recs.len() == 0 {
        assert(recorded_sequences(recs) =~= Set::empty());
        let w0 = ts[0].written() as int;
        assert(w0 % m == w0) by (nonlinear_arith)
            requires
                0 <= w0 < m,
        ;
    } else {
        let n = recs.len() - 1;
        let front = ts.drop_last();
        let rest = recs.drop_last();
        assert forall|k: int| 0 <= k < rest.len() implies #[trigger] front[k].records(front[k + 1], rest[k].0, rest[k].1) by {
            assert(ts[k].records(ts[k + 1], recs[k].0, recs[k].1));
        }
        law_recording_run(front, rest);
        assert(front.last() == ts[n]);
        assert(ts[n].records(ts[n + 1], recs[n].0, recs[n].1));
        assert(ts.last() == ts[n + 1]);
        let seqs = recs.map_values(|r: (u64, u64)| r.0);
        assert(seqs =~= rest.map_values(|r: (u64, u64)| r.0).push(recs[n].0));
        rest.map_values(|r: (u64, u64)| r.0).lemma_push_to_set_commute(recs[n].0);
        assert(ts.last().seen_set() =~= ts[0].seen_set() + recorded_sequences(recs));
        assert forall|k: int| 0 <= k < recs.len() implies ts.last().seen_set().contains(#[trigger] recs[k].0) by {
            assert(seqs[k] == recs[k].0);
            assert(recorded_sequences(recs).contains(seqs[k]));
        }
        let w0 = ts[0].written() as int;
        let t = byte_total(rest);
        let b = recs[n].1 as int;
        let prev = ts[n].written() as int;
        assert(prev == (w0 + t) % m);
        assert(ts[n + 1].written() == (prev + b) % m) by (nonlinear_arith)
            requires
                0 <= prev < m,
                0 <= b < m,
                ts[n + 1].written() == (if prev + b > m - 1 { prev + b - m } else { prev + b }),
        ;
        lemma_add_mod_noop(w0 + t, b, m);
        assert(b % m == b) by (nonlinear_arith)
            requires
                0 <= b < m,
        ;
        assert(byte_total(recs) == t + b);
    }
}

} // verus!
