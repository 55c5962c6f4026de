//! Live-stream recording decisions: which engine records and from which URL,
//! the command lines of the FFmpeg and yt-dlp engines, how their exit is
//! reported, and which HLS segments the native engine fetches.
use std::collections::HashSet;
use std::path::PathBuf;
use std::time::Duration;
use vstd::prelude::*;
use vstd::string::StringExecFns;

use crate::error::Error;
use crate::events::RecordingMethod;
use crate::format::Format;
use crate::languages::views;
use crate::ranking::{any_selected, argmax_last, is_last_max, key_table};
use crate::text::{chars_of, decimal, decimal_int, push_decimal, push_decimal_signed};
use crate::video::{is_hls, total_rate_key, Video};

verus! {

broadcast use {vstd::string::group_string_axioms, vstd::std_specs::hash::group_hash_axioms};

/// The result of a live recording session.
#[derive(Debug, Clone)]
pub struct RecordingResult {
    /// The path to the recorded file.
    pub output_path: PathBuf,
    /// Total bytes written.
    pub total_bytes: u64,
    /// Total recording duration.
    pub total_duration: Duration,
    /// Number of HLS segments downloaded (0 for the FFmpeg and yt-dlp engines).
    pub segments_downloaded: u64,
}

/// The engine that records a live stream.
#[derive(Debug, Clone, Copy, PartialEq, Eq, Hash, Structural)]
pub enum RecordingEngine {
    /// HLS segments fetched over HTTP.
    Native,
    /// An FFmpeg process copying the HLS stream.
    Ffmpeg,
    /// A yt-dlp process recording from the start of the stream.
    YtDlp,
}

/// How a live recording is carried out.
#[derive(Debug, Clone, PartialEq, Eq)]
pub struct RecordingPlan {
    /// The engine that records.
    pub engine: RecordingEngine,
    /// The URL it records from: the HLS URL of the chosen format, or the
    /// video's web page for yt-dlp.
    pub url: String,
    /// The quality label for events, e.g. `"1080p"`.
    pub quality: String,
}

/// The video's web page URL, `"unknown"` when absent.
pub open spec fn page_url(v: Video) -> Seq<char> {
    match v.webpage_url {
        Some(u) => u@,
        None => "unknown"@,
    }
}

/// A quality label: `<height>p`, or the default when the height is unknown.
pub open spec fn quality_label(height: Option<u32>, default: Seq<char>) -> Seq<char> {
    match height {
        Some(h) => decimal(h as nat) + "p"@,
        None => default,
    }
}

/// Whether the video is live now.
pub open spec fn live_now(v: Video) -> bool {
    v.is_live == Some(true) || v.live_status@ == "is_live"@
}

/// `f` is the format a recording uses: the requested one, or else the HLS
/// format of highest total bitrate (the last of equal ones).
pub open spec fn recorded_format(v: Video, requested: Option<&Format>, f: Format) -> bool {
    match requested {
        Some(g) => f == *g,
        None => exists|i: int|
            is_last_max(v.total_rate_keys(), v.hls_formats(), i) && f == v.formats@[i],
    }
}

/// Renders a quality label.
pub fn make_quality_label(height: Option<u32>, default: &str) -> (r: String)
    ensures
        r@ == quality_label(height, default@),
{
    match height {
        Some(h) => {
            let mut s = String::new();
            push_decimal(&mut s, h as u64);
            s.append("p");
            s
        },
        None => String::from_str(default),
    }
}

fn page_url_of(v: &Video) -> (r: String)
    ensures
        r@ == page_url(*v),
{
    match &v.webpage_url {
        Some(u) => u.clone(),
        None => String::from_str("unknown"),
    }
}

/// Decides how to record a live video: a video that is not live is refused
/// with [`Error::LiveUnavailable`]; recording from the start goes to yt-dlp
/// with the web page URL; otherwise the requested format, or the HLS format
/// of highest total bitrate, is recorded natively or with FFmpeg (for the
/// `Fallback` and `YtDlp` methods) from its URL. No HLS format gives
/// [`Error::LiveRecording`]; a format without URL gives [`Error::FormatNoUrl`].
pub fn plan_recording(video: &Video, format: Option<&Format>, method: RecordingMethod, live_from_start: bool) -> (r: Result<RecordingPlan, Error>)
    ensures
        !live_now(*video) ==> (r matches Err(Error::LiveUnavailable { url, live_status, reason }) && url@ == page_url(*video)
            && live_status == video.live_status && reason@ == "video is not currently live"@),
        live_now(*video) && live_from_start ==> (r matches Ok(p) && p.engine == RecordingEngine::YtDlp && p.url@ == page_url(*video)
            && p.quality@ == quality_label(
            match format {
                Some(f) => f.video_resolution.height,
                None => None,
            },
            "best"@,
        )),
        live_now(*video) && !live_from_start && format is None && !any_selected(video.hls_formats()) ==> (r matches Err(
            Error::LiveRecording { url, reason },
        ) && url@ == page_url(*video) && reason@ == "no HLS formats available"@),
        live_now(*video) && !live_from_start && (format is Some || any_selected(video.hls_formats())) ==> exists|f: Format|
            recorded_format(*video, format, f) && match f.download_info.url {
                Some(u) => r matches Ok(p) && p.url == u && p.quality@ == quality_label(f.video_resolution.height, "unknown"@)
                    && p.engine == if method == RecordingMethod::Native {
                    RecordingEngine::Native
                } else {
                    RecordingEngine::Ffmpeg
                },
                None => r matches Err(Error::FormatNoUrl { video_id, format_id }) && format_id == f.format_id && video_id@
                    == match f.video_id {
                    Some(v) => v@,
                    None => "unknown"@,
                },
            },
{
    if !video.is_currently_live() {
        let url = page_url_of(video);
        return Err(
            Error::LiveUnavailable {
                url,
                live_status: video.live_status.clone(),
                reason: String::from_str("video is not currently live"),
            },
        );
    }
    if live_from_start {
        let height = match format {
            Some(f) => f.video_resolution.height,
            None => None,
        };
        let quality = make_quality_label(height, "best");
        return Ok(RecordingPlan { engine: RecordingEngine::YtDlp, url: page_url_of(video), quality });
    }
    let chosen: &Format = match format {
        Some(f) => f,
        None => {
            let mut keys: Vec<Vec<i128>> = Vec::new();
            let mut sel: Vec<bool> = Vec::new();
            let mut i: usize = 0;
            while i < video.formats.len()
                invariant
                    i <= video.formats.len(),
                    keys.len() == i,
                    sel.len() == i,
                    forall|k: int| 0 <= k < i ==> #[trigger] keys@[k]@ == total_rate_key(video.formats@[k]),
                    forall|k: int| 0 <= k < i ==> #[trigger] sel@[k] == is_hls(video.formats@[k]),
                decreases video.formats.len() - i,
            {
                let f = &video.formats[i];
                let mut k: Vec<i128> = Vec::new();
                k.push(if f.rates_info.total_rate.is_some() { 1 } else { 0 });
                k.push(crate::float_order::order_key_or_zero(f.rates_info.total_rate));
                assert(k@ =~= total_rate_key(*f));
                keys.push(k);
                sel.push(
                    match f.protocol {
                        crate::format::Protocol::M3U8Native => true,
                        _ => false,
                    },
                );
                i = i + 1;
            }
            assert(key_table(keys@) =~= video.total_rate_keys());
            assert(sel@ =~= video.hls_formats());
            match argmax_last(&keys, &sel, Ghost(2)) {
                Some(j) => &video.formats[j],
                None => {
                    let url = page_url_of(video);
                    return Err(Error::LiveRecording { url, reason: String::from_str("no HLS formats available") });
                },
            }
        },
    };
    assert(recorded_format(*video, format, *chosen));
    let stream_url = match chosen.url() {
        Ok(u) => u.clone(),
        Err(e) => return Err(e),
    };
    let quality = make_quality_label(chosen.video_resolution.height, "unknown");
    let engine = match method {
        RecordingMethod::Native => RecordingEngine::Native,
        _ => RecordingEngine::Ffmpeg,
    };
    Ok(RecordingPlan { engine, url: stream_url, quality })
}

/// The positions of the first playlist's segments that the native engine
/// writes before it starts polling: all of them, in playlist order, when
/// recording from the start of the stream; none otherwise (they are only
/// marked as seen).
pub fn initial_positions(first: &Vec<u64>, live_from_start: bool) -> (r: Vec<usize>)
    ensures
        live_from_start ==> r@ == Seq::new(first.len() as nat, |i: int| i as usize),
        !live_from_start ==> r@.len() == 0,
{
    let mut r: Vec<usize> = Vec::new();
    if live_from_start {
        let mut i: usize = 0;
        while i < first.len()
            invariant
                i <= first.len(),
                r@ == Seq::new(i as nat, |k: int| k as usize),
            decreases first.len() - i,
        {
            r.push(i);
            i = i + 1;
            assert(r@ =~= Seq::new(i as nat, |k: int| k as usize));
        }
    }
    r
}

/// Why the native engine stops before its next poll: the maximum duration
/// is checked first (`"max duration reached"`), then cancellation
/// (`"cancelled"`); `None` keeps it recording.
pub fn poll_stop_reason(elapsed_nanos: u64, max_nanos: Option<u64>, cancelled: bool) -> (r: Option<String>)
    ensures
        (max_nanos matches Some(m) && elapsed_nanos >= m) ==> (r matches Some(t) && t@ == "max duration reached"@),
        !(max_nanos matches Some(m) && elapsed_nanos >= m) && cancelled ==> (r matches Some(t) && t@ == "cancelled"@),
        !(max_nanos matches Some(m) && elapsed_nanos >= m) && !cancelled ==> r is None,
{
    if max_duration_reached(elapsed_nanos, max_nanos) {
        Some(String::from_str("max duration reached"))
    } else if cancelled {
        Some(String::from_str("cancelled"))
    } else {
        None
    }
}

/// Attempts the native engine makes to fetch one segment.
pub const SEGMENT_RETRY_ATTEMPTS: u32 = 3;

/// Whether a failed segment fetch, the `attempt`-th (counting from 1), is
/// tried again; the last failure is reported instead.
pub fn retry_segment_fetch(attempt: u32) -> (r: bool)
    ensures
        r == (attempt < SEGMENT_RETRY_ATTEMPTS),
{
    attempt < SEGMENT_RETRY_ATTEMPTS
}

/// What a poll of the HLS playlist decides.
#[derive(Debug, Clone, PartialEq, Eq)]
pub enum PollDecision {
    /// Stop recording, for this reason.
    Stop { reason: String },
    /// Download the segments at these playlist positions, in order; stop
    /// afterwards when `stop_after` (the playlist was final).
    Download { positions: Vec<usize>, stop_after: bool },
}

/// Whether a recording that has run `elapsed_nanos` has reached its maximum
/// duration (never without one).
pub fn max_duration_reached(elapsed_nanos: u64, max_nanos: Option<u64>) -> (r: bool)
    ensures
        r == (max_nanos matches Some(m) && elapsed_nanos >= m),
{
    match max_nanos {
        Some(m) => elapsed_nanos >= m,
        None => false,
    }
}

/// Interval between two progress reports of the native engine, in nanoseconds.
pub const PROGRESS_THROTTLE_NANOS: u64 = 50_000_000;

/// What the native engine has recorded so far: the HLS sequence numbers it
/// has seen, the segments it downloaded, the bytes it wrote and when it last
/// reported progress.
pub struct SegmentTracker {
    seen: HashSet<u64>,
    segments_downloaded: u64,
    bytes_written: u64,
    last_progress_nanos: u64,
}

impl SegmentTracker {
    /// The sequence numbers seen so far.
    pub closed spec fn seen_set(self) -> Set<u64> {
        self.seen@
    }

    /// The number of segments downloaded.
    pub closed spec fn downloaded(self) -> u64 {
        self.segments_downloaded
    }

    /// The number of bytes written (wrapping at 2^64).
    pub closed spec fn written(self) -> u64 {
        self.bytes_written
    }

    /// When progress was last reported, in nanoseconds since the start.
    pub closed spec fn last_report(self) -> u64 {
        self.last_progress_nanos
    }

    /// `next` is this tracker after recording a downloaded segment: the
    /// sequence number is seen, one more segment is downloaded and its bytes
    /// are added to those written (wrapping at 2^64).
    pub open spec fn records(self, next: SegmentTracker, sequence: u64, bytes: u64) -> bool {
        &&& next.seen_set() == self.seen_set().insert(sequence)
        &&& next.downloaded() == self.downloaded() + 1
        &&& next.written() == vstd::wrapping::u64_specs::wrapping_add(self.written(), bytes)
        &&& next.last_report() == self.last_report()
    }

    /// A tracker that has seen nothing.
    pub fn new() -> (r: SegmentTracker)
        ensures
            r.seen_set() == Set::<u64>::empty(),
            r.downloaded() == 0,
            r.written() == 0,
            r.last_report() == 0,
    {
        SegmentTracker { seen: HashSet::new(), segments_downloaded: 0, bytes_written: 0, last_progress_nanos: 0 }
    }

    /// Marks every sequence number of the first playlist as seen, so that
    /// polling never downloads them again.
    pub fn seed(&mut self, sequences: &Vec<u64>)
        ensures
            final(self).seen_set() == old(self).seen_set() + sequences@.to_set(),
            final(self).downloaded() == old(self).downloaded(),
            final(self).written() == old(self).written(),
            final(self).last_report() == old(self).last_report(),
    {
        let mut i: usize = 0;
        while i < sequences.len()
            invariant
                i <= sequences.len(),
                self.seen@ == old(self).seen@ + sequences@.take(i as int).to_set(),
                self.segments_downloaded == old(self).segments_downloaded,
                self.bytes_written == old(self).bytes_written,
                self.last_progress_nanos == old(self).last_progress_nanos,
            decreases sequences.len() - i,
        {
            self.seen.insert(sequences[i]);
            proof {
                assert(sequences@.take(i + 1) =~= sequences@.take(i as int).push(sequences@[i as int]));
                sequences@.take(i as int).lemma_push_to_set_commute(sequences@[i as int]);
            }
            i = i + 1;
            assert(self.seen@ =~= old(self).seen@ + sequences@.take(i as int).to_set());
        }
        assert(sequences@.take(i as int) =~= sequences@);
    }

    /// The positions, in playlist order, of the segments not seen yet.
    pub fn new_segment_positions(&self, sequences: &Vec<u64>) -> (r: Vec<usize>)
        ensures
            forall|k: int| 0 <= k < r.len() ==> #[trigger] r@[k] < sequences.len() && !self.seen_set().contains(sequences@[r@[k] as int]),
            forall|p: int, q: int| 0 <= p < q < r.len() ==> #[trigger] r@[p] < #[trigger] r@[q],
            forall|i: int| 0 <= i < sequences.len() && !self.seen_set().contains(#[trigger] sequences@[i]) ==> r@.contains(i as usize),
    {
        let mut r: Vec<usize> = Vec::new();
        let mut i: usize = 0;
        while i < sequences.len()
            invariant
                i <= sequences.len(),
                forall|k: int| 0 <= k < r.len() ==> #[trigger] r@[k] < i && !self.seen@.contains(sequences@[r@[k] as int]),
                forall|p: int, q: int| 0 <= p < q < r.len() ==> #[trigger] r@[p] < #[trigger] r@[q],
                forall|j: int| 0 <= j < i && !self.seen@.contains(#[trigger] sequences@[j]) ==> r@.contains(j as usize),
            decreases sequences.len() - i,
        {
            if !self.seen.contains(&sequences[i]) {
                let ghost before = r@;
                r.push(i);
                proof {
                    assert(r@[before.len() as int] == i);
                    assert forall|j: int| 0 <= j < i + 1 && !self.seen@.contains(#[trigger] sequences@[j]) implies r@.contains(j as usize) by {
                        if j < i {
                            let k = choose|k: int| 0 <= k < before.len() && before[k] == j as usize;
                            assert(r@[k] == j as usize);
                        }
                    }
                }
            }
            i = i + 1;
        }
        r
    }

    /// Whether the stream has ended: the playlist is final and every segment
    /// in it has been seen.
    pub fn stream_ended(&self, sequences: &Vec<u64>, is_endlist: bool) -> (r: bool)
        ensures
            r == (is_endlist && forall|i: int| 0 <= i < sequences.len() ==> self.seen_set().contains(#[trigger] sequences@[i])),
    {
        if !is_endlist {
            return false;
        }
        let mut i: usize = 0;
        while i < sequences.len()
            invariant
                i <= sequences.len(),
                forall|j: int| 0 <= j < i ==> self.seen@.contains(#[trigger] sequences@[j]),
            decreases sequences.len() - i,
        {
            if !self.seen.contains(&sequences[i]) {
                return false;
            }
            i = i + 1;
        }
        true
    }

    /// Records a downloaded segment: its sequence number is seen, one more
    /// segment is downloaded and its bytes are written.
    pub fn record_segment(&mut self, sequence: u64, bytes: u64)
        requires
            old(self).downloaded() < u64::MAX,
        ensures
            old(self).records(*final(self), sequence, bytes),
    {
        self.seen.insert(sequence);
        self.segments_downloaded = self.segments_downloaded + 1;
        self.bytes_written = self.bytes_written.wrapping_add(bytes);
    }

    /// Whether progress is due at `now_nanos` (at least
    /// [`PROGRESS_THROTTLE_NANOS`] since the last report); a due report is
    /// remembered.
    pub fn progress_due(&mut self, now_nanos: u64) -> (r: bool)
        requires
            now_nanos >= old(self).last_report(),
        ensures
            r == (now_nanos - old(self).last_report() >= PROGRESS_THROTTLE_NANOS),
            final(self).last_report() == if r { now_nanos } else { old(self).last_report() },
            final(self).seen_set() == old(self).seen_set(),
            final(self).downloaded() == old(self).downloaded(),
            final(self).written() == old(self).written(),
    {
        if now_nanos - self.last_progress_nanos >= PROGRESS_THROTTLE_NANOS {
            self.last_progress_nanos = now_nanos;
            true
        } else {
            false
        }
    }

    /// What one poll of the playlist decides: stop when the stream has ended
    /// and every segment was seen, else download the unseen segments (by
    /// position, in playlist order) and stop afterwards when the playlist is
    /// final.
    pub fn decide_poll(&self, sequences: &Vec<u64>, is_endlist: bool) -> (r: PollDecision)
        ensures
            (is_endlist && forall|i: int| 0 <= i < sequences.len() ==> self.seen_set().contains(#[trigger] sequences@[i]))
                ==> (r matches PollDecision::Stop { reason } && reason@ == "stream ended"@),
            !(is_endlist && forall|i: int| 0 <= i < sequences.len() ==> self.seen_set().contains(#[trigger] sequences@[i]))
                ==> (r matches PollDecision::Download { positions, stop_after } && stop_after == is_endlist && {
                &&& forall|k: int| 0 <= k < positions.len() ==> #[trigger] positions@[k] < sequences.len() && !self.seen_set().contains(sequences@[positions@[k] as int])
                &&& forall|p: int, q: int| 0 <= p < q < positions.len() ==> #[trigger] positions@[p] < #[trigger] positions@[q]
                &&& forall|i: int| 0 <= i < sequences.len() && !self.seen_set().contains(#[trigger] sequences@[i]) ==> positions@.contains(i as usize)
            }),
    {
        if self.stream_ended(sequences, is_endlist) {
            PollDecision::Stop { reason: String::from_str("stream ended") }
        } else {
            PollDecision::Download { positions: self.new_segment_positions(sequences), stop_after: is_endlist }
        }
    }

    /// The number of segments downloaded.
    pub fn segments_downloaded(&self) -> (r: u64)
        ensures
            r == self.downloaded(),
    {
        self.segments_downloaded
    }

    /// The number of bytes written.
    pub fn bytes_written(&self) -> (r: u64)
        ensures
            r == self.written(),
    {
        self.bytes_written
    }
}

/// The FFmpeg command line of a recording:
/// `[-live_start_index 0] -i <url> -c copy [-t <secs>] -y <output>`.
pub open spec fn ffmpeg_arg_list(url: Seq<char>, output: Seq<char>, max_secs: Option<u64>, live_from_start: bool) -> Seq<Seq<char>> {
    (if live_from_start {
        seq!["-live_start_index"@, "0"@]
    } else {
        Seq::empty()
    }) + seq!["-i"@, url, "-c"@, "copy"@] + (match max_secs {
        Some(s) => seq!["-t"@, decimal(s as nat)],
        None => Seq::empty(),
    }) + seq!["-y"@, output]
}

fn push_str(v: &mut Vec<String>, s: &str)
    ensures
        views(final(v)@) == views(old(v)@).push(s@),
{
    v.push(String::from_str(s));
    assert(views(v@) =~= views(old(v)@).push(s@));
}

/// Builds the FFmpeg arguments that copy the HLS stream at `url` into
/// `output`, optionally from the first available segment and for at most
/// `max_secs` seconds.
pub fn ffmpeg_args(url: &str, output: &str, max_secs: Option<u64>, live_from_start: bool) -> (r: Vec<String>)
    ensures
        views(r@) == ffmpeg_arg_list(url@, output@, max_secs, live_from_start),
{
    let mut args: Vec<String> = Vec::new();
    let ghost front: Seq<Seq<char>> = if live_from_start {
        seq!["-live_start_index"@, "0"@]
    } else {
        Seq::empty()
    };
    let ghost middle: Seq<Seq<char>> = seq!["-i"@, url@, "-c"@, "copy"@];
    let ghost limit: Seq<Seq<char>> = match max_secs {
        Some(secs) => seq!["-t"@, decimal(secs as nat)],
        None => Seq::empty(),
    };
    if live_from_start {
        push_str(&mut args, "-live_start_index");
        push_str(&mut args, "0");
    }
    assert(views(args@) =~= front);
    push_str(&mut args, "-i");
    push_str(&mut args, url);
    push_str(&mut args, "-c");
    push_str(&mut args, "copy");
    assert(views(args@) =~= front + middle);
    match max_secs {
        Some(secs) => {
            push_str(&mut args, "-t");
            let mut t = String::new();
            push_decimal(&mut t, secs);
            let ghost before = views(args@);
            args.push(t);
            assert(views(args@) =~= before.push(decimal(secs as nat)));
        },
        None => {},
    }
    assert(views(args@) =~= front + middle + limit);
    push_str(&mut args, "-y");
    push_str(&mut args, output);
    assert(views(args@) =~= ffmpeg_arg_list(url@, output@, max_secs, live_from_start));
    args
}

/// The yt-dlp command line of a recording from the start of the stream:
/// `--live-from-start --no-part -o <output> <extra args...> <url>`.
pub open spec fn ytdlp_arg_list(url: Seq<char>, output: Seq<char>, extra: Seq<Seq<char>>) -> Seq<Seq<char>> {
    seq!["--live-from-start"@, "--no-part"@, "-o"@, output] + extra + seq![url]
}

/// Builds the yt-dlp arguments that record `url` from its start into
/// `output`, with the user's extra arguments (cookies, proxy, ...).
pub fn ytdlp_args(url: &str, output: &str, extra_args: &Vec<String>) -> (r: Vec<String>)
    ensures
        views(r@) == ytdlp_arg_list(url@, output@, views(extra_args@)),
{
    let mut args: Vec<String> = Vec::new();
    push_str(&mut args, "--live-from-start");
    push_str(&mut args, "--no-part");
    push_str(&mut args, "-o");
    push_str(&mut args, output);
    let ghost head = views(args@);
    let mut i: usize = 0;
    while i < extra_args.len()
        invariant
            i <= extra_args.len(),
            views(args@) == head + views(extra_args@.take(i as int)),
        decreases extra_args.len() - i,
    {
        let ghost before = views(args@);
        let item = extra_args[i].clone();
        args.push(item);
        assert(views(args@) =~= before.push(extra_args@[i as int]@));
        assert(views(extra_args@.take(i + 1)) =~= views(extra_args@.take(i as int)).push(extra_args@[i as int]@));
        i = i + 1;
        assert(views(args@) =~= head + views(extra_args@.take(i as int)));
    }
    assert(extra_args@.take(i as int) =~= extra_args@);
    push_str(&mut args, url);
    assert(views(args@) =~= ytdlp_arg_list(url@, output@, views(extra_args@)));
    args
}

/// The position just after the last `\n` before position `end`, or 0.
pub open spec fn line_start(s: Seq<char>, end: int) -> int
    decreases end,
{
    if end <= 0 {
        0
    } else if s[end - 1] == '\n' {
        end
    } else {
        line_start(s, end - 1)
    }
}

/// The last line of a text as `str::lines` yields it: lines end at `\n`,
/// a `\r` before that `\n` is dropped, and a final line ending does not
/// start a new line; `None` for the empty text.
pub open spec fn last_line(s: Seq<char>) -> Option<Seq<char>> {
    if s.len() == 0 {
        None
    } else if s.last() == '\n' {
        let body = s.drop_last();
        let line = body.subrange(line_start(body, body.len() as int), body.len() as int);
        if line.len() > 0 && line.last() == '\r' {
            Some(line.drop_last())
        } else {
            Some(line)
        }
    } else {
        Some(s.subrange(line_start(s, s.len() as int), s.len() as int))
    }
}

/// The last line of a text, or the empty string (`lines().last().unwrap_or("")`).
pub open spec fn last_line_or_empty(s: Seq<char>) -> Seq<char> {
    match last_line(s) {
        Some(l) => l,
        None => Seq::empty(),
    }
}

fn line_start_of(s: &Vec<char>, end: usize) -> (r: usize)
    requires
        end <= s.len(),
    ensures
        r == line_start(s@, end as int),
        r <= end,
{
    let mut e = end;
    while e > 0 && s[e - 1] != '\n'
        invariant
            e <= end <= s.len(),
            line_start(s@, end as int) == line_start(s@, e as int),
        decreases e,
    {
        e = e - 1;
    }
    e
}

/// Appends the last line of `text` (nothing when it is empty).
fn append_last_line(out: &mut String, text: &str)
    ensures
        final(out)@ == old(out)@ + last_line_or_empty(text@),
{
    let s = chars_of(text);
    if s.len() == 0 {
        assert(old(out)@ + last_line_or_empty(text@) =~= old(out)@);
        return;
    }
    let trailing = s[s.len() - 1] == '\n';
    let body_end = if trailing { s.len() - 1 } else { s.len() };
    let ghost body = s@.subrange(0, body_end as int);
    let start = line_start_of(&s, body_end);
    proof {
        lemma_line_start_prefix(s@, body_end as int, body_end as int);
    }
    let mut end = body_end;
    assert(out@ =~= old(out)@ + s@.subrange(start as int, start as int));
    if trailing && end > start && s[end - 1] == '\r' {
        end = end - 1;
    }
    let mut k = start;
    while k < end
        invariant
            start <= k <= end <= s.len(),
            out@ == old(out)@ + s@.subrange(start as int, k as int),
        decreases end - k,
    {
        out.push(s[k]);
        k = k + 1;
        assert(out@ =~= old(out)@ + s@.subrange(start as int, k as int));
    }
    proof {
        if trailing {
            assert(s@.drop_last() =~= body);
            let line = body.subrange(line_start(body, body.len() as int), body.len() as int);
            assert(line =~= s@.subrange(start as int, body_end as int));
            if line.len() > 0 && line.last() == '\r' {
                assert(line.drop_last() =~= s@.subrange(start as int, end as int));
            }
        } else {
            assert(body =~= s@);
        }
    }
}

proof fn lemma_line_start_prefix(s: Seq<char>, n: int, end: int)
    requires
        0 <= end <= n <= s.len(),
    ensures
        line_start(s.subrange(0, n), end) == line_start(s, end),
    decreases end,
{
    if end > 0 {
        assert(s.subrange(0, n)[end - 1] == s[end - 1]);
        lemma_line_start_prefix(s, n, end - 1);
    }
}

/// Why a recording process stopped on its own, and the error to report: a
/// zero exit code is the stream ending (`"stream ended"`, no error);
/// another code gives `"<tool> exited with code <code>: <last stderr line>"`
/// and [`Error::CommandFailed`] with the tool's name, the code and stderr.
pub fn process_exit_outcome(tool: &str, code: i32, stderr: String) -> (r: (String, Option<Error>))
    ensures
        code == 0 ==> r.0@ == "stream ended"@ && r.1 is None,
        code != 0 ==> r.0@ == tool@ + " exited with code "@ + decimal_int(code as int) + ": "@ + last_line_or_empty(stderr@)
            && (r.1 matches Some(Error::CommandFailed { command, exit_code, stderr: e }) && command@ == tool@ && exit_code
            == code && e == stderr),
{
    if code == 0 {
        return (String::from_str("stream ended"), None);
    }
    let mut reason = String::from_str(tool);
    reason.append(" exited with code ");
    push_decimal_signed(&mut reason, code as i64);
    reason.append(": ");
    append_last_line(&mut reason, stderr.as_str());
    let err = Error::CommandFailed { command: String::from_str(tool), exit_code: code, stderr };
    (reason, Some(err))
}

} // verus!
