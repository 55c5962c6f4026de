//! Reading FFmpeg's progress lines on stderr, such as
//! `size=  12288kB time=00:00:41.16 bitrate=2444.1kbits/s speed=1.00x`.
//!
//! The size becomes a byte count. The bitrate is a decimal number of kbit/s
//! or Mbit/s; its text and unit are extracted here and turned into a
//! floating-point value by the caller.
use vstd::prelude::*;

use crate::text::{chars_of, find_from, occurs_at};

verus! {

/// Unicode white space (`char::is_whitespace`).
pub open spec fn is_white(c: char) -> bool {
    ||| ('\u{9}' <= c && c <= '\u{d}')
    ||| c == ' '
    ||| c == '\u{85}'
    ||| c == '\u{a0}'
    ||| c == '\u{1680}'
    ||| ('\u{2000}' <= c && c <= '\u{200a}')
    ||| c == '\u{2028}'
    ||| c == '\u{2029}'
    ||| c == '\u{202f}'
    ||| c == '\u{205f}'
    ||| c == '\u{3000}'
}

/// Whether a character is white space.
pub fn white(c: char) -> (r: bool)
    ensures
        r == is_white(c),
{
    ('\u{9}' <= c && c <= '\u{d}') || c == ' ' || c == '\u{85}' || c == '\u{a0}' || c == '\u{1680}' || ('\u{2000}' <= c
        && c <= '\u{200a}') || c == '\u{2028}' || c == '\u{2029}' || c == '\u{202f}' || c == '\u{205f}' || c == '\u{3000}'
}

/// An ASCII digit.
pub open spec fn is_digit(c: char) -> bool {
    '0' <= c && c <= '9'
}

/// The first position at or after `from` where `needle` occurs in `hay`
/// (`str::find`).
pub open spec fn first_occurrence(hay: Seq<char>, needle: Seq<char>, from: int) -> Option<int>
    decreases hay.len() + 1 - from,
{
    if from < 0 || from > hay.len() {
        None
    } else if occurs_at(hay, needle, from) {
        Some(from)
    } else {
        first_occurrence(hay, needle, from + 1)
    }
}

/// The position of the first character at or after `from` that is not white
/// space (the start of `trim_start`).
pub open spec fn skip_white(s: Seq<char>, from: int) -> int
    decreases s.len() - from,
{
    if from < 0 || from >= s.len() || !is_white(s[from]) {
        from
    } else {
        skip_white(s, from + 1)
    }
}

/// The position of the first character at or after `from` that is not an
/// ASCII digit (or, with `dots`, a digit or a `.`); `None` when there is none.
pub open spec fn first_outside(s: Seq<char>, from: int, dots: bool) -> Option<int>
    decreases s.len() - from,
{
    if from < 0 || from >= s.len() {
        None
    } else if !(is_digit(s[from]) || (dots && s[from] == '.')) {
        Some(from)
    } else {
        first_outside(s, from + 1, dots)
    }
}

/// The number that a string of ASCII digits spells.
pub open spec fn digits_value(s: Seq<char>) -> nat
    decreases s.len(),
{
    if s.len() == 0 {
        0
    } else {
        digits_value(s.drop_last()) * 10 + ((s.last() as u32) - 48) as nat
    }
}

/// The `size=` field of a line: the number after `size=` (white space
/// skipped), which must be followed by some other character, and whether its
/// unit (after further white space) starts with `m`/`M`.
pub open spec fn size_field(line: Seq<char>) -> Option<(nat, bool)> {
    match first_occurrence(line, "size="@, 0) {
        None => None,
        Some(i) => {
            let start = skip_white(line, i + 5);
            match first_outside(line, start, false) {
                None => None,
                Some(end) => {
                    if end == start || digits_value(line.subrange(start, end)) > u64::MAX {
                        None
                    } else {
                        let u = skip_white(line, end);
                        let mega = u < line.len() && (line[u] == 'm' || line[u] == 'M');
                        Some((digits_value(line.subrange(start, end)), mega))
                    }
                },
            }
        },
    }
}

/// The byte count of a `size=` field: kB by default, MB when the unit starts
/// with `m`.
pub open spec fn size_bytes(field: (nat, bool)) -> nat {
    if field.1 {
        field.0 * 1024 * 1024
    } else {
        field.0 * 1024
    }
}

/// The byte count of the `size=` field fits in a `u64`.
pub open spec fn size_fits(line: Seq<char>) -> bool {
    size_field(line) matches Some(f) ==> size_bytes(f) <= u64::MAX
}

/// The `bitrate=` field of a line: the text of digits and dots after
/// `bitrate=` (white space skipped), which must be followed by some other
/// character, and whether that character is `m`/`M` (Mbit/s rather than
/// kbit/s).
pub open spec fn bitrate_field(line: Seq<char>) -> Option<(Seq<char>, bool)> {
    match first_occurrence(line, "bitrate="@, 0) {
        None => None,
        Some(i) => {
            let start = skip_white(line, i + 8);
            match first_outside(line, start, true) {
                None => None,
                Some(end) => Some((line.subrange(start, end), line[end] == 'm' || line[end] == 'M')),
            }
        },
    }
}

/// The first position at or after `from` where `needle` occurs.
pub fn find_first(hay: &Vec<char>, needle: &Vec<char>, from: usize) -> (r: Option<usize>)
    ensures
        r matches Some(i) ==> first_occurrence(hay@, needle@, from as int) == Some(i as int) && occurs_at(
            hay@,
            needle@,
            i as int,
        ),
        r is None ==> first_occurrence(hay@, needle@, from as int) is None,
{
    let r = find_from(hay, needle, from);
    proof {
        lemma_first_occurrence(hay@, needle@, from as int, r);
    }
    r
}

proof fn lemma_first_occurrence(hay: Seq<char>, needle: Seq<char>, from: int, r: Option<usize>)
    requires
        0 <= from,
        match r {
            Some(i) => from <= i && occurs_at(hay, needle, i as int) && forall|j: int|
                from <= j < i ==> !#[trigger] occurs_at(hay, needle, j),
            None => forall|j: int| from <= j ==> !#[trigger] occurs_at(hay, needle, j),
        },
    ensures
        r matches Some(i) ==> first_occurrence(hay, needle, from) == Some(i as int),
        r is None ==> first_occurrence(hay, needle, from) is None,
    decreases hay.len() + 1 - from,
{
    if from > hay.len() {
        if let Some(i) = r {
            assert(occurs_at(hay, needle, i as int));
        }
    } else if occurs_at(hay, needle, from) {
    } else {
        lemma_first_occurrence(hay, needle, from + 1, r);
    }
}

/// The position of the first non-white character at or after `from`.
pub fn skip_white_from(s: &Vec<char>, from: usize) -> (r: usize)
    requires
        from <= s.len(),
    ensures
        r == skip_white(s@, from as int),
        from <= r <= s.len(),
{
    let mut i = from;
    while i < s.len() && white(s[i])
        invariant
            from <= i <= s.len(),
            skip_white(s@, from as int) == skip_white(s@, i as int),
        decreases s.len() - i,
    {
        i = i + 1;
    }
    i
}

/// The position of the first character at or after `from` outside the
/// digits (and dots, with `dots`).
pub fn first_outside_from(s: &Vec<char>, from: usize, dots: bool) -> (r: Option<usize>)
    requires
        from <= s.len(),
    ensures
        r matches Some(i) ==> first_outside(s@, from as int, dots) == Some(i as int) && from <= i < s.len(),
        r is None ==> first_outside(s@, from as int, dots) is None,
{
    let mut i = from;
    while i < s.len()
        invariant
            from <= i <= s.len(),
            first_outside(s@, from as int, dots) == first_outside(s@, i as int, dots),
        decreases s.len() - i,
    {
        let c = s[i];
        if !(('0' <= c && c <= '9') || (dots && c == '.')) {
            return Some(i);
        }
        i = i + 1;
    }
    None
}

/// The number spelled by the digits `s[start..end]`, `None` if it exceeds `u64`.
pub fn digits_to_u64(s: &Vec<char>, start: usize, end: usize) -> (r: Option<u64>)
    requires
        start <= end <= s.len(),
        forall|k: int| start <= k < end ==> is_digit(#[trigger] s@[k]),
    ensures
        r matches Some(v) ==> v == digits_value(s@.subrange(start as int, end as int)),
        r is None ==> digits_value(s@.subrange(start as int, end as int)) > u64::MAX,
{
    let mut v: u64 = 0;
    let mut i = start;
    while i < end
        invariant
            start <= i <= end <= s.len(),
            forall|k: int| start <= k < end ==> is_digit(#[trigger] s@[k]),
            v == digits_value(s@.subrange(start as int, i as int)),
        decreases end - i,
    {
        let d: u64 = (s[i] as u32 - 48) as u64;
        assert(s@.subrange(start as int, i + 1).drop_last() =~= s@.subrange(start as int, i as int));
        if v > (u64::MAX - d) / 10 {
            proof {
                assert(digits_value(s@.subrange(start as int, i + 1)) == v * 10 + d);
                lemma_digits_grow(s@.subrange(start as int, end as int), (i + 1 - start) as int);
                assert(s@.subrange(start as int, end as int).subrange(0, (i + 1 - start) as int) =~= s@.subrange(start as int, i + 1));
            }
            return None;
        }
        v = v * 10 + d;
        i = i + 1;
    }
    Some(v)
}

/// A longer prefix of digits spells a number at least as large.
proof fn lemma_digits_grow(s: Seq<char>, k: int)
    requires
        0 <= k <= s.len(),
    ensures
        digits_value(s.subrange(0, k)) <= digits_value(s),
    decreases s.len() - k,
{
    if k < s.len() {
        lemma_digits_grow(s, k + 1);
        assert(s.subrange(0, k + 1).drop_last() =~= s.subrange(0, k));
    } else {
        assert(s.subrange(0, k) =~= s);
    }
}

/// The number and unit flag of the `size=` field.
pub fn size_field_of(line: &Vec<char>) -> (r: Option<(u64, bool)>)
    ensures
        match r {
            Some((n, mega)) => size_field(line@) == Some((n as nat, mega)),
            None => size_field(line@) is None,
        },
{
    let pat = chars_of("size=");
    let i = match find_first(line, &pat, 0) {
        Some(i) => i,
        None => return None,
    };
    proof {
        reveal_strlit("size=");
    }
    assert(occurs_at(line@, "size="@, i as int));
    assert("size="@.len() == 5);
    assert(i + 5 <= line@.len());
    let len = line.len();
    assert(i + 5 <= len);
    let start = skip_white_from(line, i + 5);
    let end = match first_outside_from(line, start, false) {
        Some(e) => e,
        None => return None,
    };
    if end == start {
        return None;
    }
    proof {
        lemma_run_digits(line@, start as int, end as int);
    }
    let n = match digits_to_u64(line, start, end) {
        Some(n) => n,
        None => return None,
    };
    let u = skip_white_from(line, end);
    let mega = u < line.len() && (line[u] == 'm' || line[u] == 'M');
    Some((n, mega))
}

/// Everything between `from` and the first non-digit is a digit.
proof fn lemma_run_digits(s: Seq<char>, from: int, end: int)
    requires
        0 <= from <= end,
        first_outside(s, from, false) == Some(end),
    ensures
        forall|k: int| from <= k < end ==> is_digit(#[trigger] s[k]),
    decreases s.len() - from,
{
    if from < end {
        lemma_run_digits(s, from + 1, end);
    }
}

/// Whether the byte count of the `size=` field of a line fits in a `u64`
/// (true when the line has no readable `size=` field).
pub fn ffmpeg_size_fits(line: &str) -> (r: bool)
    ensures
        r == size_fits(line@),
{
    let chars = chars_of(line);
    match size_field_of(&chars) {
        Some((n, mega)) => {
            assert(n <= 0xffff_ffff_ffff_ffffu64 / 0x10_0000u64 <==> n * 1024 * 1024 <= 0xffff_ffff_ffff_ffffu64) by (nonlinear_arith);
            assert(n <= 0xffff_ffff_ffff_ffffu64 / 1024u64 <==> n * 1024 <= 0xffff_ffff_ffff_ffffu64) by (nonlinear_arith);
            if mega {
                n <= 0xffff_ffff_ffff_ffffu64 / 0x10_0000u64
            } else {
                n <= 0xffff_ffff_ffff_ffffu64 / 1024u64
            }
        },
        None => true,
    }
}

/// Extracts the `size=` field of an FFmpeg stats line and converts it to
/// bytes (`n × 1024`, or `n × 1024 × 1024` for an `m` unit).
pub fn parse_ffmpeg_size(line: &str) -> (r: Option<u64>)
    requires
        size_fits(line@),
    ensures
        match size_field(line@) {
            Some(f) => r == Some(size_bytes(f) as u64),
            None => r is None,
        },
{
    let chars = chars_of(line);
    match size_field_of(&chars) {
        Some((n, mega)) => {
            if mega {
                Some(n * 1024 * 1024)
            } else {
                Some(n * 1024)
            }
        },
        None => None,
    }
}

/// The text of the number of the `bitrate=` field and whether its unit is
/// Mbit/s rather than kbit/s.
#[derive(Debug, Clone, PartialEq, Eq)]
pub struct BitrateText {
    /// The digits and dots of the number, e.g. `"2444.1"`.
    pub number: String,
    /// The unit starts with `m`: megabits per second.
    pub mega: bool,
}

/// Extracts the `bitrate=` field of an FFmpeg stats line: the number's text
/// and its unit.
pub fn parse_ffmpeg_bitrate_field(line: &str) -> (r: Option<BitrateText>)
    ensures
        match bitrate_field(line@) {
            Some(f) => r matches Some(b) && b.number@ == f.0 && b.mega == f.1,
            None => r is None,
        },
{
    let chars = chars_of(line);
    let pat = chars_of("bitrate=");
    let i = match find_first(&chars, &pat, 0) {
        Some(i) => i,
        None => return None,
    };
    proof {
        reveal_strlit("bitrate=");
    }
    assert(occurs_at(chars@, "bitrate="@, i as int));
    let start = skip_white_from(&chars, i + 8);
    let end = match first_outside_from(&chars, start, true) {
        Some(e) => e,
        None => return None,
    };
    let mut number = String::new();
    let mut k = start;
    while k < end
        invariant
            start <= k <= end < chars.len(),
            number@ == chars@.subrange(start as int, k as int),
        decreases end - k,
    {
        number.push(chars[k]);
        k = k + 1;
        assert(number@ =~= chars@.subrange(start as int, k as int));
    }
    let mega = chars[end] == 'm' || chars[end] == 'M';
    Some(BitrateText { number, mega })
}

/// What a stats line reports: the bytes written so far and, when present,
/// the bitrate field.
#[derive(Debug, Clone, PartialEq, Eq)]
pub struct FfmpegStats {
    /// Total bytes written to the output file so far.
    pub bytes: u64,
    /// The bitrate field, when the line has one.
    pub bitrate: Option<BitrateText>,
}

/// Reads one FFmpeg stderr line: only lines with both `size=` and `time=`
/// and a readable size are stats lines.
pub fn parse_ffmpeg_stats_line(line: &str) -> (r: Option<FfmpegStats>)
    requires
        size_fits(line@),
    ensures
        ({
            let is_stats = first_occurrence(line@, "size="@, 0) is Some && first_occurrence(line@, "time="@, 0) is Some;
            match r {
                Some(st) => {
                    &&& is_stats
                    &&& size_field(line@) matches Some(f) && st.bytes == size_bytes(f)
                    &&& match bitrate_field(line@) {
                        Some(b) => st.bitrate matches Some(t) && t.number@ == b.0 && t.mega == b.1,
                        None => st.bitrate is None,
                    }
                },
                None => !is_stats || size_field(line@) is None,
            }
        }),
{
    let chars = chars_of(line);
    let size_pat = chars_of("size=");
    let time_pat = chars_of("time=");
    if find_first(&chars, &size_pat, 0).is_none() || find_first(&chars, &time_pat, 0).is_none() {
        return None;
    }
    let bytes = match parse_ffmpeg_size(line) {
        Some(b) => b,
        None => return None,
    };
    let bitrate = parse_ffmpeg_bitrate_field(line);
    Some(FfmpegStats { bytes, bitrate })
}

} // verus!
