//! Character-level helpers on strings: reading a string's characters, ASCII
//! case folding, substring search and decimal rendering of integers.
use vstd::prelude::*;
use vstd::std_specs::iter::IteratorSpec;

verus! {

broadcast use vstd::string::group_string_axioms;

/// The characters of `s`, in order.
pub fn chars_of(s: &str) -> (v: Vec<char>)
    ensures
        v@ == s@,
{
    let mut it = s.chars();
    let mut v: Vec<char> = Vec::new();
    loop
        invariant
            v@ + it.remaining() == s@,
            it.obeys_prophetic_iter_laws(),
        ensures
            v@ == s@,
        decreases s@.len() - v@.len(),
    {
        let next = it.next();
        match next {
            Some(c) => {
                v.push(c);
            },
            None => {
                assert(v@ =~= s@);
                break;
            },
        }
    }
    v
}

/// ASCII lower-casing of one character (`char::to_ascii_lowercase`).
pub open spec fn ascii_lower(c: char) -> char {
    if 'A' <= c && c <= 'Z' {
        ((c as u32) + 32) as char
    } else {
        c
    }
}

/// ASCII lower-casing of every character of a sequence.
pub open spec fn ascii_lower_seq(s: Seq<char>) -> Seq<char> {
    s.map_values(|c: char| ascii_lower(c))
}

/// Computes [`ascii_lower`].
pub fn lower_char(c: char) -> (r: char)
    ensures
        r == ascii_lower(c),
{
    if 'A' <= c && c <= 'Z' {
        let b: u8 = (c as u8) + 32;
        b as char
    } else {
        c
    }
}

/// The ASCII-lower-cased characters of `s`.
pub fn lower_chars(s: &str) -> (v: Vec<char>)
    ensures
        v@ == ascii_lower_seq(s@),
{
    let cs = chars_of(s);
    let mut v: Vec<char> = Vec::new();
    let mut i: usize = 0;
    while i < cs.len()
        invariant
            i <= cs.len(),
            v@ == ascii_lower_seq(cs@.take(i as int)),
        decreases cs.len() - i,
    {
        let c = lower_char(cs[i]);
        v.push(c);
        i = i + 1;
        assert(v@ =~= ascii_lower_seq(cs@.take(i as int)));
    }
    assert(cs@.take(cs.len() as int) =~= cs@);
    v
}

/// `needle` occurs in `hay` as a contiguous block.
pub open spec fn has_infix(hay: Seq<char>, needle: Seq<char>) -> bool {
    exists|i: int| 0 <= i && i + needle.len() <= hay.len() && #[trigger] hay.subrange(i, i + needle.len()) == needle
}

/// `needle` occurs in `hay` starting at position `i`.
pub open spec fn occurs_at(hay: Seq<char>, needle: Seq<char>, i: int) -> bool {
    0 <= i && i + needle.len() <= hay.len() && forall|k: int| 0 <= k < needle.len() ==> hay[i + k] == #[trigger] needle[k]
}

/// Whether `needle` occurs in `hay` at position `i`.
pub fn matches_at(hay: &Vec<char>, needle: &Vec<char>, i: usize) -> (r: bool)
    ensures
        r == occurs_at(hay@, needle@, i as int),
{
    if i > hay.len() || needle.len() > hay.len() - i {
        return false;
    }
    let mut k: usize = 0;
    while k < needle.len()
        invariant
            i + needle.len() <= hay.len(),
            k <= needle.len(),
            forall|m: int| 0 <= m < k ==> hay@[i + m] == #[trigger] needle@[m],
        decreases needle.len() - k,
    {
        if hay[i + k] != needle[k] {
            return false;
        }
        k = k + 1;
    }
    true
}

/// The first position at or after `from` where `needle` occurs in `hay`.
pub fn find_from(hay: &Vec<char>, needle: &Vec<char>, from: usize) -> (r: Option<usize>)
    ensures
        match r {
            Some(i) => from <= i && occurs_at(hay@, needle@, i as int) && forall|j: int|
                from <= j < i ==> !#[trigger] occurs_at(hay@, needle@, j),
            None => forall|j: int| from <= j ==> !#[trigger] occurs_at(hay@, needle@, j),
        },
{
    let mut i: usize = from;
    while i < hay.len()
        invariant
            from <= i,
            forall|j: int| from <= j < i ==> !#[trigger] occurs_at(hay@, needle@, j),
        decreases hay.len() - i,
    {
        if matches_at(hay, needle, i) {
            return Some(i);
        }
        i = i + 1;
    }
    if i == hay.len() && matches_at(hay, needle, i) {
        return Some(i);
    }
    None
}

/// Whether `needle` occurs anywhere in `hay` (`str::contains`).
pub fn contains_chars(hay: &Vec<char>, needle: &Vec<char>) -> (r: bool)
    ensures
        r == has_infix(hay@, needle@),
{
    let found = find_from(hay, needle, 0);
    proof {
        match found {
            Some(i) => {
                assert(hay@.subrange(i as int, i + needle@.len()) =~= needle@);
            },
            None => {
                assert forall|i: int| 0 <= i && i + needle@.len() <= hay@.len() implies #[trigger] hay@.subrange(i, i + needle@.len()) != needle@ by {
                    if hay@.subrange(i, i + needle@.len()) == needle@ {
                        assert forall|k: int| 0 <= k < needle@.len() implies hay@[i + k] == #[trigger] needle@[k] by {
                            assert(hay@.subrange(i, i + needle@.len())[k] == hay@[i + k]);
                        }
                        assert(occurs_at(hay@, needle@, i));
                    }
                }
            },
        }
    }
    found.is_some()
}

/// Whether two character vectors are equal.
pub fn chars_eq(a: &Vec<char>, b: &Vec<char>) -> (r: bool)
    ensures
        r == (a@ == b@),
{
    if a.len() != b.len() {
        return false;
    }
    let mut i: usize = 0;
    while i < a.len()
        invariant
            a.len() == b.len(),
            i <= a.len(),
            forall|k: int| 0 <= k < i ==> a@[k] == b@[k],
        decreases a.len() - i,
    {
        if a[i] != b[i] {
            return false;
        }
        i = i + 1;
    }
    assert(a@ =~= b@);
    true
}

/// Whether two strings hold the same characters (`==` on `str`).
pub fn str_eq(a: &str, b: &str) -> (r: bool)
    ensures
        r == (a@ == b@),
{
    let x = chars_of(a);
    let y = chars_of(b);
    chars_eq(&x, &y)
}

/// The text that `{:?}` gives a string: the string between double quotes,
/// with quotes, backslashes, control and non-printable characters escaped.
pub uninterp spec fn debug_text(s: Seq<char>) -> Seq<char>;

/// Renders a string as `{:?}` does (`format!("{:?}", s)`); the result is
/// named [`debug_text`] of the characters.
#[verifier::external_body]
pub fn quote_debug(s: &str) -> (r: String)
    ensures
        r@ == debug_text(s@),
{
    format!("{:?}", s)
}

/// `String::push` appends one character.
pub assume_specification[ String::push ](s: &mut String, ch: char)
    ensures
        final(s)@ == old(s)@.push(ch),
;

/// The character of a decimal digit.
pub open spec fn digit_char(d: nat) -> char {
    ((48 + d) as u32) as char
}

/// The decimal rendering of a natural number, most significant digit first,
/// without leading zeros (`"0"` for zero): what `{}` prints for an unsigned
/// integer.
pub open spec fn decimal(n: nat) -> Seq<char>
    decreases n,
{
    if n < 10 {
        seq![digit_char(n)]
    } else {
        decimal(n / 10).push(digit_char(n % 10))
    }
}

/// The decimal rendering of an integer, with a leading `-` when negative:
/// what `{}` prints for a signed integer.
pub open spec fn decimal_int(i: int) -> Seq<char> {
    if i < 0 {
        seq!['-'] + decimal((-i) as nat)
    } else {
        decimal(i as nat)
    }
}

/// Appends the decimal rendering of `n` to `s`.
pub fn push_decimal(s: &mut String, n: u64)
    ensures
        final(s)@ == old(s)@ + decimal(n as nat),
    decreases n,
{
    if n >= 10 {
        push_decimal(s, n / 10);
    }
    let d: u8 = (n % 10) as u8;
    let c: char = (48u8 + d) as char;
    s.push(c);
    assert(final(s)@ =~= old(s)@ + decimal(n as nat));
}

/// Appends the decimal rendering of the signed `n` to `s`.
pub fn push_decimal_signed(s: &mut String, n: i64)
    ensures
        final(s)@ == old(s)@ + decimal_int(n as int),
{
    if n < 0 {
        s.push('-');
        let m: i128 = -(n as i128);
        push_decimal(s, m as u64);
        assert(final(s)@ =~= old(s)@ + decimal_int(n as int));
    } else {
        push_decimal(s, n as u64);
    }
}

} // verus!
