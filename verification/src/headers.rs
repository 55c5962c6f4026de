//! The request headers of a format as a `reqwest` header map.
use reqwest::header::{HeaderMap, HeaderValue, InvalidHeaderValue};
use vstd::prelude::*;
use vstd::utf8::encode_utf8;

use crate::format::HttpHeaders;

verus! {

/// `reqwest::header::HeaderMap`, the multimap of request headers.
#[verifier::external_type_specification]
#[verifier::external_body]
#[verifier::reject_recursive_types(T)]
pub struct ExHeaderMap<T>(HeaderMap<T>);

/// `reqwest::header::HeaderValue`, the bytes of one header value.
#[verifier::external_type_specification]
#[verifier::external_body]
pub struct ExHeaderValue(HeaderValue);

/// `reqwest::header::InvalidHeaderValue`, the error of a rejected value.
#[verifier::external_type_specification]
#[verifier::external_body]
pub struct ExInvalidHeaderValue(InvalidHeaderValue);

/// The headers a map holds: each lower-case name with the bytes of its value.
pub uninterp spec fn header_entries(m: HeaderMap) -> Map<Seq<char>, Seq<u8>>;

/// The bytes a header value holds.
pub uninterp spec fn header_value_bytes(v: HeaderValue) -> Seq<u8>;

/// A byte that a header value may hold: a tab, or any byte from 32 up but
/// 127 (DEL).
pub open spec fn header_byte_ok(b: u8) -> bool {
    (b >= 32 && b != 127) || b == 9
}

/// Bytes that make a valid header value.
pub open spec fn header_bytes_ok(bytes: Seq<u8>) -> bool {
    forall|i: int| 0 <= i < bytes.len() ==> header_byte_ok(#[trigger] bytes[i])
}

/// A header name that `HeaderMap::insert` takes as it is: non-empty, of
/// lower-case ASCII letters and `-`.
pub open spec fn lower_header_name(name: Seq<char>) -> bool {
    &&& 0 < name.len() <= 64
    &&& forall|i: int| 0 <= i < name.len() ==> ('a' <= #[trigger] name[i] && name[i] <= 'z') || name[i] == '-'
}

/// No header at all.
pub open spec fn empty_entries() -> Map<Seq<char>, Seq<u8>> {
    Map::empty()
}

/// `HeaderMap::new`: an empty map.
#[verifier::external_body]
fn empty_header_map() -> (m: HeaderMap)
    ensures
        header_entries(m) == empty_entries(),
{
    HeaderMap::new()
}

/// `HeaderMap::insert` with a lower-case static name: the name now maps to
/// this value alone. `insert` panics when the map cannot grow (well before
/// 32768 entries); `requires` keeps the map to the few headers this library
/// sets, far below that.
#[verifier::external_body]
fn insert_header(map: &mut HeaderMap, name: &'static str, value: HeaderValue)
    requires
        lower_header_name(name@),
        header_entries(*old(map)).dom().finite(),
        header_entries(*old(map)).dom().len() < 4,
    ensures
        header_entries(*final(map)) == header_entries(*old(map)).insert(name@, header_value_bytes(value)),
{
    map.insert(name, value);
}

/// `HeaderValue::from_str`: accepted exactly when every UTF-8 byte of the
/// text may stand in a header value; the value holds those bytes.
#[verifier::external_body]
fn header_value_from_str(s: &str) -> (r: Result<HeaderValue, InvalidHeaderValue>)
    ensures
        r is Ok <==> header_bytes_ok(encode_utf8(s@)),
        r matches Ok(v) ==> header_value_bytes(v) == encode_utf8(s@),
{
    HeaderValue::from_str(s)
}

/// `HeaderValue::from_bytes`: accepted exactly when every byte may stand in
/// a header value; the value holds those bytes.
#[verifier::external_body]
fn header_value_from_bytes(bytes: &[u8]) -> (r: Result<HeaderValue, InvalidHeaderValue>)
    ensures
        r is Ok <==> header_bytes_ok(bytes@),
        r matches Ok(v) ==> header_value_bytes(v) == bytes@,
{
    HeaderValue::from_bytes(bytes)
}

/// Adds a header to the entries when its value is valid.
pub open spec fn with_header(entries: Map<Seq<char>, Seq<u8>>, name: Seq<char>, value: Seq<char>) -> Map<
    Seq<char>,
    Seq<u8>,
> {
    if header_bytes_ok(encode_utf8(value)) {
        entries.insert(name, encode_utf8(value))
    } else {
        entries
    }
}

/// The headers of a map built from `h`: user agent, accept, accept-language
/// and fetch mode, each present when its value is a valid header value.
pub open spec fn header_map_entries(h: HttpHeaders) -> Map<Seq<char>, Seq<u8>> {
    with_header(
        with_header(
            with_header(with_header(empty_entries(), "user-agent"@, h.user_agent@), "accept"@, h.accept@),
            "accept-language"@,
            h.accept_language@,
        ),
        "sec-fetch-mode"@,
        h.sec_fetch_mode@,
    )
}

proof fn lemma_header_names()
    ensures
        lower_header_name("user-agent"@),
        lower_header_name("accept"@),
        lower_header_name("accept-language"@),
        lower_header_name("sec-fetch-mode"@),
{
    reveal_strlit("user-agent");
    reveal_strlit("accept");
    reveal_strlit("accept-language");
    reveal_strlit("sec-fetch-mode");
}

impl HttpHeaders {
    /// Converts these headers into a `reqwest::header::HeaderMap` with
    /// User-Agent, Accept, Accept-Language and Sec-Fetch-Mode set; a header
    /// whose value is not a valid header value is left out.
    pub fn to_header_map(&self) -> (r: HeaderMap)
        ensures
            header_entries(r) == header_map_entries(*self),
    {
        proof {
            lemma_header_names();
        }
        let mut map = empty_header_map();
        let ghost e0 = header_entries(map);
        assert(e0.dom() =~= Set::empty());
        if let Ok(hv) = header_value_from_str(self.user_agent.as_str()) {
            insert_header(&mut map, "user-agent", hv);
        }
        let ghost e1 = header_entries(map);
        assert(e1 == with_header(e0, "user-agent"@, self.user_agent@));
        assert(e1.dom().finite() && e1.dom().len() <= 1) by {
            if e1.dom().len() > 0 {
                assert(e1.dom() =~= set!["user-agent"@]);
            }
        }
        if let Ok(hv) = header_value_from_str(self.accept.as_str()) {
            insert_header(&mut map, "accept", hv);
        }
        let ghost e2 = header_entries(map);
        assert(e2 == with_header(e1, "accept"@, self.accept@));
        assert(e2.dom().finite() && e2.dom().len() <= 2);
        if let Ok(hv) = header_value_from_str(self.accept_language.as_str()) {
            insert_header(&mut map, "accept-language", hv);
        }
        let ghost e3 = header_entries(map);
        assert(e3 == with_header(e2, "accept-language"@, self.accept_language@));
        assert(e3.dom().finite() && e3.dom().len() <= 3);
        if let Ok(hv) = header_value_from_bytes(self.sec_fetch_mode.as_str().as_bytes()) {
            insert_header(&mut map, "sec-fetch-mode", hv);
        }
        map
    }
}

} // verus!
