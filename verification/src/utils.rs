//! Small utilities: owned string lists, platform executable names, the clock
//! and cache expiry.
use vstd::prelude::*;
use crate::languages::views;

verus! {

/// Copies a list of string slices into owned strings, in the same order.
pub fn to_owned(vec: Vec<&str>) -> (r: Vec<String>)
    ensures
        views(r@) == Seq::new(vec.len() as nat, |i: int| vec@[i]@),
{
    let mut r: Vec<String> = Vec::new();
    let mut i: usize = 0;
    while i < vec.len()
        invariant
            i <= vec.len(),
            r.len() == i,
            forall|k: int| 0 <= k < i ==> #[trigger] r@[k]@ == vec@[k]@,
        decreases vec.len() - i,
    {
        r.push(String::from_str(vec[i]));
        i = i + 1;
    }
    assert(views(r@) =~= Seq::new(vec.len() as nat, |i: int| vec@[i]@));
    r
}

/// The name of an executable on a platform: `<name>.exe` on Windows, the
/// name itself elsewhere.
pub open spec fn executable_name(name: Seq<char>, windows: bool) -> Seq<char> {
    if windows {
        name + ".exe"@
    } else {
        name
    }
}

/// The file name of the executable `name` on the platform (`windows` tells
/// whether it is Windows).
pub fn find_executable(name: &str, windows: bool) -> (r: String)
    ensures
        r@ == executable_name(name@, windows),
{
    let mut r = String::from_str(name);
    if windows {
        r.append(".exe");
    }
    r
}

/// Reads the system clock: seconds since the Unix epoch
/// (`SystemTime::now().duration_since(UNIX_EPOCH)`, 0 if the clock is before
/// the epoch). Nothing is promised of the value: it depends on the clock.
#[verifier::external_body]
pub fn current_timestamp() -> (r: i64) {
    std::time::SystemTime::now().duration_since(std::time::UNIX_EPOCH).unwrap_or_default().as_secs() as i64
}

/// Whether an item cached at `cached_at` has outlived `ttl` seconds at `now`
/// (all in seconds since the epoch): its age `now - cached_at` exceeds the
/// TTL.
pub open spec fn expired_at(cached_at: i64, ttl: u64, now: i64) -> bool {
    now - cached_at > ttl
}

/// Whether an item cached at `cached_at` has expired at `now`, given its TTL.
pub fn is_expired_at(cached_at: i64, ttl: u64, now: i64) -> (r: bool)
    ensures
        r == expired_at(cached_at, ttl, now),
{
    let age: i128 = now as i128 - cached_at as i128;
    age > ttl as i128
}

/// Whether an item cached at `cached_at` has expired now, given its TTL; the
/// clock is read once.
pub fn is_expired(cached_at: i64, ttl: u64) -> (r: bool)
    ensures
        exists|now: i64| r == expired_at(cached_at, ttl, now),
{
    let now = current_timestamp();
    is_expired_at(cached_at, ttl, now)
}

} // verus!
