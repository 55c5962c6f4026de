use yt_dlp::float_order::{f64_bits_of_u32, order_key, order_key_or_zero};
use yt_dlp::text::{push_decimal, push_decimal_signed, quote_debug, str_eq};
use yt_dlp::utils::{current_timestamp, find_executable, is_expired, is_expired_at, to_owned};

#[test]
fn owned_strings_keep_order() {
    assert_eq!(to_owned(vec!["-f", "best", ""]), vec!["-f".to_string(), "best".to_string(), String::new()]);
    assert!(to_owned(vec![]).is_empty());
}

#[test]
fn executable_names_per_platform() {
    assert_eq!(find_executable("yt-dlp", true), "yt-dlp.exe");
    assert_eq!(find_executable("ffmpeg", false), "ffmpeg");
}

#[test]
fn expiry_at_given_times() {
    assert!(!is_expired_at(1000, 60, 1060));
    assert!(is_expired_at(1000, 60, 1061));
    assert!(!is_expired_at(1000, 0, 1000));
    assert!(is_expired_at(1000, 0, 1001));
    assert!(!is_expired_at(0, u64::MAX, 0));
    assert!(!is_expired_at(i64::MIN, u64::MAX, i64::MAX));
    assert!(is_expired_at(i64::MIN, u64::MAX - 1, i64::MAX));
    assert!(!is_expired_at(0, i64::MAX as u64, i64::MAX));
    assert!(!is_expired_at(100, 0, 0));
}

#[test]
fn expiry_against_the_clock() {
    let now = current_timestamp();
    assert!(now > 1_600_000_000);
    assert!(is_expired(0, 60));
    assert!(!is_expired(now + 10_000, 60));
    assert!(is_expired(i64::MIN, 60));
    assert!(!is_expired(0, u64::MAX));
}

#[test]
fn float_order_keys() {
    let k = |x: f64| order_key(x.to_bits());
    assert!(k(-1.5) < k(-0.5));
    assert!(k(-0.5) < k(0.0));
    assert_eq!(k(-0.0), k(0.0));
    assert!(k(0.0) < k(1e-300));
    assert!(k(2.0) < k(f64::INFINITY));
    assert!(k(f64::INFINITY) < k(f64::NAN));
    assert_eq!(k(f64::NAN), k(-f64::NAN));
    assert!(k(f64::NEG_INFINITY) < k(-1e300));
    assert_eq!(order_key_or_zero(None), k(0.0));
    assert_eq!(order_key_or_zero(Some(3.0f64.to_bits())), k(3.0));
}

#[test]
fn integer_bits_match_the_float_conversion() {
    for n in [0u32, 1, 2, 3, 96, 128, 192, 1000, 65535, 1 << 31, u32::MAX] {
        assert_eq!(f64_bits_of_u32(n), (n as f64).to_bits());
    }
}

#[test]
fn decimal_rendering_and_quoting() {
    let mut s = String::from("n=");
    push_decimal(&mut s, 0);
    push_decimal(&mut s, u64::MAX);
    assert_eq!(s, "n=018446744073709551615");
    let mut t = String::new();
    push_decimal_signed(&mut t, i64::MIN);
    push_decimal_signed(&mut t, -7);
    push_decimal_signed(&mut t, 42);
    assert_eq!(t, "-9223372036854775808-742");
    assert_eq!(quote_debug("a\tb"), "\"a\\tb\"");
    assert!(str_eq("abc", "abc"));
    assert!(!str_eq("abc", "abd"));
}

#[test]
fn expiry_stays_once_reached() {
    let mut was = false;
    for now in 990..1100 {
        let e = is_expired_at(1000, 60, now);
        assert!(!was || e);
        was = e;
    }
    assert!(was);
}
