use flymd_storage::ascii_lowercase;
use flymd_storage::asset_file_name;
use flymd_storage::hex_lower;
use flymd_storage::hmac_sha256;
use flymd_storage::now_utc;
use flymd_storage::sha256;
use flymd_storage::str_contains;
use flymd_storage::str_ends_with;
use flymd_storage::str_starts_with;
use flymd_storage::trim_trailing_slashes_str;
use flymd_storage::u64_to_dec;

#[test]
fn hex_renders_two_lowercase_digits_per_byte() {
    assert_eq!(hex_lower(&[0x00, 0xab, 0xff, 0x1e]), "00abff1e");
    assert_eq!(hex_lower(&[]), "");
}

#[test]
fn sha256_matches_the_published_empty_digest() {
    let digest = sha256(b"");
    assert_eq!(
        hex_lower(&digest),
        "e3b0c44298fc1c149afbf4c8996fb92427ae41e4649b934ca495991b7852b855"
    );
    assert_eq!(
        hex_lower(&sha256(b"abc")),
        "ba7816bf8f01cfea414140de5dae2223b00361a396177a9cb410ff61f20015ad"
    );
}

#[test]
fn hmac_sha256_matches_the_published_test_vector() {
    // RFC 4231, test case 2
    let tag = hmac_sha256(b"Jefe", b"what do ya want for nothing?");
    assert_eq!(
        hex_lower(&tag),
        "5bdcc146bf60754e6a042426089575c75a003f089d2739839dec58b964ec3843"
    );
}

#[test]
fn decimal_rendering_has_no_leading_zeros() {
    assert_eq!(u64_to_dec(0), "0");
    assert_eq!(u64_to_dec(600), "600");
    assert_eq!(u64_to_dec(18446744073709551615), "18446744073709551615");
}

#[test]
fn ascii_lowercase_touches_only_ascii_letters() {
    assert_eq!(ascii_lowercase("AbC-Д1.ZIP"), "abc-Д1.zip");
}

#[test]
fn text_scans_match_std_behaviour() {
    assert!(str_contains("connection reset by peer", "connection reset"));
    assert!(!str_contains("short", "much longer needle"));
    assert!(str_contains("anything", ""));
    assert!(str_starts_with("https://gh-proxy.com/x", "https://gh-proxy.com/"));
    assert!(!str_starts_with("http://other", "https://"));
    assert!(str_ends_with("setup-x64.exe", ".exe"));
    assert!(!str_ends_with("exe", "setup.exe"));
}

#[test]
fn trailing_slashes_are_trimmed_only_at_the_end() {
    assert_eq!(trim_trailing_slashes_str("https://a/b///"), "https://a/b");
    assert_eq!(trim_trailing_slashes_str("no-slash"), "no-slash");
    assert_eq!(trim_trailing_slashes_str("///"), "");
}

#[test]
fn asset_file_name_takes_the_last_path_segment() {
    assert_eq!(asset_file_name("/dl/v1/app-x64.exe"), "app-x64.exe");
    assert_eq!(asset_file_name("app.bin"), "app.bin");
    assert_eq!(asset_file_name("/dl/"), "download.bin");
    assert_eq!(asset_file_name(""), "download.bin");
}

#[test]
fn the_clock_yields_a_calendar_instant() {
    let t = now_utc();
    assert!((1..=12).contains(&t.month));
    assert!((1..=31).contains(&t.day));
    assert!(t.hour <= 23 && t.minute <= 59 && t.second <= 59);
    assert!(t.year >= 2020);
}
