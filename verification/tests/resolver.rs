use flymd_storage::percent_decode_bytes;
use flymd_storage::percent_encode_all;
use flymd_storage::percent_encode_key_segments;
use flymd_storage::resolve_public_url;

#[test]
fn aggressive_encoding_escapes_slash_and_keeps_unreserved() {
    let enc = percent_encode_all("a/b c~x_.png".as_bytes());
    assert_eq!(enc, "a%2Fb%20c~x_.png");
}

#[test]
fn segment_encoding_keeps_slash_and_escapes_the_rest() {
    let enc = percent_encode_key_segments("a/b c/π.png".as_bytes());
    assert_eq!(enc, "a/b%20c/%CF%80.png");
}

#[test]
fn encode_then_decode_yields_original_key_bytes() {
    let keys = [
        "a/b.png",
        "folder with spaces/图片.png",
        "plain.png",
        "",
        "%already%escaped",
        "~-_.x/..//y",
    ];
    for key in keys {
        let enc = percent_encode_all(key.as_bytes());
        assert_eq!(percent_decode_bytes(&enc), key.as_bytes());
        let seg = percent_encode_key_segments(key.as_bytes());
        assert_eq!(percent_decode_bytes(&seg), key.as_bytes());
    }
}

#[test]
fn path_style_url_joins_endpoint_bucket_and_escaped_key() {
    let url = resolve_public_url("b", Some("http://h:9000/"), true, None, "a/b.png");
    assert_eq!(url, "http://h:9000/b/a%2Fb.png");
}

#[test]
fn custom_domain_wins_and_loses_its_trailing_slashes() {
    let url = resolve_public_url(
        "bucket",
        Some("http://ignored:1"),
        true,
        Some("https://cdn.example.com//"),
        "x y.png",
    );
    assert_eq!(url, "https://cdn.example.com/x%20y.png");
}

#[test]
fn virtual_host_url_moves_bucket_into_the_host() {
    let url = resolve_public_url("pics", Some("https://minio.example.com:9000"), false, None, "k.png");
    assert_eq!(url, "https://pics.minio.example.com:9000/k.png");
}

#[test]
fn virtual_host_url_keeps_a_non_root_endpoint_path() {
    let url = resolve_public_url("pics", Some("https://host.example.com/base"), false, None, "k.png");
    assert_eq!(url, "https://pics.host.example.com/base/k.png");
}

#[test]
fn virtual_host_url_drops_a_bare_root_path() {
    // after trailing-slash trimming the endpoint's path is empty, never `/`
    let url = resolve_public_url("pics", Some("https://host.example.com/"), false, None, "k.png");
    assert_eq!(url, "https://pics.host.example.com/k.png");
}

#[test]
fn missing_endpoint_falls_back_to_the_public_aws_domain() {
    let path_style = resolve_public_url("b", None, true, None, "k.png");
    assert_eq!(path_style, "https://s3.amazonaws.com/b/k.png");
    let virtual_host = resolve_public_url("b", None, false, None, "k.png");
    assert_eq!(virtual_host, "https://b.s3.amazonaws.com/k.png");
}

#[test]
fn unparsable_virtual_host_endpoint_falls_back_to_path_style_shape() {
    let url = resolve_public_url("b", Some("not a url"), false, None, "k.png");
    assert_eq!(url, "not a url/b/k.png");
}

#[test]
fn empty_key_still_resolves() {
    let url = resolve_public_url("b", Some("http://h"), true, None, "");
    assert_eq!(url, "http://h/b/");
}

#[test]
fn decoding_the_url_suffix_recovers_the_key() {
    let key = "dir/file name+ü.png";
    let url = resolve_public_url("b", Some("http://h:9000"), true, None, key);
    let prefix = "http://h:9000/b/";
    assert!(url.starts_with(prefix));
    let decoded = percent_decode_bytes(&url[prefix.len()..]);
    assert_eq!(decoded, key.as_bytes());
}
