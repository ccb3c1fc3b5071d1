use flymd_storage::PresignReq;
use flymd_storage::UtcInstant;
use flymd_storage::format_amz_date;
use flymd_storage::format_date_stamp;
use flymd_storage::presign_put;
use flymd_storage::presign_put_at;
use flymd_storage::sigv4_signature;

fn fixed_instant() -> UtcInstant {
    UtcInstant { year: 2024, month: 1, day: 1, hour: 0, minute: 0, second: 0 }
}

fn sample_req() -> PresignReq {
    PresignReq {
        access_key_id: "AKIDEXAMPLE".to_string(),
        secret_access_key: "SECRET-REDACTED".to_string(),
        bucket: "pics".to_string(),
        region: Some("eu-west-1".to_string()),
        endpoint: Some("http://minio.local:9000".to_string()),
        force_path_style: true,
        custom_domain: None,
        key: "dir/img 1.png".to_string(),
        expires: Some(900),
    }
}

fn query_pairs(url: &str) -> Vec<(String, String)> {
    let q = url.split('?').nth(1).expect("a query string");
    q.split('&')
        .map(|kv| {
            let mut it = kv.splitn(2, '=');
            (it.next().unwrap().to_string(), it.next().unwrap_or("").to_string())
        })
        .collect()
}

#[test]
fn timestamp_formats_are_fixed_width() {
    let t = fixed_instant();
    assert_eq!(format_amz_date(&t), "20240101T000000Z");
    assert_eq!(format_date_stamp(&t), "20240101");
    let t2 = UtcInstant { year: 987, month: 12, day: 31, hour: 23, minute: 59, second: 9 };
    assert_eq!(format_amz_date(&t2), "09871231T235909Z");
}

#[test]
fn presigned_query_parameters_are_sorted_and_signature_is_hex() {
    let resp = presign_put_at(&sample_req(), &fixed_instant()).expect("presign");
    let pairs = query_pairs(&resp.put_url);
    let keys: Vec<&str> = pairs.iter().map(|p| p.0.as_str()).collect();
    assert_eq!(
        keys,
        vec![
            "X-Amz-Algorithm",
            "X-Amz-Credential",
            "X-Amz-Date",
            "X-Amz-Expires",
            "X-Amz-SignedHeaders",
            "X-Amz-Signature",
        ]
    );
    let mut sortable = keys.clone();
    sortable.pop();
    let mut sorted = sortable.clone();
    sorted.sort();
    assert_eq!(sortable, sorted);
    let sig = &pairs.last().unwrap().1;
    assert_eq!(sig.len(), 64);
    assert!(sig.chars().all(|c| c.is_ascii_digit() || ('a'..='f').contains(&c)));
}

#[test]
fn presigned_url_carries_canonical_uri_and_scoped_credential() {
    let resp = presign_put_at(&sample_req(), &fixed_instant()).expect("presign");
    assert!(resp.put_url.starts_with("http://minio.local:9000/pics/dir/img%201.png?"));
    let pairs = query_pairs(&resp.put_url);
    assert_eq!(pairs[0].1, "AWS4-HMAC-SHA256");
    assert_eq!(pairs[1].1, "AKIDEXAMPLE%2F20240101%2Feu-west-1%2Fs3%2Faws4_request");
    assert_eq!(pairs[2].1, "20240101T000000Z");
    assert_eq!(pairs[3].1, "900");
    assert_eq!(pairs[4].1, "host");
    // the public URL goes through the resolver's aggressive encoding
    assert_eq!(resp.public_url, "http://minio.local:9000/pics/dir%2Fimg%201.png");
}

#[test]
fn presign_is_deterministic_at_a_fixed_instant() {
    let a = presign_put_at(&sample_req(), &fixed_instant()).expect("presign");
    let b = presign_put_at(&sample_req(), &fixed_instant()).expect("presign");
    assert_eq!(a.put_url, b.put_url);
    assert_eq!(a.public_url, b.public_url);
}

#[test]
fn changing_expiry_changes_only_expires_and_signature() {
    let mut req = sample_req();
    let a = presign_put_at(&req, &fixed_instant()).expect("presign");
    req.expires = Some(3600);
    let b = presign_put_at(&req, &fixed_instant()).expect("presign");
    let pa = query_pairs(&a.put_url);
    let pb = query_pairs(&b.put_url);
    assert_eq!(pa.len(), pb.len());
    for (i, (ka, va)) in pa.iter().enumerate() {
        let (kb, vb) = &pb[i];
        assert_eq!(ka, kb);
        if ka == "X-Amz-Expires" {
            assert_eq!(va, "900");
            assert_eq!(vb, "3600");
        } else if ka != "X-Amz-Signature" {
            assert_eq!(va, vb);
        }
    }
    assert_ne!(pa.last().unwrap().1, pb.last().unwrap().1);
    assert_eq!(a.public_url, b.public_url);
}

#[test]
fn virtual_host_presign_signs_bucket_dot_host() {
    let mut req = sample_req();
    req.force_path_style = false;
    let resp = presign_put_at(&req, &fixed_instant()).expect("presign");
    assert!(resp.put_url.starts_with("http://pics.minio.local/dir/img%201.png?"));
}

#[test]
fn unparsable_endpoint_is_rejected_before_signing() {
    let mut req = sample_req();
    req.endpoint = Some("::not a url::".to_string());
    let err = presign_put_at(&req, &fixed_instant()).unwrap_err();
    assert_eq!(err, "invalid endpoint");
}

#[test]
fn presign_with_the_real_clock_also_signs() {
    let resp = presign_put(&sample_req()).expect("presign");
    let pairs = query_pairs(&resp.put_url);
    assert_eq!(pairs.last().unwrap().1.len(), 64);
    assert_eq!(resp.public_url, "http://minio.local:9000/pics/dir%2Fimg%201.png");
}

#[test]
fn signature_depends_on_all_scope_parts() {
    let base = sigv4_signature("secret", "20240101", "us-east-1", "payload");
    assert_eq!(base.len(), 64);
    assert_ne!(base, sigv4_signature("secret2", "20240101", "us-east-1", "payload"));
    assert_ne!(base, sigv4_signature("secret", "20240102", "us-east-1", "payload"));
    assert_ne!(base, sigv4_signature("secret", "20240101", "eu-west-1", "payload"));
    assert_ne!(base, sigv4_signature("secret", "20240101", "us-east-1", "payload2"));
    assert_eq!(base, sigv4_signature("secret", "20240101", "us-east-1", "payload"));
}
