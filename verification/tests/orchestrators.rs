use flymd_storage::DeleteAttempt;
use flymd_storage::DeleteIdentity;
use flymd_storage::ImgLaUploadReq;
use flymd_storage::Ledger;
use flymd_storage::Provider;
use flymd_storage::Transport;
use flymd_storage::UploadError;
use flymd_storage::UploadReq;
use flymd_storage::UploadedImageRecord;
use flymd_storage::backoff_ms;
use flymd_storage::classify_delete_response;
use flymd_storage::delete_candidate_urls;
use flymd_storage::delete_fallback_verdict;
use flymd_storage::fetch_order;
use flymd_storage::imgla_form_fields;
use flymd_storage::imgla_upload_url;
use flymd_storage::is_transient_error;
use flymd_storage::make_imgla_record;
use flymd_storage::parse_imgla_upload_response;
use flymd_storage::resolve_fetch_fallback;
use flymd_storage::upload_public_url;
use flymd_storage::validate_imgla_upload;
use flymd_storage::validate_upload;
use flymd_storage::xmlrpc_outcome;

fn imgla_req() -> ImgLaUploadReq {
    ImgLaUploadReq {
        base_url: "https://img.example.com".to_string(),
        token: "token".to_string(),
        strategy_id: Some(2),
        album_id: None,
        file_name: "a.png".to_string(),
        content_type: Some("image/png".to_string()),
        bytes: vec![1, 2, 3],
    }
}

fn upload_req() -> UploadReq {
    UploadReq {
        access_key_id: "AKIDEXAMPLE".to_string(),
        secret_access_key: "SECRET-REDACTED".to_string(),
        bucket: "pics".to_string(),
        region: None,
        endpoint: Some("http://h:9000".to_string()),
        force_path_style: true,
        acl_public_read: true,
        custom_domain: None,
        key: "a/b.png".to_string(),
        content_type: Some("image/png".to_string()),
        bytes: vec![1],
    }
}

#[test]
fn upload_validation_rejects_each_missing_input() {
    assert!(validate_upload(&upload_req()).is_ok());
    let mut r = upload_req();
    r.bucket = String::new();
    assert!(matches!(validate_upload(&r), Err(UploadError::InvalidInput(_))));
    let mut r = upload_req();
    r.bytes = Vec::new();
    assert!(matches!(validate_upload(&r), Err(UploadError::InvalidInput(_))));
    let mut r = upload_req();
    r.key = String::new();
    assert!(validate_upload(&r).is_err());
}

#[test]
fn upload_answer_uses_the_resolver() {
    assert_eq!(upload_public_url(&upload_req()), "http://h:9000/pics/a%2Fb.png");
}

#[test]
fn imgla_validation_rejects_zero_ids_and_empty_inputs() {
    assert!(validate_imgla_upload(&imgla_req()).is_ok());
    let mut r = imgla_req();
    r.strategy_id = Some(0);
    assert!(matches!(validate_imgla_upload(&r), Err(UploadError::InvalidInput(_))));
    let mut r = imgla_req();
    r.token = String::new();
    assert!(validate_imgla_upload(&r).is_err());
    let mut r = imgla_req();
    r.bytes = Vec::new();
    assert!(validate_imgla_upload(&r).is_err());
}

#[test]
fn imgla_upload_url_is_fixed_under_the_base() {
    assert_eq!(imgla_upload_url("https://img.example.com/"), "https://img.example.com/api/v1/upload");
}

#[test]
fn imgla_form_fields_carry_permission_and_given_ids() {
    let fields = imgla_form_fields(Some(2), Some(5));
    let pairs: Vec<(&str, &str)> = fields.iter().map(|p| (p.0.as_str(), p.1.as_str())).collect();
    assert_eq!(pairs, vec![("permission", "0"), ("strategy_id", "2"), ("album_id", "5")]);
    let fields = imgla_form_fields(None, None);
    assert_eq!(fields.len(), 1);
    assert_eq!(fields[0].0, "permission");
}

#[test]
fn imgla_success_extracts_key_and_url() {
    let body = r#"{"status":true,"data":{"key":42,"links":{"url":"https://img.example.com/a.png"}}}"#;
    let ok = parse_imgla_upload_response(200, body).expect("success");
    assert_eq!(ok.remote_key, 42);
    assert_eq!(ok.url, "https://img.example.com/a.png");
}

#[test]
fn imgla_zero_key_is_a_data_integrity_failure_despite_http_success() {
    let body = r#"{"status":true,"data":{"key":0,"links":{"url":"https://img.example.com/a.png"}}}"#;
    let err = parse_imgla_upload_response(200, body).unwrap_err();
    assert!(matches!(err, UploadError::DataIntegrity(_)));
}

#[test]
fn imgla_missing_url_is_a_data_integrity_failure() {
    let body = r#"{"status":true,"data":{"key":42,"links":{}}}"#;
    let err = parse_imgla_upload_response(200, body).unwrap_err();
    assert!(matches!(err, UploadError::DataIntegrity(_)));
}

#[test]
fn imgla_status_false_carries_the_provider_message() {
    let body = r#"{"status":false,"message":"quota exceeded"}"#;
    let err = parse_imgla_upload_response(200, body).unwrap_err();
    match err {
        UploadError::Protocol(m) => assert_eq!(m, "quota exceeded"),
        other => panic!("wrong kind: {}", other.message()),
    }
}

#[test]
fn imgla_status_true_under_http_failure_is_a_protocol_failure() {
    let body = r#"{"status":true,"data":{"key":42,"links":{"url":"https://img.example.com/a.png"}}}"#;
    let err = parse_imgla_upload_response(500, body).unwrap_err();
    match err {
        UploadError::Protocol(m) => assert_eq!(m, "HTTP 500"),
        other => panic!("wrong kind: {}", other.message()),
    }
}

#[test]
fn imgla_status_false_falls_back_to_the_code_field() {
    let body = r#"{"status":false,"code":"TOKEN_EXPIRED"}"#;
    let err = parse_imgla_upload_response(200, body).unwrap_err();
    match err {
        UploadError::Protocol(m) => assert_eq!(m, "TOKEN_EXPIRED"),
        other => panic!("wrong kind: {}", other.message()),
    }
}

#[test]
fn imgla_unreadable_body_is_a_protocol_failure() {
    let err = parse_imgla_upload_response(200, "<html>login</html>").unwrap_err();
    assert!(matches!(err, UploadError::Protocol(_)));
    let err = parse_imgla_upload_response(500, "oops").unwrap_err();
    match err {
        UploadError::Protocol(m) => assert_eq!(m, "HTTP 500"),
        other => panic!("wrong kind: {}", other.message()),
    }
}

#[test]
fn error_messages_name_their_kind() {
    let e = UploadError::DataIntegrity("data.key is zero".to_string());
    assert_eq!(e.message(), "incomplete provider response: data.key is zero");
    let e = UploadError::Transport("connection reset".to_string());
    assert_eq!(e.message(), "transport error: connection reset");
    let e = UploadError::InvalidInput("bucket is empty".to_string());
    assert_eq!(e.message(), "invalid input: bucket is empty");
    let e = UploadError::Protocol("HTTP 500".to_string());
    assert_eq!(e.message(), "provider error: HTTP 500");
}

#[test]
fn delete_candidates_come_in_the_fixed_order() {
    let urls = delete_candidate_urls("https://img.example.com/", 42);
    assert_eq!(
        urls,
        vec![
            "https://img.example.com/api/v1/images".to_string(),
            "https://img.example.com/api/images".to_string(),
            "https://img.example.com/api/v1/images/42".to_string(),
        ]
    );
}

#[test]
fn delete_success_criteria_are_strict() {
    assert!(classify_delete_response(204, ""));
    assert!(classify_delete_response(200, r#"{"status":true}"#));
    assert!(!classify_delete_response(200, r#"{"status":false}"#));
    assert!(!classify_delete_response(200, "<html>login page</html>"));
    assert!(!classify_delete_response(200, ""));
    assert!(!classify_delete_response(404, r#"{"status":true}"#));
    assert!(!classify_delete_response(500, ""));
}

#[test]
fn html_bodies_fail_until_the_third_candidate_returns_204() {
    let responses: [(u16, &str); 3] = [
        (200, "<html>sign in</html>"),
        (200, "<html>sign in</html>"),
        (204, ""),
    ];
    let urls = delete_candidate_urls("https://img.example.com", 7);
    let mut attempts: Vec<DeleteAttempt> = Vec::new();
    for (i, (status, body)) in responses.iter().enumerate() {
        let ok = classify_delete_response(*status, body);
        attempts.push(DeleteAttempt {
            url: urls[i].clone(),
            ok,
            reason: if ok { String::new() } else { format!("HTTP {status}") },
        });
    }
    let verdict = delete_fallback_verdict(&attempts);
    assert_eq!(verdict, Ok(2));

    // the confirmed remote delete reconciles the ledger
    let mut ledger = Ledger::new();
    ledger.record(make_imgla_record(
        "imgla-7".to_string(),
        "https://img.example.com/7.png".to_string(),
        "2024-01-01T00:00:00Z".to_string(),
        7,
        None,
        None,
        None,
    ));
    assert_eq!(ledger.len(), 1);
    let q = DeleteIdentity {
        provider: Some(Provider::ImgLa),
        bucket: String::new(),
        key: String::new(),
        remote_key: Some(7),
    };
    assert!(ledger.delete_by_identity(&q));
    assert_eq!(ledger.len(), 0);
}

#[test]
fn all_failures_aggregate_every_endpoint_and_reason() {
    let attempts = vec![
        DeleteAttempt { url: "https://a/x".to_string(), ok: false, reason: "HTTP 401".to_string() },
        DeleteAttempt { url: "https://a/y".to_string(), ok: false, reason: "HTTP 404".to_string() },
    ];
    let err = delete_fallback_verdict(&attempts).unwrap_err();
    assert_eq!(err, "delete failed: https://a/x: HTTP 401; https://a/y: HTTP 404");
}

#[test]
fn imgla_record_round_trips_through_the_ledger() {
    let rec: UploadedImageRecord = make_imgla_record(
        "imgla-42".to_string(),
        "https://img.example.com/a.png".to_string(),
        "2024-01-01T00:00:00Z".to_string(),
        42,
        Some(5),
        Some("a.png".to_string()),
        Some(123),
    );
    assert_eq!(rec.bucket, "imgla");
    assert_eq!(rec.remote_key, Some(42));
    let mut ledger = Ledger::new();
    ledger.record(rec);
    assert_eq!(ledger.list()[0].album_id, Some(5));
}

#[test]
fn transient_failures_are_whitelisted_and_backoff_is_fixed() {
    assert!(is_transient_error("error sending request: connection reset by peer"));
    assert!(is_transient_error("connection closed before message completed"));
    assert!(!is_transient_error("HTTP 503 service unavailable"));
    assert_eq!(backoff_ms(0), Some(250));
    assert_eq!(backoff_ms(1), Some(800));
    assert_eq!(backoff_ms(2), Some(1500));
    assert_eq!(backoff_ms(3), None);
}

#[test]
fn fetch_fallback_prefers_the_asked_transport_and_falls_back() {
    assert_eq!(fetch_order(false), (Transport::Direct, Transport::Proxy));
    assert_eq!(fetch_order(true), (Transport::Proxy, Transport::Direct));
    let r = resolve_fetch_fallback(Ok("/tmp/a.bin".to_string()), None);
    assert_eq!(r, Ok("/tmp/a.bin".to_string()));
    let r = resolve_fetch_fallback(
        Err("direct failed".to_string()),
        Some(Ok("/tmp/b.bin".to_string())),
    );
    assert_eq!(r, Ok("/tmp/b.bin".to_string()));
    let r = resolve_fetch_fallback(
        Err("direct failed".to_string()),
        Some(Err("proxy failed".to_string())),
    );
    assert_eq!(r, Err("proxy failed".to_string()));
}

#[test]
fn xmlrpc_outcome_keeps_the_body_or_names_the_status() {
    assert_eq!(xmlrpc_outcome(200, "<ok/>".to_string()), Ok("<ok/>".to_string()));
    assert_eq!(
        xmlrpc_outcome(403, "denied".to_string()),
        Err("HTTP 403: denied".to_string())
    );
}
