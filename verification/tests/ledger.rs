use flymd_storage::Ledger;
use flymd_storage::DeleteIdentity;
use flymd_storage::Provider;
use flymd_storage::UploadedImageRecord;

fn s3_record(bucket: &str, key: &str, public_url: &str, uploaded_at: &str) -> UploadedImageRecord {
    UploadedImageRecord {
        id: format!("{bucket}/{key}"),
        provider: Some(Provider::S3Compatible),
        bucket: bucket.to_string(),
        key: key.to_string(),
        public_url: public_url.to_string(),
        uploaded_at: uploaded_at.to_string(),
        file_name: None,
        content_type: None,
        size: None,
        remote_key: None,
        album_id: None,
    }
}

fn imgla_record(remote_key: u64, uploaded_at: &str) -> UploadedImageRecord {
    UploadedImageRecord {
        id: format!("imgla-{remote_key}"),
        provider: Some(Provider::ImgLa),
        bucket: "imgla".to_string(),
        key: format!("imgla-{remote_key}"),
        public_url: format!("https://img.example.com/{remote_key}.png"),
        uploaded_at: uploaded_at.to_string(),
        file_name: None,
        content_type: None,
        size: None,
        remote_key: Some(remote_key),
        album_id: None,
    }
}

#[test]
fn recording_the_same_identity_twice_keeps_one_entry_and_the_second_wins() {
    let mut ledger = Ledger::new();
    ledger.record(s3_record("b", "k.png", "https://h/b/k.png", "2024-01-01T00:00:00Z"));
    ledger.record(s3_record("b", "k.png", "https://h/b/k.png", "2024-06-30T12:00:00Z"));
    let listed = ledger.list();
    assert_eq!(listed.len(), 1);
    assert_eq!(listed[0].uploaded_at, "2024-06-30T12:00:00Z");
}

#[test]
fn different_identities_both_stay() {
    let mut ledger = Ledger::new();
    ledger.record(s3_record("b", "k.png", "https://h/b/k.png", "2024-01-01T00:00:00Z"));
    ledger.record(s3_record("b", "k.png", "https://other/b/k.png", "2024-01-02T00:00:00Z"));
    ledger.record(imgla_record(7, "2024-01-03T00:00:00Z"));
    assert_eq!(ledger.len(), 3);
}

#[test]
fn imgla_identity_goes_by_remote_key() {
    let mut ledger = Ledger::new();
    ledger.record(imgla_record(7, "2024-01-01T00:00:00Z"));
    let mut second = imgla_record(7, "2024-02-01T00:00:00Z");
    second.public_url = "https://img.example.com/renamed.png".to_string();
    ledger.record(second);
    let listed = ledger.list();
    assert_eq!(listed.len(), 1);
    assert_eq!(listed[0].public_url, "https://img.example.com/renamed.png");
}

#[test]
fn recording_2001_entries_leaves_2000_and_drops_the_earliest() {
    let mut ledger = Ledger::new();
    for i in 0..2001u64 {
        ledger.record(s3_record(
            "b",
            &format!("k{i}.png"),
            &format!("https://h/b/k{i}.png"),
            &format!("{i:05}"),
        ));
    }
    assert_eq!(ledger.len(), 2000);
    let listed = ledger.list();
    assert_eq!(listed.len(), 2000);
    // newest first; the earliest-inserted entry (00000) is the one missing
    assert_eq!(listed[0].uploaded_at, "02000");
    assert_eq!(listed[1999].uploaded_at, "00001");
}

#[test]
fn list_is_sorted_newest_first_with_ties_in_ledger_order() {
    let mut ledger = Ledger::new();
    ledger.record(s3_record("b", "old.png", "https://h/b/old.png", "2024-01-01T00:00:00Z"));
    ledger.record(s3_record("b", "tie1.png", "https://h/b/tie1.png", "2024-03-01T00:00:00Z"));
    ledger.record(s3_record("b", "new.png", "https://h/b/new.png", "2024-06-01T00:00:00Z"));
    ledger.record(s3_record("b", "tie2.png", "https://h/b/tie2.png", "2024-03-01T00:00:00Z"));
    let listed = ledger.list();
    let keys: Vec<&str> = listed.iter().map(|r| r.key.as_str()).collect();
    assert_eq!(keys, vec!["new.png", "tie1.png", "tie2.png", "old.png"]);
}

#[test]
fn delete_by_bucket_and_key_removes_and_reports_change() {
    let mut ledger = Ledger::new();
    ledger.record(s3_record("b", "k.png", "https://h/b/k.png", "2024-01-01T00:00:00Z"));
    ledger.record(s3_record("b", "other.png", "https://h/b/other.png", "2024-01-02T00:00:00Z"));
    let q = DeleteIdentity {
        provider: Some(Provider::S3Compatible),
        bucket: "b".to_string(),
        key: "k.png".to_string(),
        remote_key: None,
    };
    assert!(ledger.delete_by_identity(&q));
    assert_eq!(ledger.len(), 1);
    assert!(!ledger.delete_by_identity(&q));
}

#[test]
fn delete_by_imgla_remote_key_covers_untagged_legacy_records() {
    let mut ledger = Ledger::new();
    let mut legacy = imgla_record(9, "2024-01-01T00:00:00Z");
    legacy.provider = None;
    ledger.record(legacy);
    let q = DeleteIdentity {
        provider: Some(Provider::ImgLa),
        bucket: String::new(),
        key: String::new(),
        remote_key: Some(9),
    };
    assert!(ledger.delete_by_identity(&q));
    assert_eq!(ledger.len(), 0);
}

#[test]
fn delete_with_wrong_remote_key_changes_nothing() {
    let mut ledger = Ledger::new();
    ledger.record(imgla_record(9, "2024-01-01T00:00:00Z"));
    let q = DeleteIdentity {
        provider: Some(Provider::ImgLa),
        bucket: String::new(),
        key: String::new(),
        remote_key: Some(10),
    };
    assert!(!ledger.delete_by_identity(&q));
    assert_eq!(ledger.len(), 1);
}

#[test]
fn loading_entries_deduplicates_and_caps() {
    let mut raw: Vec<UploadedImageRecord> = Vec::new();
    raw.push(s3_record("b", "k.png", "https://h/b/k.png", "2024-01-01T00:00:00Z"));
    raw.push(s3_record("b", "k.png", "https://h/b/k.png", "2024-02-01T00:00:00Z"));
    raw.push(imgla_record(3, "2024-03-01T00:00:00Z"));
    let ledger = Ledger::from_entries(&raw);
    assert_eq!(ledger.len(), 2);
    let listed = ledger.list();
    assert_eq!(listed[0].uploaded_at, "2024-03-01T00:00:00Z");
    assert_eq!(listed[1].uploaded_at, "2024-02-01T00:00:00Z");
}
