//! The persistent record of an uploaded image and its identity rules:
//! S3-compatible records are identified by (bucket, key, public URL), ImgLa
//! records by their provider-side numeric key, and legacy records without a
//! provider tag but with `bucket == "imgla"` count as ImgLa when deleting.
use vstd::prelude::*;

verus! {

/// The closed set of storage providers.
#[derive(Clone, Copy, Debug, PartialEq, Eq, Structural)]
pub enum Provider {
    S3Compatible,
    ImgLa,
}

/// An uploaded image, as the ledger persists it. `provider` is `None` on
/// legacy records written before the tag existed.
#[derive(Debug)]
pub struct UploadedImageRecord {
    pub id: String,
    pub provider: Option<Provider>,
    pub bucket: String,
    pub key: String,
    pub public_url: String,
    pub uploaded_at: String,
    pub file_name: Option<String>,
    pub content_type: Option<String>,
    pub size: Option<u64>,
    pub remote_key: Option<u64>,
    pub album_id: Option<u64>,
}

/// The mathematical shadow of a record: every text field as its character
/// sequence.
#[verifier::ext_equal]
pub ghost struct RecordV {
    pub id: Seq<char>,
    pub provider: Option<Provider>,
    pub bucket: Seq<char>,
    pub key: Seq<char>,
    pub public_url: Seq<char>,
    pub uploaded_at: Seq<char>,
    pub file_name: Option<Seq<char>>,
    pub content_type: Option<Seq<char>>,
    pub size: Option<u64>,
    pub remote_key: Option<u64>,
    pub album_id: Option<u64>,
}

/// The view of an optional text field.
pub open spec fn opt_chars(o: Option<String>) -> Option<Seq<char>> {
    match o {
        Some(s) => Some(s@),
        None => None,
    }
}

impl View for UploadedImageRecord {
    type V = RecordV;

    open spec fn view(&self) -> RecordV {
        RecordV {
            id: self.id@,
            provider: self.provider,
            bucket: self.bucket@,
            key: self.key@,
            public_url: self.public_url@,
            uploaded_at: self.uploaded_at@,
            file_name: opt_chars(self.file_name),
            content_type: opt_chars(self.content_type),
            size: self.size,
            remote_key: self.remote_key,
            album_id: self.album_id,
        }
    }
}

/// Whether the record's identity is provider-side (ImgLa).
pub open spec fn is_imgla_identity(r: RecordV) -> bool {
    r.provider == Some(Provider::ImgLa)
}

/// Two records share an identity: both ImgLa with the same remote key, or
/// both S3-compatible with the same bucket, key and public URL.
pub open spec fn same_identity_v(a: RecordV, b: RecordV) -> bool {
    if is_imgla_identity(a) && is_imgla_identity(b) {
        a.remote_key == b.remote_key
    } else if !is_imgla_identity(a) && !is_imgla_identity(b) {
        a.bucket == b.bucket && a.key == b.key && a.public_url == b.public_url
    } else {
        false
    }
}

/// Executable mirror of [`is_imgla_identity`].
pub fn record_is_imgla(r: &UploadedImageRecord) -> (b: bool)
    ensures
        b == is_imgla_identity(r@),
{
    match r.provider {
        Some(Provider::ImgLa) => true,
        _ => false,
    }
}

/// Executable mirror of [`same_identity_v`].
pub fn same_identity(a: &UploadedImageRecord, b: &UploadedImageRecord) -> (r: bool)
    ensures
        r == same_identity_v(a@, b@),
{
    let a_img = record_is_imgla(a);
    let b_img = record_is_imgla(b);
    if a_img && b_img {
        match (a.remote_key, b.remote_key) {
            (Some(x), Some(y)) => x == y,
            (None, None) => true,
            _ => false,
        }
    } else if !a_img && !b_img {
        a.bucket == b.bucket && a.key == b.key && a.public_url == b.public_url
    } else {
        false
    }
}

/// Clones the optional text of a record field.
fn clone_opt_string(o: &Option<String>) -> (r: Option<String>)
    ensures
        opt_chars(r) == opt_chars(*o),
{
    match o {
        Some(s) => Some(s.clone()),
        None => None,
    }
}

/// Copies a record, field by field; the copy has the same view.
pub fn clone_record(r: &UploadedImageRecord) -> (c: UploadedImageRecord)
    ensures
        c@ == r@,
{
    let c = UploadedImageRecord {
        id: r.id.clone(),
        provider: r.provider,
        bucket: r.bucket.clone(),
        key: r.key.clone(),
        public_url: r.public_url.clone(),
        uploaded_at: r.uploaded_at.clone(),
        file_name: clone_opt_string(&r.file_name),
        content_type: clone_opt_string(&r.content_type),
        size: r.size,
        remote_key: r.remote_key,
        album_id: r.album_id,
    };
    proof {
        assert(c@ =~= r@);
    }
    c
}

/// What a delete request identifies: either an ImgLa remote key or an
/// S3-compatible bucket and key.
#[derive(Debug)]
pub struct DeleteIdentity {
    pub provider: Option<Provider>,
    pub bucket: String,
    pub key: String,
    pub remote_key: Option<u64>,
}

/// The mathematical shadow of a delete request.
#[verifier::ext_equal]
pub ghost struct DeleteIdentityV {
    pub provider: Option<Provider>,
    pub bucket: Seq<char>,
    pub key: Seq<char>,
    pub remote_key: Option<u64>,
}

impl View for DeleteIdentity {
    type V = DeleteIdentityV;

    open spec fn view(&self) -> DeleteIdentityV {
        DeleteIdentityV {
            provider: self.provider,
            bucket: self.bucket@,
            key: self.key@,
            remote_key: self.remote_key,
        }
    }
}

/// A record counts as ImgLa for removal: tagged so, or a legacy record
/// without a tag whose bucket reads `imgla`.
pub open spec fn is_imgla_for_removal(r: RecordV) -> bool {
    r.provider == Some(Provider::ImgLa) || (r.provider is None && r.bucket == "imgla"@)
}

/// Whether a delete request matches a record: by provider and remote key
/// for ImgLa requests (with the legacy-bucket rule), by bucket and key
/// otherwise.
pub open spec fn delete_matches(q: DeleteIdentityV, r: RecordV) -> bool {
    if q.provider == Some(Provider::ImgLa) {
        is_imgla_for_removal(r) && r.remote_key == q.remote_key
    } else {
        r.bucket == q.bucket && r.key == q.key
    }
}

/// Executable mirror of [`delete_matches`].
pub fn delete_matches_record(q: &DeleteIdentity, r: &UploadedImageRecord) -> (b: bool)
    ensures
        b == delete_matches(q@, r@),
{
    let q_imgla = match q.provider {
        Some(Provider::ImgLa) => true,
        _ => false,
    };
    if q_imgla {
        let r_imgla = match r.provider {
            Some(Provider::ImgLa) => true,
            Some(Provider::S3Compatible) => false,
            None => {
                let imgla = String::from_str("imgla");
                r.bucket == imgla
            },
        };
        let keys_eq = match (r.remote_key, q.remote_key) {
            (Some(x), Some(y)) => x == y,
            (None, None) => true,
            _ => false,
        };
        r_imgla && keys_eq
    } else {
        r.bucket == q.bucket && r.key == q.key
    }
}

} // verus!
