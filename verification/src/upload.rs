//! The upload orchestrator's verified core: the error taxonomy, the
//! validation that precedes any network call, the public URL of a direct
//! S3-compatible PUT, and the normalization of either provider's outcome
//! into one record shape. The transport itself is the caller's business.
use vstd::prelude::*;
use vstd::utf8::encode_utf8;
use crate::record::Provider;
use crate::record::UploadedImageRecord;
use crate::record::opt_chars;
use crate::resolve::public_url_chars;
use crate::resolve::resolve_public_url;

verus! {

/// The error taxonomy of the upload and delete paths: bad input (rejected
/// before any network call), transport failure, a provider that answered
/// but said no, and a 2xx answer with required fields missing.
#[derive(Debug)]
pub enum UploadError {
    InvalidInput(String),
    Transport(String),
    Protocol(String),
    DataIntegrity(String),
}

/// The message text of an error, with its kind named first.
pub open spec fn error_chars(e: UploadError) -> Seq<char> {
    match e {
        UploadError::InvalidInput(m) => "invalid input: "@ + m@,
        UploadError::Transport(m) => "transport error: "@ + m@,
        UploadError::Protocol(m) => "provider error: "@ + m@,
        UploadError::DataIntegrity(m) => "incomplete provider response: "@ + m@,
    }
}

impl UploadError {
    /// The single human-readable message the command boundary surfaces.
    pub fn message(&self) -> (m: String)
        ensures
            m@ == error_chars(*self),
    {
        match self {
            UploadError::InvalidInput(t) => {
                let mut m = String::from_str("invalid input: ");
                m.append(t.as_str());
                m
            },
            UploadError::Transport(t) => {
                let mut m = String::from_str("transport error: ");
                m.append(t.as_str());
                m
            },
            UploadError::Protocol(t) => {
                let mut m = String::from_str("provider error: ");
                m.append(t.as_str());
                m
            },
            UploadError::DataIntegrity(t) => {
                let mut m = String::from_str("incomplete provider response: ");
                m.append(t.as_str());
                m
            },
        }
    }
}

/// A direct S3-compatible upload request: credentials, addressing, the
/// object key and the payload.
#[derive(Debug)]
pub struct UploadReq {
    pub access_key_id: String,
    pub secret_access_key: String,
    pub bucket: String,
    pub region: Option<String>,
    pub endpoint: Option<String>,
    pub force_path_style: bool,
    pub acl_public_read: bool,
    pub custom_domain: Option<String>,
    pub key: String,
    pub content_type: Option<String>,
    pub bytes: Vec<u8>,
}

impl UploadReq {
    /// The default of the addressing and ACL flags when a request leaves
    /// them out.
    pub fn default_true() -> (b: bool)
        ensures
            b,
    {
        true
    }
}

/// What an upload command answers: the key it stored and the public URL.
#[derive(Debug)]
pub struct UploadResp {
    pub key: String,
    pub public_url: String,
}

/// The inputs a direct upload must carry before any network call is made.
pub open spec fn upload_req_valid(req: UploadReq) -> bool {
    req.access_key_id@.len() > 0 && req.secret_access_key@.len() > 0 && req.bucket@.len() > 0
        && req.key@.len() > 0 && req.bytes@.len() > 0
}

/// Validates a direct upload request; rejects exactly the requests that
/// miss a credential, the bucket, the key or the payload.
pub fn validate_upload(req: &UploadReq) -> (r: Result<(), UploadError>)
    ensures
        r.is_ok() == upload_req_valid(*req),
        (r matches Err(e) ==> e is InvalidInput),
{
    if req.access_key_id.as_str().is_empty() {
        return Err(UploadError::InvalidInput(String::from_str("access key id is empty")));
    }
    if req.secret_access_key.as_str().is_empty() {
        return Err(UploadError::InvalidInput(String::from_str("secret access key is empty")));
    }
    if req.bucket.as_str().is_empty() {
        return Err(UploadError::InvalidInput(String::from_str("bucket is empty")));
    }
    if req.key.as_str().is_empty() {
        return Err(UploadError::InvalidInput(String::from_str("key is empty")));
    }
    if req.bytes.is_empty() {
        return Err(UploadError::InvalidInput(String::from_str("payload is empty")));
    }
    Ok(())
}

/// The public URL of a direct upload, by the resolver's rules; with the
/// stored key it is the whole successful answer.
pub fn upload_public_url(req: &UploadReq) -> (r: String)
    ensures
        r@ == public_url_chars(
            req.bucket@,
            opt_chars(req.endpoint),
            req.force_path_style,
            opt_chars(req.custom_domain),
            encode_utf8(req.key@),
        ),
{
    resolve_public_url(
        req.bucket.as_str(),
        match &req.endpoint {
            Some(e) => Some(e.as_str()),
            None => None,
        },
        req.force_path_style,
        match &req.custom_domain {
            Some(d) => Some(d.as_str()),
            None => None,
        },
        req.key.as_str(),
    )
}

/// Normalizes a successful S3-compatible upload into the one record shape
/// the ledger holds.
pub fn make_s3_record(
    id: String,
    bucket: String,
    key: String,
    public_url: String,
    uploaded_at: String,
    file_name: Option<String>,
    content_type: Option<String>,
    size: Option<u64>,
) -> (r: UploadedImageRecord)
    ensures
        r@.id == id@,
        r@.provider == Some(Provider::S3Compatible),
        r@.bucket == bucket@,
        r@.key == key@,
        r@.public_url == public_url@,
        r@.uploaded_at == uploaded_at@,
        r@.file_name == opt_chars(file_name),
        r@.content_type == opt_chars(content_type),
        r@.size == size,
        r@.remote_key is None,
        r@.album_id is None,
{
    UploadedImageRecord {
        id,
        provider: Some(Provider::S3Compatible),
        bucket,
        key,
        public_url,
        uploaded_at,
        file_name,
        content_type,
        size,
        remote_key: None,
        album_id: None,
    }
}

/// Normalizes a successful ImgLa upload into the one record shape the
/// ledger holds; the provider's numeric key is what a later delete uses.
pub fn make_imgla_record(
    id: String,
    public_url: String,
    uploaded_at: String,
    remote_key: u64,
    album_id: Option<u64>,
    file_name: Option<String>,
    size: Option<u64>,
) -> (r: UploadedImageRecord)
    ensures
        r@.id == id@,
        r@.provider == Some(Provider::ImgLa),
        r@.bucket == "imgla"@,
        r@.key == id@,
        r@.public_url == public_url@,
        r@.uploaded_at == uploaded_at@,
        r@.file_name == opt_chars(file_name),
        r@.content_type is None,
        r@.size == size,
        r@.remote_key == Some(remote_key),
        r@.album_id == album_id,
{
    let key = id.clone();
    UploadedImageRecord {
        id,
        provider: Some(Provider::ImgLa),
        bucket: String::from_str("imgla"),
        key,
        public_url,
        uploaded_at,
        file_name,
        content_type: None,
        size,
        remote_key: Some(remote_key),
        album_id,
    }
}

} // verus!
