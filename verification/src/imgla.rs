//! The ImgLa/Lsky upload dialect: request validation before any network
//! call, the fixed upload endpoint and form fields, and the strict judgment
//! of the provider's JSON answer — `status:false` is a failure whatever the
//! HTTP code said, and a success without a usable key and URL is a
//! data-integrity failure.
use vstd::prelude::*;
use crate::jsonfield::json_data_key_field;
use crate::jsonfield::json_data_key_of;
use crate::jsonfield::json_data_url_field;
use crate::jsonfield::json_data_url_of;
use crate::jsonfield::json_code_field;
use crate::jsonfield::json_code_of;
use crate::jsonfield::json_message_field;
use crate::jsonfield::json_message_of;
use crate::jsonfield::json_status_field;
use crate::jsonfield::json_status_of;
use crate::numtext::dec_chars;
use crate::numtext::u64_to_dec;
use crate::record::opt_chars;
use crate::resolve::trim_trailing_slashes;
use crate::resolve::trim_trailing_slashes_str;
use crate::upload::UploadError;

verus! {

/// An ImgLa upload request: the provider base URL, the bearer token, the
/// optional strategy and album ids, and the payload.
#[derive(Debug)]
pub struct ImgLaUploadReq {
    pub base_url: String,
    pub token: String,
    pub strategy_id: Option<u64>,
    pub album_id: Option<u64>,
    pub file_name: String,
    pub content_type: Option<String>,
    pub bytes: Vec<u8>,
}

/// What a successful ImgLa upload yields: the provider's numeric key (used
/// by delete) and the hosted URL.
#[derive(Debug)]
pub struct ImgLaUploadOk {
    pub remote_key: u64,
    pub url: String,
}

/// The inputs an ImgLa upload must carry before any network call is made.
pub open spec fn imgla_req_valid(req: ImgLaUploadReq) -> bool {
    req.base_url@.len() > 0 && req.token@.len() > 0 && req.bytes@.len() > 0 && (req.strategy_id
        matches Some(s) ==> s != 0) && (req.album_id matches Some(a) ==> a != 0)
}

/// Validates an ImgLa upload request; rejects exactly the requests that
/// miss the base URL, the token or the payload, or carry a zero id.
pub fn validate_imgla_upload(req: &ImgLaUploadReq) -> (r: Result<(), UploadError>)
    ensures
        r.is_ok() == imgla_req_valid(*req),
        (r matches Err(e) ==> e is InvalidInput),
{
    if req.base_url.as_str().is_empty() {
        return Err(UploadError::InvalidInput(String::from_str("base url is empty")));
    }
    if req.token.as_str().is_empty() {
        return Err(UploadError::InvalidInput(String::from_str("token is empty")));
    }
    if req.bytes.is_empty() {
        return Err(UploadError::InvalidInput(String::from_str("payload is empty")));
    }
    match req.strategy_id {
        Some(s) => {
            if s == 0 {
                return Err(UploadError::InvalidInput(String::from_str("strategy id is zero")));
            }
        },
        None => {},
    }
    match req.album_id {
        Some(a) => {
            if a == 0 {
                return Err(UploadError::InvalidInput(String::from_str("album id is zero")));
            }
        },
        None => {},
    }
    Ok(())
}

/// The fixed upload endpoint under a provider base URL.
pub fn imgla_upload_url(base_url: &str) -> (r: String)
    ensures
        r@ == trim_trailing_slashes(base_url@) + "/api/v1/upload"@,
{
    let mut r = trim_trailing_slashes_str(base_url);
    r.append("/api/v1/upload");
    r
}

/// The views of a run of form fields.
pub open spec fn field_views(v: Seq<(String, String)>) -> Seq<(Seq<char>, Seq<char>)> {
    v.map_values(|p: (String, String)| (p.0@, p.1@))
}

/// The multipart form fields of an ImgLa upload besides the file itself:
/// `permission=0` always, then the strategy and album ids that were given.
pub open spec fn imgla_fields_spec(strategy_id: Option<u64>, album_id: Option<u64>) -> Seq<
    (Seq<char>, Seq<char>),
> {
    let base = seq![("permission"@, "0"@)];
    let with_strategy = match strategy_id {
        Some(s) => base.push(("strategy_id"@, dec_chars(s as nat))),
        None => base,
    };
    match album_id {
        Some(a) => with_strategy.push(("album_id"@, dec_chars(a as nat))),
        None => with_strategy,
    }
}

/// Builds the multipart form fields of an ImgLa upload.
pub fn imgla_form_fields(strategy_id: Option<u64>, album_id: Option<u64>) -> (r: Vec<
    (String, String),
>)
    ensures
        field_views(r@) == imgla_fields_spec(strategy_id, album_id),
{
    let mut r: Vec<(String, String)> = Vec::new();
    r.push((String::from_str("permission"), String::from_str("0")));
    match strategy_id {
        Some(s) => {
            r.push((String::from_str("strategy_id"), u64_to_dec(s)));
        },
        None => {},
    }
    match album_id {
        Some(a) => {
            r.push((String::from_str("album_id"), u64_to_dec(a)));
        },
        None => {},
    }
    proof {
        assert(field_views(r@) =~= imgla_fields_spec(strategy_id, album_id));
    }
    r
}

/// A provider answer carries what a record needs: a non-zero numeric key
/// and a non-empty hosted URL.
pub open spec fn imgla_payload_ok(key: Option<u64>, url: Option<Seq<char>>) -> bool {
    (key matches Some(k) && k != 0) && (url matches Some(u) && u.len() > 0)
}

/// The protocol-failure text: the provider's own message when it sent one.
pub open spec fn imgla_failure_chars(message: Option<Seq<char>>) -> Seq<char> {
    match message {
        Some(m) => m,
        None => "upload failed"@,
    }
}

/// The provider's failure text field: `message` first, then `code`.
pub open spec fn msg_or_code(message: Option<Seq<char>>, code: Option<Seq<char>>) -> Option<
    Seq<char>,
> {
    match message {
        Some(m) => Some(m),
        None => code,
    }
}

/// Picks the provider's failure text: the `message` field, else the `code`
/// field.
pub fn choose_failure_text(message: Option<String>, code: Option<String>) -> (r: Option<String>)
    ensures
        opt_chars(r) == msg_or_code(opt_chars(message), opt_chars(code)),
{
    match message {
        Some(m) => Some(m),
        None => code,
    }
}

/// Judges an ImgLa upload answer from its already-extracted fields.
/// `status:false` is a protocol failure whatever `http_status` said; a
/// missing or unreadable `status` is a protocol failure too; success needs
/// a 2xx HTTP status on top of `status:true`, and then a usable key and
/// URL, else the answer is a data-integrity failure.
pub fn judge_imgla_response(
    http_status: u16,
    json_status: Option<bool>,
    message: Option<String>,
    data_key: Option<u64>,
    data_url: Option<String>,
) -> (r: Result<ImgLaUploadOk, UploadError>)
    ensures
        r.is_ok() <==> (200 <= http_status < 300 && json_status == Some(true) && imgla_payload_ok(
            data_key,
            opt_chars(data_url),
        )),
        (r matches Ok(ok) ==> Some(ok.remote_key) == data_key && Some(ok.url@) == opt_chars(
            data_url,
        )),
        (json_status == Some(false) ==> (r matches Err(e) && e matches UploadError::Protocol(m)
            && m@ == imgla_failure_chars(opt_chars(message)))),
        (json_status is None ==> (r matches Err(e) && e matches UploadError::Protocol(m) && m@ == (
        if 200 <= http_status < 300 {
            "unreadable response body"@
        } else {
            "HTTP "@ + dec_chars(http_status as nat)
        }))),
        (json_status == Some(true) && !(200 <= http_status < 300) ==> (r matches Err(e)
            && e matches UploadError::Protocol(m) && m@ == "HTTP "@ + dec_chars(
            http_status as nat,
        ))),
        (200 <= http_status < 300 && json_status == Some(true) && !imgla_payload_ok(
            data_key,
            opt_chars(data_url),
        ) ==> (r matches Err(e) && e is DataIntegrity)),
{
    match json_status {
        None => {
            if 200 <= http_status && http_status < 300 {
                Err(UploadError::Protocol(String::from_str("unreadable response body")))
            } else {
                let mut m = String::from_str("HTTP ");
                let d = u64_to_dec(http_status as u64);
                m.append(d.as_str());
                Err(UploadError::Protocol(m))
            }
        },
        Some(false) => {
            let m = match message {
                Some(t) => t,
                None => String::from_str("upload failed"),
            };
            Err(UploadError::Protocol(m))
        },
        Some(true) => {
            if !(200 <= http_status && http_status < 300) {
                let mut m = String::from_str("HTTP ");
                let d = u64_to_dec(http_status as u64);
                m.append(d.as_str());
                return Err(UploadError::Protocol(m));
            }
            let key = match data_key {
                Some(k) => k,
                None => {
                    return Err(
                        UploadError::DataIntegrity(String::from_str("missing numeric data.key")),
                    );
                },
            };
            if key == 0 {
                return Err(UploadError::DataIntegrity(String::from_str("data.key is zero")));
            }
            let url = match data_url {
                Some(u) => u,
                None => {
                    return Err(
                        UploadError::DataIntegrity(String::from_str("missing data.links.url")),
                    );
                },
            };
            if url.as_str().is_empty() {
                return Err(UploadError::DataIntegrity(String::from_str("empty data.links.url")));
            }
            Ok(ImgLaUploadOk { remote_key: key, url })
        },
    }
}

/// Reads an ImgLa upload answer: extracts the JSON fields and judges them.
/// A 200 with `status:true` but `data.key == 0` is rejected as a
/// data-integrity failure even though the HTTP layer reported success, and
/// a status-true body under a non-2xx HTTP status is a protocol failure.
pub fn parse_imgla_upload_response(http_status: u16, body: &str) -> (r: Result<
    ImgLaUploadOk,
    UploadError,
>)
    ensures
        r.is_ok() <==> (200 <= http_status < 300 && json_status_of(body@) == Some(true)
            && imgla_payload_ok(json_data_key_of(body@), json_data_url_of(body@))),
        (r matches Ok(ok) ==> Some(ok.remote_key) == json_data_key_of(body@) && Some(ok.url@)
            == json_data_url_of(body@)),
        (json_status_of(body@) == Some(false) ==> (r matches Err(e) && e matches
            UploadError::Protocol(m) && m@ == imgla_failure_chars(
            msg_or_code(json_message_of(body@), json_code_of(body@)),
        ))),
        (json_status_of(body@) is None ==> (r matches Err(e) && e is Protocol)),
        (json_status_of(body@) == Some(true) && !(200 <= http_status < 300) ==> (r matches Err(e)
            && e is Protocol)),
        (200 <= http_status < 300 && json_status_of(body@) == Some(true) && !imgla_payload_ok(
            json_data_key_of(body@),
            json_data_url_of(body@),
        ) ==> (r matches Err(e) && e is DataIntegrity)),
{
    let status = json_status_field(body);
    let message = json_message_field(body);
    let code = json_code_field(body);
    let failure_text = choose_failure_text(message, code);
    let key = json_data_key_field(body);
    let url = json_data_url_field(body);
    judge_imgla_response(http_status, status, failure_text, key, url)
}

} // verus!
