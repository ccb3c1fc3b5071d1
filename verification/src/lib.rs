//! Verified core of a multi-provider object-storage client: canonical URL
//! resolution, SigV4 presigning, upload/delete orchestration decisions, and a
//! deduplicated, capacity-bounded ledger of uploaded images.
use vstd::prelude::*;

mod crypto;
mod deletefb;
mod encode;
mod imgla;
mod jsonfield;
mod ledger;
mod numtext;
mod presign;
mod record;
mod resolve;
mod textscan;
mod timefmt;
mod transport;
mod update_check;
mod upload;
mod urlinfo;

pub use encode::percent_encode_all;
pub use encode::percent_encode_key_segments;
pub use encode::percent_decode_bytes;
pub use numtext::u64_to_dec;
pub use timefmt::UtcInstant;
pub use timefmt::format_amz_date;
pub use timefmt::format_date_stamp;
pub use timefmt::now_utc;
pub use resolve::resolve_public_url;
pub use resolve::trim_trailing_slashes_str;
pub use urlinfo::EndpointParts;
pub use crypto::hex_lower;
pub use crypto::hmac_sha256;
pub use crypto::sha256;
pub use presign::PresignReq;
pub use presign::PresignResp;
pub use presign::presign_put;
pub use presign::presign_put_at;
pub use presign::sigv4_signature;
pub use record::DeleteIdentity;
pub use record::Provider;
pub use record::UploadedImageRecord;
pub use record::clone_record;
pub use record::delete_matches_record;
pub use record::record_is_imgla;
pub use record::same_identity;
pub use ledger::Ledger;
pub use textscan::ascii_lowercase;
pub use textscan::str_contains;
pub use textscan::str_ends_with;
pub use textscan::str_starts_with;
pub use upload::UploadError;
pub use upload::UploadReq;
pub use upload::UploadResp;
pub use upload::make_imgla_record;
pub use upload::make_s3_record;
pub use upload::upload_public_url;
pub use upload::validate_upload;
pub use imgla::ImgLaUploadOk;
pub use imgla::ImgLaUploadReq;
pub use imgla::imgla_form_fields;
pub use imgla::imgla_upload_url;
pub use imgla::judge_imgla_response;
pub use imgla::parse_imgla_upload_response;
pub use imgla::validate_imgla_upload;
pub use deletefb::DeleteAttempt;
pub use deletefb::classify_delete_response;
pub use deletefb::delete_candidate_urls;
pub use deletefb::delete_fallback_verdict;
pub use transport::Transport;
pub use transport::backoff_ms;
pub use transport::fetch_order;
pub use transport::is_transient_error;
pub use transport::resolve_fetch_fallback;
pub use transport::xmlrpc_outcome;
pub use update_check::GhAsset;
pub use update_check::GhRelease;
pub use update_check::UpdateAssetInfo;
pub use update_check::asset_info;
pub use update_check::gh_proxy_url;
pub use update_check::is_better;
pub use update_check::match_linux_assets;
pub use update_check::match_macos_assets;
pub use update_check::match_windows_asset;
pub use update_check::norm_ver;
pub use update_check::pick_release;
pub use update_check::CheckUpdateResp;
pub use update_check::OsTag;
pub use update_check::check_update_from_releases;
pub use transport::asset_file_name;
