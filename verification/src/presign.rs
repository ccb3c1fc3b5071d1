//! The SigV4 presigner: builds the canonical request, derives the scoped
//! signing key, and emits a time-limited presigned PUT URL, together with
//! the plain public URL of the object by the resolver's rules. Pure given
//! the captured instant; the only outside work is hashing and MACing.
use vstd::prelude::*;
use vstd::utf8::encode_utf8;
use crate::crypto::hex_lower;
use crate::crypto::hex_lower_chars;
use crate::crypto::hmac_sha256;
use crate::crypto::hmac_sha256_of;
use crate::crypto::is_lower_hex_char;
use crate::crypto::sha256;
use crate::crypto::sha256_of;
use crate::encode::pct_encode_full;
use crate::encode::pct_encode_segments;
use crate::encode::percent_encode_all;
use crate::encode::percent_encode_key_segments;
use crate::numtext::dec_chars;
use crate::numtext::lex_lt;
use crate::numtext::u64_to_dec;
use crate::resolve::port_part;
use crate::resolve::public_url_chars;
use crate::resolve::resolve_public_url;
use crate::resolve::trim_trailing_slashes;
use crate::resolve::trim_trailing_slashes_str;
use crate::timefmt::UtcInstant;
use crate::timefmt::amz_date_chars;
use crate::timefmt::date_stamp_chars;
use crate::timefmt::format_amz_date;
use crate::timefmt::format_date_stamp;
use crate::timefmt::now_utc;
use crate::urlinfo::EndpointParts;
use crate::urlinfo::parse_endpoint;
use crate::urlinfo::url_host_of;
use crate::urlinfo::url_is_valid;
use crate::urlinfo::url_path_of;
use crate::urlinfo::url_port_of;
use crate::urlinfo::url_scheme_of;

verus! {

/// A presign request: credentials, addressing, object key and expiry.
#[derive(Debug)]
pub struct PresignReq {
    pub access_key_id: String,
    pub secret_access_key: String,
    pub bucket: String,
    pub region: Option<String>,
    pub endpoint: Option<String>,
    pub force_path_style: bool,
    pub custom_domain: Option<String>,
    pub key: String,
    pub expires: Option<u32>,
}

/// A presigned PUT URL and the object's plain public URL.
#[derive(Debug)]
pub struct PresignResp {
    pub put_url: String,
    pub public_url: String,
}

/// The view of an optional text field.
pub open spec fn opt_text(o: Option<String>) -> Option<Seq<char>> {
    match o {
        Some(s) => Some(s@),
        None => None,
    }
}

/// The effective region: `us-east-1` when none is given.
pub open spec fn region_chars(req: PresignReq) -> Seq<char> {
    match req.region {
        Some(r) => r@,
        None => "us-east-1"@,
    }
}

/// The effective expiry in seconds: 600 when none is given.
pub open spec fn expires_val(req: PresignReq) -> u32 {
    match req.expires {
        Some(e) => e,
        None => 600,
    }
}

/// The effective endpoint text: the default public AWS S3 domain when none
/// is given.
pub open spec fn endpoint_chars(req: PresignReq) -> Seq<char> {
    match req.endpoint {
        Some(e) => e@,
        None => "https://s3.amazonaws.com"@,
    }
}

/// The credential scope `dateStamp/region/s3/aws4_request`.
pub open spec fn scope_chars(req: PresignReq, t: UtcInstant) -> Seq<char> {
    date_stamp_chars(t) + "/"@ + region_chars(req) + "/s3/aws4_request"@
}

/// The object key under segment-preserving encoding.
pub open spec fn encoded_key_chars(req: PresignReq) -> Seq<char> {
    pct_encode_segments(encode_utf8(req.key@))
}

/// The host that the canonical request's `host` header carries: the
/// endpoint's host for path-style, `bucket.host` for virtual-host.
pub open spec fn signing_host_chars(req: PresignReq) -> Seq<char> {
    if req.force_path_style {
        url_host_of(endpoint_chars(req))
    } else {
        req.bucket@ + "."@ + url_host_of(endpoint_chars(req))
    }
}

/// The canonical URI: `endpointPath/bucket/encodedKey` for path-style,
/// `/encodedKey` for virtual-host.
pub open spec fn canonical_uri_chars(req: PresignReq) -> Seq<char> {
    if req.force_path_style {
        trim_trailing_slashes(url_path_of(endpoint_chars(req))) + "/"@ + req.bucket@ + "/"@
            + encoded_key_chars(req)
    } else {
        "/"@ + encoded_key_chars(req)
    }
}

/// The scheme-and-host prefix the presigned URL starts with. Path-style
/// keeps the endpoint's explicit port; virtual-host rebuilds the authority
/// as `bucket.host`.
pub open spec fn base_prefix_chars(req: PresignReq) -> Seq<char> {
    let ep = endpoint_chars(req);
    if req.force_path_style {
        url_scheme_of(ep) + "://"@ + url_host_of(ep) + port_part(url_port_of(ep))
    } else {
        url_scheme_of(ep) + "://"@ + req.bucket@ + "."@ + url_host_of(ep)
    }
}

/// The `X-Amz-Credential` value before query encoding.
pub open spec fn credential_chars(req: PresignReq, t: UtcInstant) -> Seq<char> {
    req.access_key_id@ + "/"@ + scope_chars(req, t)
}

/// The presigned query parameters, already in byte order of their names.
/// Every name and value is its own RFC 3986 query encoding except the
/// credential, whose `/` separators must be escaped.
pub open spec fn presign_query_pairs(req: PresignReq, t: UtcInstant) -> Seq<
    (Seq<char>, Seq<char>),
> {
    seq![
        ("X-Amz-Algorithm"@, "AWS4-HMAC-SHA256"@),
        ("X-Amz-Credential"@, pct_encode_full(encode_utf8(credential_chars(req, t)))),
        ("X-Amz-Date"@, amz_date_chars(t)),
        ("X-Amz-Expires"@, dec_chars(expires_val(req) as nat)),
        ("X-Amz-SignedHeaders"@, "host"@),
    ]
}

/// `k=v` pairs joined with `&`.
pub open spec fn join_pairs(ps: Seq<(Seq<char>, Seq<char>)>) -> Seq<char>
    decreases ps.len(),
{
    if ps.len() == 0 {
        Seq::empty()
    } else if ps.len() == 1 {
        ps[0].0 + "="@ + ps[0].1
    } else {
        ps[0].0 + "="@ + ps[0].1 + "&"@ + join_pairs(ps.drop_first())
    }
}

/// The canonical query string.
pub open spec fn canonical_query_chars(req: PresignReq, t: UtcInstant) -> Seq<char> {
    join_pairs(presign_query_pairs(req, t))
}

/// The canonical request that gets hashed: method, URI, query, the lone
/// `host` header, and an unsigned payload.
pub open spec fn canonical_request_chars(req: PresignReq, t: UtcInstant) -> Seq<char> {
    "PUT\n"@ + canonical_uri_chars(req) + "\n"@ + canonical_query_chars(req, t) + "\nhost:"@
        + signing_host_chars(req) + "\n\nhost\nUNSIGNED-PAYLOAD"@
}

/// The string to sign: algorithm, timestamp, scope, and the hex digest of
/// the canonical request.
pub open spec fn string_to_sign_chars(req: PresignReq, t: UtcInstant) -> Seq<char> {
    "AWS4-HMAC-SHA256\n"@ + amz_date_chars(t) + "\n"@ + scope_chars(req, t) + "\n"@
        + hex_lower_chars(sha256_of(encode_utf8(canonical_request_chars(req, t))))
}

/// The scoped signing key: HMAC chained over date stamp, region, service
/// and the `aws4_request` terminator, seeded with `AWS4` + secret key.
pub open spec fn signing_key_bytes(
    secret: Seq<char>,
    date_stamp: Seq<char>,
    region: Seq<char>,
) -> Seq<u8> {
    let k_date = hmac_sha256_of(encode_utf8("AWS4"@ + secret), encode_utf8(date_stamp));
    let k_region = hmac_sha256_of(k_date, encode_utf8(region));
    let k_service = hmac_sha256_of(k_region, encode_utf8("s3"@));
    hmac_sha256_of(k_service, encode_utf8("aws4_request"@))
}

/// The final hex signature of a presign request at an instant.
pub open spec fn signature_chars(req: PresignReq, t: UtcInstant) -> Seq<char> {
    hex_lower_chars(
        hmac_sha256_of(
            signing_key_bytes(req.secret_access_key@, date_stamp_chars(t), region_chars(req)),
            encode_utf8(string_to_sign_chars(req, t)),
        ),
    )
}

/// The full presigned PUT URL: base, canonical URI, the sorted query, and
/// the signature appended last.
pub open spec fn presign_put_url_chars(req: PresignReq, t: UtcInstant) -> Seq<char> {
    base_prefix_chars(req) + canonical_uri_chars(req) + "?"@ + canonical_query_chars(req, t)
        + "&X-Amz-Signature="@ + signature_chars(req, t)
}

/// Derives the SigV4 signature for a string-to-sign under the scoped key of
/// `dateStamp/region/s3`. The result is always 64 lowercase hex characters.
pub fn sigv4_signature(
    secret_access_key: &str,
    date_stamp: &str,
    region: &str,
    string_to_sign: &str,
) -> (s: String)
    ensures
        s@ == hex_lower_chars(
            hmac_sha256_of(
                signing_key_bytes(secret_access_key@, date_stamp@, region@),
                encode_utf8(string_to_sign@),
            ),
        ),
        s@.len() == 64,
        forall|i: int| 0 <= i < s@.len() ==> is_lower_hex_char(s@[i]),
{
    let mut seed = String::from_str("AWS4");
    seed.append(secret_access_key);
    let k_date = hmac_sha256(seed.as_str().as_bytes(), date_stamp.as_bytes());
    let k_region = hmac_sha256(k_date.as_slice(), region.as_bytes());
    let k_service = hmac_sha256(k_region.as_slice(), "s3".as_bytes());
    let k_signing = hmac_sha256(k_service.as_slice(), "aws4_request".as_bytes());
    let tag = hmac_sha256(k_signing.as_slice(), string_to_sign.as_bytes());
    hex_lower(tag.as_slice())
}

/// The three addressing-dependent pieces of the presigned URL.
struct Addressing {
    canonical_uri: String,
    host_sig: String,
    base_prefix: String,
}

/// Builds the canonical URI, signing host and URL prefix from the parsed
/// effective endpoint.
fn build_addressing(req: &PresignReq, parts: EndpointParts) -> (a: Addressing)
    requires
        parts.scheme@ == url_scheme_of(endpoint_chars(*req)),
        parts.host@ == url_host_of(endpoint_chars(*req)),
        parts.port == url_port_of(endpoint_chars(*req)),
        parts.path@ == url_path_of(endpoint_chars(*req)),
    ensures
        a.canonical_uri@ == canonical_uri_chars(*req),
        a.host_sig@ == signing_host_chars(*req),
        a.base_prefix@ == base_prefix_chars(*req),
{
    let enc_key = percent_encode_key_segments(req.key.as_str().as_bytes());
    if req.force_path_style {
        let mut u = trim_trailing_slashes_str(parts.path.as_str());
        u.append("/");
        u.append(req.bucket.as_str());
        u.append("/");
        u.append(enc_key.as_str());
        let host_sig = parts.host.clone();
        let mut b = parts.scheme.clone();
        b.append("://");
        b.append(parts.host.as_str());
        match parts.port {
            Some(n) => {
                b.append(":");
                let d = u64_to_dec(n as u64);
                b.append(d.as_str());
            },
            None => {},
        }
        proof {
            assert(u@ =~= canonical_uri_chars(*req));
            assert(b@ =~= base_prefix_chars(*req));
        }
        Addressing { canonical_uri: u, host_sig, base_prefix: b }
    } else {
        let mut u = String::from_str("/");
        u.append(enc_key.as_str());
        let mut h = req.bucket.clone();
        h.append(".");
        h.append(parts.host.as_str());
        let mut b = parts.scheme.clone();
        b.append("://");
        b.append(h.as_str());
        proof {
            assert(u@ =~= canonical_uri_chars(*req));
            assert(h@ =~= signing_host_chars(*req));
            assert(b@ =~= base_prefix_chars(*req));
        }
        Addressing { canonical_uri: u, host_sig: h, base_prefix: b }
    }
}

/// Builds the canonical query string, parameters in sorted order, the
/// credential value escaped.
#[verifier::rlimit(100)]
fn build_canonical_query(req: &PresignReq, t: &UtcInstant, scope: &str, amz_date: &str) -> (q:
    String)
    requires
        scope@ == scope_chars(*req, *t),
        amz_date@ == amz_date_chars(*t),
    ensures
        q@ == canonical_query_chars(*req, *t),
{
    let expires: u32 = match req.expires {
        Some(e) => e,
        None => 600,
    };
    let mut cred = req.access_key_id.clone();
    cred.append("/");
    cred.append(scope);
    let cred_enc = percent_encode_all(cred.as_str().as_bytes());
    let expires_dec = u64_to_dec(expires as u64);

    let mut query = String::from_str("X-Amz-Algorithm");
    query.append("=");
    query.append("AWS4-HMAC-SHA256");
    query.append("&");
    query.append("X-Amz-Credential");
    query.append("=");
    query.append(cred_enc.as_str());
    query.append("&");
    query.append("X-Amz-Date");
    query.append("=");
    query.append(amz_date);
    query.append("&");
    query.append("X-Amz-Expires");
    query.append("=");
    query.append(expires_dec.as_str());
    query.append("&");
    query.append("X-Amz-SignedHeaders");
    query.append("=");
    query.append("host");
    proof {
        reveal_with_fuel(join_pairs, 8);
        let ps = presign_query_pairs(*req, *t);
        assert(ps.drop_first() =~= ps.subrange(1, 5));
        assert(ps.subrange(1, 5).drop_first() =~= ps.subrange(2, 5));
        assert(ps.subrange(2, 5).drop_first() =~= ps.subrange(3, 5));
        assert(ps.subrange(3, 5).drop_first() =~= ps.subrange(4, 5));
        assert(query@ =~= canonical_query_chars(*req, *t));
    }
    query
}

/// Presigns a PUT of `key` as of the instant `t`: succeeds exactly when the
/// effective endpoint parses as a URL with a host, and then returns the
/// presigned URL of [`presign_put_url_chars`] together with the public URL
/// of the resolver's rules. Pure: same request and instant, same answer.
pub fn presign_put_at(req: &PresignReq, t: &UtcInstant) -> (r: Result<PresignResp, String>)
    requires
        t.wf(),
    ensures
        r.is_ok() == url_is_valid(endpoint_chars(*req)),
        (r matches Ok(resp) ==> resp.put_url@ == presign_put_url_chars(*req, *t)
            && resp.public_url@ == public_url_chars(
            req.bucket@,
            opt_text(req.endpoint),
            req.force_path_style,
            opt_text(req.custom_domain),
            encode_utf8(req.key@),
        )),
        (r matches Err(e) ==> e@ == "invalid endpoint"@),
{
    let ep_str: &str = match &req.endpoint {
        Some(e) => e.as_str(),
        None => "https://s3.amazonaws.com",
    };
    let parts = match parse_endpoint(ep_str) {
        Some(p) => p,
        None => {
            return Err(String::from_str("invalid endpoint"));
        },
    };

    let amz_date = format_amz_date(t);
    let date_stamp = format_date_stamp(t);
    let region = match &req.region {
        Some(r) => r.clone(),
        None => String::from_str("us-east-1"),
    };
    let expires: u32 = match req.expires {
        Some(e) => e,
        None => 600,
    };

    let mut scope = date_stamp.clone();
    scope.append("/");
    scope.append(region.as_str());
    scope.append("/s3/aws4_request");
    proof {
        assert(scope@ =~= scope_chars(*req, *t));
    }

    let addressing = build_addressing(req, parts);
    let canonical_uri = addressing.canonical_uri;
    let host_sig = addressing.host_sig;
    let base_prefix = addressing.base_prefix;

    let query = build_canonical_query(req, t, scope.as_str(), amz_date.as_str());

    let mut canonical_request = String::from_str("PUT\n");
    canonical_request.append(canonical_uri.as_str());
    canonical_request.append("\n");
    canonical_request.append(query.as_str());
    canonical_request.append("\nhost:");
    canonical_request.append(host_sig.as_str());
    canonical_request.append("\n\nhost\nUNSIGNED-PAYLOAD");
    proof {
        assert(canonical_request@ =~= canonical_request_chars(*req, *t));
    }

    let digest = sha256(canonical_request.as_str().as_bytes());
    let digest_hex = hex_lower(digest.as_slice());

    let mut string_to_sign = String::from_str("AWS4-HMAC-SHA256\n");
    string_to_sign.append(amz_date.as_str());
    string_to_sign.append("\n");
    string_to_sign.append(scope.as_str());
    string_to_sign.append("\n");
    string_to_sign.append(digest_hex.as_str());
    proof {
        assert(string_to_sign@ =~= string_to_sign_chars(*req, *t));
    }

    let signature = sigv4_signature(
        req.secret_access_key.as_str(),
        date_stamp.as_str(),
        region.as_str(),
        string_to_sign.as_str(),
    );

    let mut put_url = base_prefix;
    put_url.append(canonical_uri.as_str());
    put_url.append("?");
    put_url.append(query.as_str());
    put_url.append("&X-Amz-Signature=");
    put_url.append(signature.as_str());
    proof {
        assert(put_url@ =~= presign_put_url_chars(*req, *t));
    }

    let public_url = resolve_public_url(
        req.bucket.as_str(),
        match &req.endpoint {
            Some(e) => Some(e.as_str()),
            None => None,
        },
        req.force_path_style,
        match &req.custom_domain {
            Some(d) => Some(d.as_str()),
            None => None,
        },
        req.key.as_str(),
    );

    Ok(PresignResp { put_url, public_url })
}

/// Presigns a PUT as of now: whatever instant the clock returned, the
/// result is [`presign_put_at`] of that instant, and the public URL does
/// not depend on the clock at all.
pub fn presign_put(req: &PresignReq) -> (r: Result<PresignResp, String>)
    ensures
        r.is_ok() == url_is_valid(endpoint_chars(*req)),
        (r matches Ok(resp) ==> resp.public_url@ == public_url_chars(
            req.bucket@,
            opt_text(req.endpoint),
            req.force_path_style,
            opt_text(req.custom_domain),
            encode_utf8(req.key@),
        ) && exists|t: UtcInstant| t.wf() && resp.put_url@ == presign_put_url_chars(*req, t)),
        (r matches Err(e) ==> e@ == "invalid endpoint"@),
{
    let t = now_utc();
    let r = presign_put_at(req, &t);
    proof {
        if r.is_ok() {
            assert(r->Ok_0.put_url@ == presign_put_url_chars(*req, t));
        }
    }
    r
}

/// Law: the presigned query parameters stand in strictly increasing byte
/// order of their names, the signature excepted, which comes last by
/// construction of [`presign_put_url_chars`].
pub proof fn lemma_presign_query_sorted(req: PresignReq, t: UtcInstant)
    ensures
        forall|i: int, j: int|
            0 <= i < j < presign_query_pairs(req, t).len() ==> lex_lt(
                presign_query_pairs(req, t)[i].0,
                presign_query_pairs(req, t)[j].0,
            ),
{
    reveal_with_fuel(lex_lt, 20);
    reveal_strlit("X-Amz-Algorithm");
    reveal_strlit("X-Amz-Credential");
    reveal_strlit("X-Amz-Date");
    reveal_strlit("X-Amz-Expires");
    reveal_strlit("X-Amz-SignedHeaders");
    assert(lex_lt("X-Amz-Algorithm"@, "X-Amz-Credential"@));
    assert(lex_lt("X-Amz-Algorithm"@, "X-Amz-Date"@));
    assert(lex_lt("X-Amz-Algorithm"@, "X-Amz-Expires"@));
    assert(lex_lt("X-Amz-Algorithm"@, "X-Amz-SignedHeaders"@));
    assert(lex_lt("X-Amz-Credential"@, "X-Amz-Date"@));
    assert(lex_lt("X-Amz-Credential"@, "X-Amz-Expires"@));
    assert(lex_lt("X-Amz-Credential"@, "X-Amz-SignedHeaders"@));
    assert(lex_lt("X-Amz-Date"@, "X-Amz-Expires"@));
    assert(lex_lt("X-Amz-Date"@, "X-Amz-SignedHeaders"@));
    assert(lex_lt("X-Amz-Expires"@, "X-Amz-SignedHeaders"@));
}

/// Law: changing only the expiry changes only the `X-Amz-Expires` value
/// (and, through the string to sign, the signature): every other query
/// pair, the parameter order, the base prefix and the canonical URI stay
/// the same.
pub proof fn lemma_expiry_changes_only_expires(r1: PresignReq, r2: PresignReq, t: UtcInstant)
    requires
        r1.access_key_id@ == r2.access_key_id@,
        r1.secret_access_key@ == r2.secret_access_key@,
        r1.bucket@ == r2.bucket@,
        opt_text(r1.region) == opt_text(r2.region),
        opt_text(r1.endpoint) == opt_text(r2.endpoint),
        r1.force_path_style == r2.force_path_style,
        opt_text(r1.custom_domain) == opt_text(r2.custom_domain),
        r1.key@ == r2.key@,
    ensures
        presign_query_pairs(r1, t).len() == presign_query_pairs(r2, t).len(),
        forall|i: int|
            0 <= i < presign_query_pairs(r1, t).len() && i != 3 ==> presign_query_pairs(r1, t)[i]
                == presign_query_pairs(r2, t)[i],
        presign_query_pairs(r1, t)[3].0 == presign_query_pairs(r2, t)[3].0,
        base_prefix_chars(r1) == base_prefix_chars(r2),
        canonical_uri_chars(r1) == canonical_uri_chars(r2),
        signing_host_chars(r1) == signing_host_chars(r2),
{
    assert(region_chars(r1) == region_chars(r2));
    assert(endpoint_chars(r1) == endpoint_chars(r2));
    assert(credential_chars(r1, t) == credential_chars(r2, t));
    assert(encoded_key_chars(r1) == encoded_key_chars(r2));
}

} // verus!
