//! The canonical URL resolver: from bucket, optional endpoint, addressing
//! mode, optional custom domain and an object key, the public-facing URL of
//! the object. Pure and deterministic; both the direct-upload path and the
//! presigner's public-URL field go through it, so the two always agree.
use vstd::prelude::*;
use vstd::string::StringSliceAdditionalSpecFns;
use crate::encode::pct_encode_full;
use crate::encode::percent_encode_all;
use crate::numtext::dec_chars;
use crate::numtext::u64_to_dec;
use crate::urlinfo::EndpointParts;
use crate::urlinfo::parse_endpoint;
use crate::urlinfo::url_host_of;
use crate::urlinfo::url_is_valid;
use crate::urlinfo::url_path_of;
use crate::urlinfo::url_port_of;
use crate::urlinfo::url_scheme_of;

verus! {

/// The text with every trailing `/` removed.
pub open spec fn trim_trailing_slashes(s: Seq<char>) -> Seq<char>
    decreases s.len(),
{
    if s.len() > 0 && s[s.len() - 1] == '/' {
        trim_trailing_slashes(s.drop_last())
    } else {
        s
    }
}

/// The `:port` URL fragment, empty when no explicit port is present.
pub open spec fn port_part(p: Option<u16>) -> Seq<char> {
    match p {
        Some(n) => ":"@ + dec_chars(n as nat),
        None => Seq::empty(),
    }
}

/// The endpoint path carried into a virtual-host URL; a bare `/` is omitted.
pub open spec fn path_part(path: Seq<char>) -> Seq<char> {
    if path == "/"@ {
        Seq::empty()
    } else {
        path
    }
}

/// The public URL of an object, by the priority rules: custom domain first,
/// then path-style against the (trimmed) endpoint, then virtual-host against
/// the endpoint's parsed parts (an endpoint that does not parse falls back
/// to the path-style shape), and without any endpoint the default public AWS
/// S3 domain. The key is embedded under the aggressive public-URL encoding.
pub open spec fn public_url_chars(
    bucket: Seq<char>,
    endpoint: Option<Seq<char>>,
    force_path_style: bool,
    custom_domain: Option<Seq<char>>,
    key_bytes: Seq<u8>,
) -> Seq<char> {
    let enc = pct_encode_full(key_bytes);
    match custom_domain {
        Some(d) => trim_trailing_slashes(d) + "/"@ + enc,
        None => match endpoint {
            Some(ep) => {
                let t = trim_trailing_slashes(ep);
                if force_path_style {
                    t + "/"@ + bucket + "/"@ + enc
                } else if url_is_valid(t) {
                    url_scheme_of(t) + "://"@ + bucket + "."@ + url_host_of(t) + port_part(
                        url_port_of(t),
                    ) + path_part(url_path_of(t)) + "/"@ + enc
                } else {
                    t + "/"@ + bucket + "/"@ + enc
                }
            },
            None => {
                if force_path_style {
                    "https://s3.amazonaws.com/"@ + bucket + "/"@ + enc
                } else {
                    "https://"@ + bucket + ".s3.amazonaws.com/"@ + enc
                }
            },
        },
    }
}

/// Returns a copy of the text with every trailing `/` removed.
pub fn trim_trailing_slashes_str(s: &str) -> (r: String)
    ensures
        r@ == trim_trailing_slashes(s@),
{
    let n = s.unicode_len();
    let mut end = n;
    proof {
        assert(s@.take(n as int) =~= s@);
    }
    while end > 0 && s.get_char(end - 1) == '/'
        invariant
            end <= n,
            n == s@.len(),
            trim_trailing_slashes(s@) == trim_trailing_slashes(s@.take(end as int)),
        decreases end,
    {
        proof {
            assert(s@.take(end as int).drop_last() =~= s@.take(end - 1));
        }
        end = end - 1;
    }
    proof {
        if end > 0 {
            assert(s@.take(end as int)[end - 1] == s@[end - 1]);
        }
        assert(trim_trailing_slashes(s@.take(end as int)) == s@.take(end as int));
    }
    let r = s.substring_char(0, end);
    proof {
        assert(r@ =~= s@.take(end as int));
    }
    r.to_owned()
}

/// Resolves the public URL of `key` in `bucket` (§public URL rules above).
/// No network, no clock: a pure function of its inputs.
pub fn resolve_public_url(
    bucket: &str,
    endpoint: Option<&str>,
    force_path_style: bool,
    custom_domain: Option<&str>,
    key: &str,
) -> (r: String)
    ensures
        r@ == public_url_chars(
            bucket@,
            match endpoint {
                Some(e) => Some(e@),
                None => None,
            },
            force_path_style,
            match custom_domain {
                Some(d) => Some(d@),
                None => None,
            },
            key.spec_bytes(),
        ),
{
    let enc = percent_encode_all(key.as_bytes());
    match custom_domain {
        Some(d) => {
            let mut r = trim_trailing_slashes_str(d);
            r.append("/");
            r.append(enc.as_str());
            r
        },
        None => match endpoint {
            Some(ep) => {
                let t = trim_trailing_slashes_str(ep);
                if force_path_style {
                    let mut r = t;
                    r.append("/");
                    r.append(bucket);
                    r.append("/");
                    r.append(enc.as_str());
                    r
                } else {
                    match parse_endpoint(t.as_str()) {
                        Some(p) => {
                            let mut r = p.scheme;
                            r.append("://");
                            r.append(bucket);
                            r.append(".");
                            r.append(p.host.as_str());
                            match p.port {
                                Some(n) => {
                                    r.append(":");
                                    let d = u64_to_dec(n as u64);
                                    r.append(d.as_str());
                                },
                                None => {},
                            }
                            let slash = String::from_str("/");
                            if !(p.path == slash) {
                                r.append(p.path.as_str());
                            }
                            r.append("/");
                            r.append(enc.as_str());
                            proof {
                                assert(r@ =~= public_url_chars(
                                    bucket@,
                                    Some(ep@),
                                    force_path_style,
                                    None,
                                    key.spec_bytes(),
                                ));
                            }
                            r
                        },
                        None => {
                            let mut r = t;
                            r.append("/");
                            r.append(bucket);
                            r.append("/");
                            r.append(enc.as_str());
                            r
                        },
                    }
                }
            },
            None => {
                if force_path_style {
                    let mut r = String::from_str("https://s3.amazonaws.com/");
                    r.append(bucket);
                    r.append("/");
                    r.append(enc.as_str());
                    r
                } else {
                    let mut r = String::from_str("https://");
                    r.append(bucket);
                    r.append(".s3.amazonaws.com/");
                    r.append(enc.as_str());
                    r
                }
            },
        },
    }
}

} // verus!
