//! Endpoint URLs arrive as text; what their scheme, host, port and path are
//! is decided by the `url` crate. The parse is deterministic in the input
//! text alone, so its outcome is carried by named results that the verified
//! resolver and presigner contracts speak of.
use vstd::prelude::*;

verus! {

/// The parts of an endpoint URL that the resolver and presigner read,
/// held as plain values.
#[derive(Debug)]
pub struct EndpointParts {
    pub scheme: String,
    pub host: String,
    pub port: Option<u16>,
    pub path: String,
}

/// Whether the text parses as a URL with a host.
pub uninterp spec fn url_is_valid(s: Seq<char>) -> bool;

/// The scheme of the parsed URL.
pub uninterp spec fn url_scheme_of(s: Seq<char>) -> Seq<char>;

/// The host of the parsed URL.
pub uninterp spec fn url_host_of(s: Seq<char>) -> Seq<char>;

/// The explicit port of the parsed URL, if any.
pub uninterp spec fn url_port_of(s: Seq<char>) -> Option<u16>;

/// The path of the parsed URL (at least `/` for URLs with a host).
pub uninterp spec fn url_path_of(s: Seq<char>) -> Seq<char>;

/// Relies on `url::Url::parse` and its `scheme`/`host_str`/`port`/`path`
/// accessors: parsing is a deterministic function of the input text alone.
/// Text that does not parse, or parses to a URL without a host, yields
/// `None`.
#[verifier::external_body]
pub fn parse_endpoint(s: &str) -> (r: Option<EndpointParts>)
    ensures
        r.is_some() == url_is_valid(s@),
        (r matches Some(p) ==> p.scheme@ == url_scheme_of(s@) && p.host@ == url_host_of(s@)
            && p.port == url_port_of(s@) && p.path@ == url_path_of(s@)),
{
    match url::Url::parse(s) {
        Ok(u) => match u.host_str() {
            Some(h) => Some(
                EndpointParts {
                    scheme: u.scheme().to_string(),
                    host: h.to_string(),
                    port: u.port(),
                    path: u.path().to_string(),
                },
            ),
            None => None,
        },
        Err(_) => None,
    }
}

} // verus!
