//! Transport decisions that the callers' I/O loops follow: which HTTP
//! outcome counts as success, which transport to try first and which next,
//! which failures are transient enough to retry, and with what backoff.
use vstd::prelude::*;
use crate::numtext::dec_chars;
use crate::numtext::u64_to_dec;
use crate::textscan::has_substring;
use crate::textscan::str_contains;

verus! {

/// How a text-body POST turned out: the body on a 2xx, otherwise an error
/// naming the status and carrying the body.
pub fn xmlrpc_outcome(status: u16, body: String) -> (r: Result<String, String>)
    ensures
        r.is_ok() <==> 200 <= status < 300,
        (r matches Ok(t) ==> t@ == body@),
        (r matches Err(e) ==> e@ == "HTTP "@ + dec_chars(status as nat) + ": "@ + body@),
{
    if 200 <= status && status < 300 {
        Ok(body)
    } else {
        let mut e = String::from_str("HTTP ");
        let d = u64_to_dec(status as u64);
        e.append(d.as_str());
        e.append(": ");
        e.append(body.as_str());
        Err(e)
    }
}

/// The two ways to fetch an update asset.
#[derive(Clone, Copy, Debug, PartialEq, Eq, Structural)]
pub enum Transport {
    Direct,
    Proxy,
}

/// The order the transports are tried in: the caller's preference first,
/// the other as the fallback.
pub fn fetch_order(want_proxy: bool) -> (r: (Transport, Transport))
    ensures
        want_proxy ==> r == (Transport::Proxy, Transport::Direct),
        !want_proxy ==> r == (Transport::Direct, Transport::Proxy),
{
    if want_proxy {
        (Transport::Proxy, Transport::Direct)
    } else {
        (Transport::Direct, Transport::Proxy)
    }
}

/// Settles a fetch-with-fallback run from its outcomes: the first
/// transport's success wins; otherwise the fallback's outcome stands, its
/// error being the last error. The fallback is tried exactly when the
/// first failed.
pub fn resolve_fetch_fallback(
    first: Result<String, String>,
    second: Option<Result<String, String>>,
) -> (r: Result<String, String>)
    requires
        first is Err <==> second is Some,
    ensures
        (first matches Ok(p) ==> (r matches Ok(q) && q@ == p@)),
        (second matches Some(Ok(p)) ==> (r matches Ok(q) && q@ == p@)),
        (second matches Some(Err(e)) ==> (r matches Err(f) && f@ == e@)),
        r.is_ok() <==> (first is Ok || second matches Some(Ok(_))),
{
    match first {
        Ok(p) => Ok(p),
        Err(_) => match second {
            Some(outcome) => outcome,
            None => {
                proof {
                    assert(false);
                }
                Err(String::new())
            },
        },
    }
}

/// A transport failure text that warrants a retry: one of the known
/// "connection abruptly closed" signatures. HTTP error responses are never
/// retried.
pub open spec fn transient_signature(s: Seq<char>) -> bool {
    has_substring(s, "connection closed before message completed"@) || has_substring(
        s,
        "connection reset"@,
    ) || has_substring(s, "broken pipe"@)
}

/// Whether a transport failure is worth retrying.
pub fn is_transient_error(msg: &str) -> (r: bool)
    ensures
        r == transient_signature(msg@),
{
    str_contains(msg, "connection closed before message completed") || str_contains(
        msg,
        "connection reset",
    ) || str_contains(msg, "broken pipe")
}

/// The fixed backoff before retry `attempt` (counted from zero), and the
/// cap: after three attempts, no more.
pub fn backoff_ms(attempt: u32) -> (r: Option<u32>)
    ensures
        attempt == 0 ==> r == Some(250u32),
        attempt == 1 ==> r == Some(800u32),
        attempt == 2 ==> r == Some(1500u32),
        attempt >= 3 ==> r is None,
{
    if attempt == 0 {
        Some(250)
    } else if attempt == 1 {
        Some(800)
    } else if attempt == 2 {
        Some(1500)
    } else {
        None
    }
}

} // verus!

verus! {

/// The last `/`-separated segment of a URL path.
pub open spec fn last_segment(path: Seq<char>) -> Seq<char>
    decreases path.len(),
{
    if path.len() == 0 {
        path
    } else if path[path.len() - 1] == '/' {
        Seq::empty()
    } else if exists|k: int| 0 <= k < path.len() && path[k] == '/' {
        last_segment_from(path, path.len() - 1)
    } else {
        path
    }
}

/// The suffix of `path` after its last `/` at or before `from`.
pub open spec fn last_segment_from(path: Seq<char>, from: int) -> Seq<char>
    recommends
        0 <= from < path.len(),
    decreases from,
{
    if from <= 0 {
        path.skip(1)
    } else if path[from] == '/' {
        path.skip(from + 1)
    } else {
        last_segment_from(path, from - 1)
    }
}

/// The file name to save a fetched asset under: the last segment of the
/// URL path, or a fixed default when the path yields none.
pub open spec fn asset_file_name_chars(path: Seq<char>) -> Seq<char> {
    if last_segment(path).len() == 0 {
        "download.bin"@
    } else {
        last_segment(path)
    }
}

/// Picks the file name to save a fetched asset under from its URL path.
pub fn asset_file_name(path: &str) -> (r: String)
    ensures
        r@ == asset_file_name_chars(path@),
{
    let n = path.unicode_len();
    if n == 0 {
        return String::from_str("download.bin");
    }
    if path.get_char(n - 1) == '/' {
        return String::from_str("download.bin");
    }
    let mut from = n - 1;
    while from > 0 && path.get_char(from) != '/'
        invariant
            0 <= from < n,
            n == path@.len(),
            path@[n - 1] != '/',
            n > 0,
            last_segment_from(path@, n - 1) == last_segment_from(path@, from as int),
            forall|k: int| from < k < n ==> path@[k] != '/',
        decreases from,
    {
        from = from - 1;
    }
    if from == 0 && path.get_char(0) != '/' {
        proof {
            assert(forall|k: int| 0 <= k < path@.len() ==> path@[k] != '/');
            assert(last_segment(path@) == path@);
        }
        return path.to_owned();
    }
    proof {
        assert(path@[from as int] == '/');
        assert(exists|k: int| 0 <= k < path@.len() && path@[k] == '/') by {
            assert(path@[from as int] == '/');
        }
        assert(last_segment(path@) == path@.skip(from + 1));
        assert(path@.skip(from + 1).len() == n - 1 - from);
        assert(from < n - 1);
    }
    let r = path.substring_char(from + 1, n);
    proof {
        assert(r@ =~= path@.skip(from + 1));
    }
    r.to_owned()
}

} // verus!
