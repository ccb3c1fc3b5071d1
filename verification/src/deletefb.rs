//! The delete fallback orchestrator's verified core: the fixed ordered list
//! of candidate endpoints, the strict per-response success criterion (a 204
//! exactly, or a 2xx whose non-empty body is JSON with `status:true` — an
//! HTML login page counts as failure), and the first-success-wins verdict
//! with an aggregated error when every candidate fails.
use vstd::prelude::*;
use crate::jsonfield::json_status_field;
use crate::jsonfield::json_status_of;
use crate::numtext::dec_chars;
use crate::numtext::u64_to_dec;
use crate::resolve::trim_trailing_slashes;
use crate::resolve::trim_trailing_slashes_str;

verus! {

/// The candidate delete endpoints under a provider base URL, in the order
/// they are tried: the bulk endpoint, its legacy-path variant, and the
/// singular per-id legacy endpoint.
pub fn delete_candidate_urls(base_url: &str, id: u64) -> (r: Vec<String>)
    ensures
        r@.len() == 3,
        r@[0]@ == trim_trailing_slashes(base_url@) + "/api/v1/images"@,
        r@[1]@ == trim_trailing_slashes(base_url@) + "/api/images"@,
        r@[2]@ == trim_trailing_slashes(base_url@) + "/api/v1/images/"@ + dec_chars(id as nat),
{
    let t = trim_trailing_slashes_str(base_url);
    let mut a = t.clone();
    a.append("/api/v1/images");
    let mut b = t.clone();
    b.append("/api/images");
    let mut c = t;
    c.append("/api/v1/images/");
    let d = u64_to_dec(id);
    c.append(d.as_str());
    let mut r: Vec<String> = Vec::new();
    r.push(a);
    r.push(b);
    r.push(c);
    r
}

/// A response removes the image: HTTP 204 exactly, or a 2xx whose
/// non-empty body is JSON whose `status` field is `true`. A 2xx body that
/// is not JSON (a login page, say) never counts.
pub open spec fn delete_attempt_ok(status: u16, body_len: nat, json_status: Option<bool>) -> bool {
    status == 204 || (200 <= status < 300 && body_len > 0 && json_status == Some(true))
}

/// Judges one delete response by the strict criterion above.
pub fn classify_delete_response(status: u16, body: &str) -> (r: bool)
    ensures
        r == delete_attempt_ok(status, body@.len(), json_status_of(body@)),
{
    if status == 204 {
        return true;
    }
    if !(200 <= status && status < 300) {
        return false;
    }
    if body.unicode_len() == 0 {
        return false;
    }
    match json_status_field(body) {
        Some(true) => true,
        _ => false,
    }
}

/// One tried candidate: its endpoint, whether it succeeded, and the reason
/// it failed if it did.
#[derive(Debug)]
pub struct DeleteAttempt {
    pub url: String,
    pub ok: bool,
    pub reason: String,
}

/// The aggregated failure text: each endpoint with its reason, in order.
pub open spec fn aggregate_chars(s: Seq<DeleteAttempt>) -> Seq<char>
    decreases s.len(),
{
    if s.len() == 0 {
        Seq::empty()
    } else if s.len() == 1 {
        s[0].url@ + ": "@ + s[0].reason@
    } else {
        aggregate_chars(s.drop_last()) + "; "@ + s.last().url@ + ": "@ + s.last().reason@
    }
}

/// The overall verdict over the tried candidates: the first success wins
/// and stops the run; if every candidate failed, an error that lists each
/// attempted endpoint with its failure reason.
pub fn delete_fallback_verdict(attempts: &Vec<DeleteAttempt>) -> (r: Result<usize, String>)
    ensures
        (r matches Ok(i) ==> i < attempts@.len() && attempts@[i as int].ok && forall|j: int|
            0 <= j < i ==> !(#[trigger] attempts@[j]).ok),
        r.is_err() <==> (forall|j: int| 0 <= j < attempts@.len() ==> !(#[trigger] attempts@[j]).ok),
        (r matches Err(e) ==> e@ == "delete failed: "@ + aggregate_chars(attempts@)),
{
    let n = attempts.len();
    let mut i: usize = 0;
    while i < n
        invariant
            i <= n,
            n == attempts@.len(),
            forall|j: int| 0 <= j < i ==> !(#[trigger] attempts@[j]).ok,
        decreases n - i,
    {
        if attempts[i].ok {
            return Ok(i);
        }
        i = i + 1;
    }
    let mut agg = String::new();
    let mut k: usize = 0;
    proof {
        assert(agg@ =~= aggregate_chars(attempts@.take(0)));
    }
    while k < n
        invariant
            k <= n,
            n == attempts@.len(),
            agg@ == aggregate_chars(attempts@.take(k as int)),
        decreases n - k,
    {
        if k > 0 {
            agg.append("; ");
        }
        agg.append(attempts[k].url.as_str());
        agg.append(": ");
        agg.append(attempts[k].reason.as_str());
        proof {
            assert(attempts@.take(k + 1).drop_last() =~= attempts@.take(k as int));
            assert(attempts@.take(k + 1).last() == attempts@[k as int]);
            assert(agg@ =~= aggregate_chars(attempts@.take(k + 1)));
        }
        k = k + 1;
    }
    proof {
        assert(attempts@.take(n as int) =~= attempts@);
    }
    let mut msg = String::from_str("delete failed: ");
    msg.append(agg.as_str());
    Err(msg)
}

} // verus!
