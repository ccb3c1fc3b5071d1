//! Text scanning for the orchestrators: substring, prefix and suffix
//! matching, and ASCII lowercasing, with exact specifications over the
//! character sequences.
use vstd::prelude::*;

verus! {

/// The needle `n` occurs in `h` at offset `k`.
pub open spec fn match_at(h: Seq<char>, n: Seq<char>, k: int) -> bool {
    0 <= k && k + n.len() <= h.len() && h.subrange(k, k + n.len()) == n
}

/// The needle `n` occurs somewhere in `h`.
pub open spec fn has_substring(h: Seq<char>, n: Seq<char>) -> bool {
    exists|k: int| match_at(h, n, k)
}

/// Whether `n` occurs in `h` at offset `k`.
fn chars_match_at(h: &str, n: &str, k: usize, hn: usize, nn: usize) -> (r: bool)
    requires
        hn == h@.len(),
        nn == n@.len(),
        k + nn <= hn,
    ensures
        r == match_at(h@, n@, k as int),
{
    let mut j: usize = 0;
    while j < nn
        invariant
            j <= nn,
            hn == h@.len(),
            nn == n@.len(),
            k + nn <= hn,
            forall|j2: int| 0 <= j2 < j ==> h@[k + j2] == n@[j2],
        decreases nn - j,
    {
        if h.get_char(k + j) != n.get_char(j) {
            proof {
                assert(h@.subrange(k as int, k + nn) == n@ ==> h@[k + j] == n@[j as int]);
            }
            return false;
        }
        j = j + 1;
    }
    proof {
        assert(h@.subrange(k as int, k + nn) =~= n@);
    }
    true
}

/// Whether the needle occurs anywhere in the haystack.
pub fn str_contains(h: &str, n: &str) -> (r: bool)
    ensures
        r == has_substring(h@, n@),
{
    let hn = h.unicode_len();
    let nn = n.unicode_len();
    if nn > hn {
        proof {
            assert(forall|k: int| !match_at(h@, n@, k));
        }
        return false;
    }
    if nn == 0 {
        proof {
            assert(h@.subrange(0, 0) =~= n@);
            assert(match_at(h@, n@, 0));
        }
        return true;
    }
    let mut k: usize = 0;
    while k <= hn - nn
        invariant
            0 < nn <= hn,
            hn == h@.len(),
            nn == n@.len(),
            k <= hn - nn + 1,
            forall|k2: int| 0 <= k2 < k ==> !match_at(h@, n@, k2),
        decreases hn - nn - k + 1,
    {
        if chars_match_at(h, n, k, hn, nn) {
            return true;
        }
        k = k + 1;
    }
    proof {
        assert(forall|k2: int| k2 > hn - nn ==> !match_at(h@, n@, k2));
    }
    false
}

/// Whether `h` starts with `n`.
pub fn str_starts_with(h: &str, n: &str) -> (r: bool)
    ensures
        r == (n@.len() <= h@.len() && h@.subrange(0, n@.len() as int) == n@),
{
    let hn = h.unicode_len();
    let nn = n.unicode_len();
    if nn > hn {
        return false;
    }
    chars_match_at(h, n, 0, hn, nn)
}

/// Whether `h` ends with `n`.
pub fn str_ends_with(h: &str, n: &str) -> (r: bool)
    ensures
        r == (n@.len() <= h@.len() && h@.subrange(
            h@.len() - n@.len(),
            h@.len() as int,
        ) == n@),
{
    let hn = h.unicode_len();
    let nn = n.unicode_len();
    if nn > hn {
        return false;
    }
    chars_match_at(h, n, hn - nn, hn, nn)
}

/// A character with ASCII uppercase letters lowered, all else kept.
pub open spec fn lower_char(c: char) -> char {
    if 65 <= c as u32 && c as u32 <= 90 {
        ((c as u32 + 32) as u8) as char
    } else {
        c
    }
}

/// The text with ASCII uppercase letters lowered, all else kept.
pub open spec fn lower_ascii_chars(s: Seq<char>) -> Seq<char> {
    s.map_values(|c: char| lower_char(c))
}

/// Relies on `str::to_ascii_lowercase`: ASCII uppercase letters map to
/// their lowercase forms, every other character stays as it is.
#[verifier::external_body]
pub fn ascii_lowercase(s: &str) -> (r: String)
    ensures
        r@ == lower_ascii_chars(s@),
{
    s.to_ascii_lowercase()
}

} // verus!
