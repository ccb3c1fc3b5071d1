//! The cryptographic primitives SigV4 leans on. Digest and MAC values are
//! functions of their inputs alone; their bit-patterns are carried by named
//! results. Hex rendering is the library's own verified code: its whole
//! behaviour is the closed specification [`hex_lower_chars`].
use vstd::prelude::*;
use hmac::KeyInit;
use hmac::Mac;
use sha2::Digest;
use crate::encode::ascii_string;

verus! {

/// The SHA-256 digest of a byte string.
pub uninterp spec fn sha256_of(data: Seq<u8>) -> Seq<u8>;

/// The HMAC-SHA-256 tag of a byte string under a key.
pub uninterp spec fn hmac_sha256_of(key: Seq<u8>, data: Seq<u8>) -> Seq<u8>;

/// The lowercase hexadecimal digit of a nibble.
pub open spec fn hex_digit_lower(n: u8) -> char
    recommends
        n < 16,
{
    if n < 10 {
        ((48 + n) as u8) as char  // '0'..'9'
    } else {
        ((87 + n) as u8) as char  // 'a'..'f'
    }
}

/// Lowercase hex rendering of a byte string: two digits per byte.
pub open spec fn hex_lower_chars(bs: Seq<u8>) -> Seq<char>
    decreases bs.len(),
{
    if bs.len() == 0 {
        Seq::empty()
    } else {
        seq![hex_digit_lower(bs[0] / 16), hex_digit_lower(bs[0] % 16)] + hex_lower_chars(
            bs.drop_first(),
        )
    }
}

/// A lowercase hex digit character.
pub open spec fn is_lower_hex_char(c: char) -> bool {
    (48 <= c as u32 && c as u32 <= 57) || (97 <= c as u32 && c as u32 <= 102)
}

/// Hex rendering yields two lowercase hex digits per input byte.
pub proof fn lemma_hex_lower_shape(bs: Seq<u8>)
    ensures
        hex_lower_chars(bs).len() == 2 * bs.len(),
        forall|i: int|
            0 <= i < hex_lower_chars(bs).len() ==> is_lower_hex_char(hex_lower_chars(bs)[i]),
    decreases bs.len(),
{
    if bs.len() == 0 {
    } else {
        lemma_hex_lower_shape(bs.drop_first());
        let head = seq![hex_digit_lower(bs[0] / 16), hex_digit_lower(bs[0] % 16)];
        assert(is_lower_hex_char(head[0]));
        assert(is_lower_hex_char(head[1]));
        assert(forall|i: int|
            0 <= i < hex_lower_chars(bs).len() ==> is_lower_hex_char(
                #[trigger] hex_lower_chars(bs)[i],
            ));
    }
}

/// Relies on `sha2::Sha256::digest`: the SHA-256 digest of the input, a
/// function of the input bytes alone, 32 bytes long.
#[verifier::external_body]
pub fn sha256(data: &[u8]) -> (r: Vec<u8>)
    ensures
        r@ == sha256_of(data@),
        r@.len() == 32,
{
    sha2::Sha256::digest(data).to_vec()
}

/// Relies on `hmac::Hmac<Sha256>` through the `Mac` trait: the HMAC-SHA-256
/// tag of the data under the key, a function of the two byte strings alone,
/// 32 bytes long; HMAC accepts keys of any length.
#[verifier::external_body]
pub fn hmac_sha256(key: &[u8], data: &[u8]) -> (r: Vec<u8>)
    ensures
        r@ == hmac_sha256_of(key@, data@),
        r@.len() == 32,
{
    let mut mac = <hmac::Hmac<sha2::Sha256> as KeyInit>::new_from_slice(key)
        .expect("HMAC accepts keys of any length");
    mac.update(data);
    mac.finalize().into_bytes().to_vec()
}

/// The ASCII byte of the lowercase hex digit of a nibble.
fn hex_digit_byte_lower(n: u8) -> (r: u8)
    requires
        n < 16,
    ensures
        r < 128,
        r as char == hex_digit_lower(n),
{
    if n < 10 {
        48 + n
    } else {
        87 + n
    }
}

proof fn lemma_hex_lower_chars_push(s: Seq<u8>, x: u8)
    ensures
        hex_lower_chars(s.push(x)) == hex_lower_chars(s) + seq![
            hex_digit_lower(x / 16),
            hex_digit_lower(x % 16),
        ],
    decreases s.len(),
{
    if s.len() == 0 {
        assert(s.push(x).drop_first() =~= s);
        assert(hex_lower_chars(s.push(x)) =~= hex_lower_chars(s) + seq![
            hex_digit_lower(x / 16),
            hex_digit_lower(x % 16),
        ]);
    } else {
        assert(s.push(x).drop_first() =~= s.drop_first().push(x));
        lemma_hex_lower_chars_push(s.drop_first(), x);
        assert(hex_lower_chars(s.push(x)) =~= hex_lower_chars(s) + seq![
            hex_digit_lower(x / 16),
            hex_digit_lower(x % 16),
        ]);
    }
}

/// Lowercase hex of a byte string, with its shape pinned down.
pub fn hex_lower(data: &[u8]) -> (r: String)
    ensures
        r@ == hex_lower_chars(data@),
        r@.len() == 2 * data@.len(),
        forall|i: int| 0 <= i < r@.len() ==> is_lower_hex_char(r@[i]),
{
    let mut out: Vec<u8> = Vec::new();
    let mut i: usize = 0;
    while i < data.len()
        invariant
            i <= data@.len(),
            forall|j: int| 0 <= j < out@.len() ==> out@[j] < 128,
            out@.map_values(|b: u8| b as char) == hex_lower_chars(data@.take(i as int)),
        decreases data@.len() - i,
    {
        let b = data[i];
        out.push(hex_digit_byte_lower(b / 16));
        out.push(hex_digit_byte_lower(b % 16));
        proof {
            lemma_hex_lower_chars_push(data@.take(i as int), b);
            assert(data@.take(i + 1) =~= data@.take(i as int).push(b));
            assert(out@.map_values(|b: u8| b as char) =~= hex_lower_chars(data@.take(i + 1)));
        }
        i = i + 1;
    }
    proof {
        assert(data@.take(data@.len() as int) =~= data@);
        lemma_hex_lower_shape(data@);
    }
    ascii_string(out)
}

} // verus!
