//! The two percent-encoding tables of the client, kept distinct on purpose:
//! the aggressive public-URL encoding, which escapes every byte outside the
//! RFC 3986 unreserved set (`/` included), and the SigV4 segment-preserving
//! encoding, which leaves `/` alone and escapes the rest the same way.
//! A percent-decoder inverts both.
use vstd::prelude::*;

verus! {

/// A byte in the RFC 3986 unreserved set (`A-Z a-z 0-9 - _ . ~`):
/// these are never percent-escaped.
pub open spec fn is_unreserved_byte(b: u8) -> bool {
    (65 <= b && b <= 90)  // A-Z
    || (97 <= b && b <= 122)  // a-z
    || (48 <= b && b <= 57)  // 0-9
    || b == 45 || b == 95 || b == 46 || b == 126  // - _ . ~
}

/// The uppercase hexadecimal digit of a nibble.
pub open spec fn hex_digit_upper(n: u8) -> char
    recommends
        n < 16,
{
    if n < 10 {
        ((48 + n) as u8) as char  // '0'..'9'
    } else {
        ((55 + n) as u8) as char  // 'A'..'F'
    }
}

/// The three-character escape `%XX` of a byte, uppercase hex.
pub open spec fn pct_escape(b: u8) -> Seq<char> {
    seq!['%', hex_digit_upper(b / 16), hex_digit_upper(b % 16)]
}

/// One byte under the aggressive public-URL table: unreserved bytes stand
/// for themselves, every other byte (`/` included) is escaped.
pub open spec fn enc_byte_full(b: u8) -> Seq<char> {
    if is_unreserved_byte(b) {
        seq![b as char]
    } else {
        pct_escape(b)
    }
}

/// One byte under the SigV4 segment-preserving table: as the aggressive
/// table, except that `/` stands for itself.
pub open spec fn enc_byte_segment(b: u8) -> Seq<char> {
    if b == 47 {
        seq![b as char]
    } else {
        enc_byte_full(b)
    }
}

/// Aggressive public-URL percent-encoding of a byte string.
pub open spec fn pct_encode_full(bs: Seq<u8>) -> Seq<char>
    decreases bs.len(),
{
    if bs.len() == 0 {
        Seq::empty()
    } else {
        enc_byte_full(bs[0]) + pct_encode_full(bs.drop_first())
    }
}

/// Segment-preserving percent-encoding of a byte string: `/` survives as the
/// segment separator, all other non-unreserved bytes are escaped.
pub open spec fn pct_encode_segments(bs: Seq<u8>) -> Seq<char>
    decreases bs.len(),
{
    if bs.len() == 0 {
        Seq::empty()
    } else {
        enc_byte_segment(bs[0]) + pct_encode_segments(bs.drop_first())
    }
}

/// A character that the decoder accepts after `%`: either case of hex digit.
pub open spec fn is_hex_char(c: char) -> bool {
    (48 <= c as u32 && c as u32 <= 57)  // 0-9
    || (65 <= c as u32 && c as u32 <= 70)  // A-F
    || (97 <= c as u32 && c as u32 <= 102)  // a-f
}

/// The value of a hex digit character (either case).
pub open spec fn hex_char_val(c: char) -> u8 {
    if 48 <= c as u32 && c as u32 <= 57 {
        (c as u32 - 48) as u8
    } else if 65 <= c as u32 && c as u32 <= 70 {
        (c as u32 - 55) as u8
    } else if 97 <= c as u32 && c as u32 <= 102 {
        (c as u32 - 87) as u8
    } else {
        0
    }
}

/// Percent-decoding: a `%` followed by two hex digits becomes that byte,
/// any other character becomes its own (truncated) byte value.
pub open spec fn pct_decode(s: Seq<char>) -> Seq<u8>
    decreases s.len(),
{
    if s.len() == 0 {
        Seq::empty()
    } else if s[0] == '%' && s.len() >= 3 && is_hex_char(s[1]) && is_hex_char(s[2]) {
        seq![(16 * hex_char_val(s[1]) + hex_char_val(s[2])) as u8] + pct_decode(s.skip(3))
    } else {
        seq![((s[0] as u32) % 256) as u8] + pct_decode(s.drop_first())
    }
}

/// Relies on `String::from_utf8`: a vector of ASCII bytes is valid UTF-8 and
/// decodes to the string of exactly those characters.
#[verifier::external_body]
pub(crate) fn ascii_string(v: Vec<u8>) -> (r: String)
    requires
        forall|i: int| 0 <= i < v@.len() ==> v@[i] < 128,
    ensures
        r@ == v@.map_values(|b: u8| b as char),
{
    String::from_utf8(v).unwrap_or_default()
}

/// Executable mirror of [`is_unreserved_byte`].
pub fn byte_is_unreserved(b: u8) -> (r: bool)
    ensures
        r == is_unreserved_byte(b),
{
    (65 <= b && b <= 90) || (97 <= b && b <= 122) || (48 <= b && b <= 57) || b == 45 || b == 95
        || b == 46 || b == 126
}

/// The ASCII byte of the uppercase hex digit of a nibble.
fn hex_digit_byte(n: u8) -> (r: u8)
    requires
        n < 16,
    ensures
        r < 128,
        r as char == hex_digit_upper(n),
{
    if n < 10 {
        48 + n
    } else {
        55 + n
    }
}

proof fn lemma_pct_encode_full_push(s: Seq<u8>, x: u8)
    ensures
        pct_encode_full(s.push(x)) == pct_encode_full(s) + enc_byte_full(x),
    decreases s.len(),
{
    if s.len() == 0 {
        assert(s.push(x).drop_first() =~= s);
        assert(pct_encode_full(s.push(x)) =~= pct_encode_full(s) + enc_byte_full(x));
    } else {
        assert(s.push(x).drop_first() =~= s.drop_first().push(x));
        lemma_pct_encode_full_push(s.drop_first(), x);
        assert(pct_encode_full(s.push(x)) =~= pct_encode_full(s) + enc_byte_full(x));
    }
}

proof fn lemma_pct_encode_segments_push(s: Seq<u8>, x: u8)
    ensures
        pct_encode_segments(s.push(x)) == pct_encode_segments(s) + enc_byte_segment(x),
    decreases s.len(),
{
    if s.len() == 0 {
        assert(s.push(x).drop_first() =~= s);
        assert(pct_encode_segments(s.push(x)) =~= pct_encode_segments(s) + enc_byte_segment(x));
    } else {
        assert(s.push(x).drop_first() =~= s.drop_first().push(x));
        lemma_pct_encode_segments_push(s.drop_first(), x);
        assert(pct_encode_segments(s.push(x)) =~= pct_encode_segments(s) + enc_byte_segment(x));
    }
}

/// Aggressive public-URL percent-encoding of a byte string, as used when the
/// resolved public URL embeds an object key: `/` is escaped too.
pub fn percent_encode_all(bytes: &[u8]) -> (r: String)
    ensures
        r@ == pct_encode_full(bytes@),
{
    let mut out: Vec<u8> = Vec::new();
    let mut i: usize = 0;
    while i < bytes.len()
        invariant
            i <= bytes@.len(),
            forall|j: int| 0 <= j < out@.len() ==> out@[j] < 128,
            out@.map_values(|b: u8| b as char) == pct_encode_full(bytes@.take(i as int)),
        decreases bytes@.len() - i,
    {
        let b = bytes[i];
        if byte_is_unreserved(b) {
            out.push(b);
        } else {
            out.push(37);
            out.push(hex_digit_byte(b / 16));
            out.push(hex_digit_byte(b % 16));
        }
        proof {
            lemma_pct_encode_full_push(bytes@.take(i as int), b);
            assert(bytes@.take(i + 1) =~= bytes@.take(i as int).push(b));
            assert(out@.map_values(|b: u8| b as char) =~= pct_encode_full(bytes@.take(i + 1)));
        }
        i = i + 1;
    }
    proof {
        assert(bytes@.take(bytes@.len() as int) =~= bytes@);
    }
    ascii_string(out)
}

/// SigV4 segment-preserving percent-encoding of an object key: each
/// `/`-separated segment is escaped independently, `/` itself survives.
pub fn percent_encode_key_segments(bytes: &[u8]) -> (r: String)
    ensures
        r@ == pct_encode_segments(bytes@),
{
    let mut out: Vec<u8> = Vec::new();
    let mut i: usize = 0;
    while i < bytes.len()
        invariant
            i <= bytes@.len(),
            forall|j: int| 0 <= j < out@.len() ==> out@[j] < 128,
            out@.map_values(|b: u8| b as char) == pct_encode_segments(bytes@.take(i as int)),
        decreases bytes@.len() - i,
    {
        let b = bytes[i];
        if b == 47 || byte_is_unreserved(b) {
            out.push(b);
        } else {
            out.push(37);
            out.push(hex_digit_byte(b / 16));
            out.push(hex_digit_byte(b % 16));
        }
        proof {
            lemma_pct_encode_segments_push(bytes@.take(i as int), b);
            assert(bytes@.take(i + 1) =~= bytes@.take(i as int).push(b));
            assert(out@.map_values(|b: u8| b as char) =~= pct_encode_segments(bytes@.take(i + 1)));
        }
        i = i + 1;
    }
    proof {
        assert(bytes@.take(bytes@.len() as int) =~= bytes@);
    }
    ascii_string(out)
}

/// Executable mirror of [`is_hex_char`].
fn char_is_hex(c: char) -> (r: bool)
    ensures
        r == is_hex_char(c),
{
    let u = c as u32;
    (48 <= u && u <= 57) || (65 <= u && u <= 70) || (97 <= u && u <= 102)
}

/// Executable mirror of [`hex_char_val`].
fn char_hex_val(c: char) -> (r: u8)
    ensures
        r == hex_char_val(c),
{
    let u = c as u32;
    if 48 <= u && u <= 57 {
        (u - 48) as u8
    } else if 65 <= u && u <= 70 {
        (u - 55) as u8
    } else if 97 <= u && u <= 102 {
        (u - 87) as u8
    } else {
        0
    }
}

/// Percent-decodes a string back to bytes; inverts both encoders.
pub fn percent_decode_bytes(s: &str) -> (r: Vec<u8>)
    ensures
        r@ == pct_decode(s@),
{
    let n = s.unicode_len();
    let mut out: Vec<u8> = Vec::new();
    let mut i: usize = 0;
    proof {
        assert(s@.skip(0) =~= s@);
    }
    while i < n
        invariant
            i <= n,
            n == s@.len(),
            out@ + pct_decode(s@.skip(i as int)) == pct_decode(s@),
        decreases n - i,
    {
        let c = s.get_char(i);
        let mut stepped = false;
        if c == '%' && n - i > 2 {
            let c1 = s.get_char(i + 1);
            let c2 = s.get_char(i + 2);
            if char_is_hex(c1) && char_is_hex(c2) {
                out.push(16 * char_hex_val(c1) + char_hex_val(c2));
                proof {
                    assert(s@.skip(i as int).skip(3) =~= s@.skip(i + 3));
                    assert(out@ + pct_decode(s@.skip(i + 3)) =~= pct_decode(s@));
                }
                i = i + 3;
                stepped = true;
            }
        }
        if !stepped {
            let u = c as u32;
            out.push((u % 256) as u8);
            proof {
                assert(s@.skip(i as int).drop_first() =~= s@.skip(i + 1));
                assert(out@ + pct_decode(s@.skip(i + 1)) =~= pct_decode(s@));
            }
            i = i + 1;
        }
    }
    proof {
        assert(s@.skip(n as int) =~= Seq::<char>::empty());
        assert(out@ =~= pct_decode(s@));
    }
    out
}

/// A hex digit emitted by the encoder is accepted back by the decoder with
/// the same value.
proof fn lemma_hex_digit_roundtrip(n: u8)
    requires
        n < 16,
    ensures
        is_hex_char(hex_digit_upper(n)),
        hex_char_val(hex_digit_upper(n)) == n,
{
}

/// Decoding inverts the aggressive public-URL encoding: the resolved URL's
/// escaped key decodes back to the original key bytes.
pub proof fn lemma_pct_decode_encode_full(bs: Seq<u8>)
    ensures
        pct_decode(pct_encode_full(bs)) == bs,
    decreases bs.len(),
{
    if bs.len() == 0 {
        assert(pct_decode(pct_encode_full(bs)) =~= bs);
    } else {
        let b = bs[0];
        let rest = pct_encode_full(bs.drop_first());
        lemma_pct_decode_encode_full(bs.drop_first());
        if is_unreserved_byte(b) {
            let s = pct_encode_full(bs);
            assert(s =~= seq![b as char] + rest);
            assert(s[0] == b as char);
            assert(s[0] != '%');
            assert(s.drop_first() =~= rest);
            assert(pct_decode(s) =~= seq![b] + bs.drop_first());
        } else {
            let s = pct_encode_full(bs);
            assert(s =~= pct_escape(b) + rest);
            assert(s[0] == '%');
            lemma_hex_digit_roundtrip(b / 16);
            lemma_hex_digit_roundtrip(b % 16);
            assert(s[1] == hex_digit_upper(b / 16));
            assert(s[2] == hex_digit_upper(b % 16));
            assert(16 * hex_char_val(s[1]) + hex_char_val(s[2]) == b);
            assert(s.skip(3) =~= rest);
            assert(pct_decode(s) =~= seq![b] + bs.drop_first());
        }
        assert(seq![b] + bs.drop_first() =~= bs);
    }
}

/// Decoding inverts the segment-preserving encoding too: the canonical URI's
/// escaped key decodes back to the original key bytes, the kept `/` included.
pub proof fn lemma_pct_decode_encode_segments(bs: Seq<u8>)
    ensures
        pct_decode(pct_encode_segments(bs)) == bs,
    decreases bs.len(),
{
    if bs.len() == 0 {
        assert(pct_decode(pct_encode_segments(bs)) =~= bs);
    } else {
        let b = bs[0];
        let rest = pct_encode_segments(bs.drop_first());
        lemma_pct_decode_encode_segments(bs.drop_first());
        if b == 47 || is_unreserved_byte(b) {
            let s = pct_encode_segments(bs);
            assert(s =~= seq![b as char] + rest);
            assert(s[0] == b as char);
            assert(s[0] != '%');
            assert(s.drop_first() =~= rest);
            assert(pct_decode(s) =~= seq![b] + bs.drop_first());
        } else {
            let s = pct_encode_segments(bs);
            assert(s =~= pct_escape(b) + rest);
            assert(s[0] == '%');
            lemma_hex_digit_roundtrip(b / 16);
            lemma_hex_digit_roundtrip(b % 16);
            assert(16 * hex_char_val(s[1]) + hex_char_val(s[2]) == b);
            assert(s.skip(3) =~= rest);
            assert(pct_decode(s) =~= seq![b] + bs.drop_first());
        }
        assert(seq![b] + bs.drop_first() =~= bs);
    }
}

} // verus!
