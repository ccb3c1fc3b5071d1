//! Decimal text for the URLs and signatures: plain decimal rendering of
//! integers (ports, expiry seconds, numeric ids) and fixed-width zero-padded
//! fields for SigV4 timestamps.
use vstd::prelude::*;
use crate::encode::ascii_string;

verus! {

/// The ASCII byte of a decimal digit.
pub open spec fn dec_digit_byte(n: nat) -> u8
    recommends
        n < 10,
{
    (48 + n) as u8
}

/// The decimal digit string of `n` as ASCII bytes, no leading zeros
/// (a single `0` for zero).
pub open spec fn dec_bytes(n: nat) -> Seq<u8>
    decreases n,
{
    if n < 10 {
        seq![dec_digit_byte(n)]
    } else {
        dec_bytes(n / 10).push(dec_digit_byte(n % 10))
    }
}

/// The decimal digit string of `n` as characters.
pub open spec fn dec_chars(n: nat) -> Seq<char> {
    dec_bytes(n).map_values(|b: u8| b as char)
}

/// Two-digit zero-padded decimal field, as in SigV4 timestamps.
pub open spec fn pad2_bytes(n: nat) -> Seq<u8>
    recommends
        n < 100,
{
    seq![dec_digit_byte(n / 10), dec_digit_byte(n % 10)]
}

/// [`pad2_bytes`], as characters.
pub open spec fn pad2_chars(n: nat) -> Seq<char> {
    pad2_bytes(n).map_values(|b: u8| b as char)
}

/// Four-digit zero-padded decimal field, as in SigV4 date stamps.
pub open spec fn pad4_bytes(n: nat) -> Seq<u8>
    recommends
        n < 10000,
{
    seq![
        dec_digit_byte(n / 1000),
        dec_digit_byte((n / 100) % 10),
        dec_digit_byte((n / 10) % 10),
        dec_digit_byte(n % 10),
    ]
}

/// [`pad4_bytes`], as characters.
pub open spec fn pad4_chars(n: nat) -> Seq<char> {
    pad4_bytes(n).map_values(|b: u8| b as char)
}

proof fn lemma_dec_bytes_ascii(n: nat)
    ensures
        forall|i: int| 0 <= i < dec_bytes(n).len() ==> dec_bytes(n)[i] < 128,
    decreases n,
{
    if n < 10 {
        assert(dec_bytes(n) =~= seq![dec_digit_byte(n)]);
    } else {
        lemma_dec_bytes_ascii(n / 10);
        assert(dec_bytes(n) == dec_bytes(n / 10).push(dec_digit_byte(n % 10)));
        assert(forall|i: int|
            0 <= i < dec_bytes(n).len() - 1 ==> dec_bytes(n)[i] == dec_bytes(n / 10)[i]);
    }
}

/// Appends the decimal digits of `n` to an ASCII byte buffer.
pub(crate) fn push_dec(n: u64, out: &mut Vec<u8>)
    ensures
        final(out)@ == old(out)@ + dec_bytes(n as nat),
        forall|i: int| old(out)@.len() <= i < final(out)@.len() ==> final(out)@[i] < 128,
    decreases n,
{
    if n < 10 {
        out.push(48 + n as u8);
        proof {
            assert(out@ =~= old(out)@ + dec_bytes(n as nat));
        }
    } else {
        push_dec(n / 10, out);
        out.push(48 + (n % 10) as u8);
        proof {
            assert(out@ =~= old(out)@ + dec_bytes(n as nat));
        }
    }
}

/// Appends the two-digit zero-padded decimal of `n` to an ASCII byte buffer.
pub(crate) fn push_pad2(n: u32, out: &mut Vec<u8>)
    requires
        n < 100,
    ensures
        final(out)@ == old(out)@ + pad2_bytes(n as nat),
        forall|i: int| old(out)@.len() <= i < final(out)@.len() ==> final(out)@[i] < 128,
{
    out.push(48 + (n / 10) as u8);
    out.push(48 + (n % 10) as u8);
    proof {
        assert(out@ =~= old(out)@ + pad2_bytes(n as nat));
    }
}

/// Appends the four-digit zero-padded decimal of `n` to an ASCII byte buffer.
pub(crate) fn push_pad4(n: u32, out: &mut Vec<u8>)
    requires
        n < 10000,
    ensures
        final(out)@ == old(out)@ + pad4_bytes(n as nat),
        forall|i: int| old(out)@.len() <= i < final(out)@.len() ==> final(out)@[i] < 128,
{
    out.push(48 + (n / 1000) as u8);
    out.push(48 + ((n / 100) % 10) as u8);
    out.push(48 + ((n / 10) % 10) as u8);
    out.push(48 + (n % 10) as u8);
    proof {
        assert(out@ =~= old(out)@ + pad4_bytes(n as nat));
    }
}

/// Renders `n` in decimal, no leading zeros.
pub fn u64_to_dec(n: u64) -> (r: String)
    ensures
        r@ == dec_chars(n as nat),
{
    let mut out: Vec<u8> = Vec::new();
    push_dec(n, &mut out);
    proof {
        lemma_dec_bytes_ascii(n as nat);
        assert(out@ =~= dec_bytes(n as nat));
        assert(out@.map_values(|b: u8| b as char) =~= dec_chars(n as nat));
    }
    ascii_string(out)
}

} // verus!

verus! {

/// Strict lexicographic order of character strings by code point, the byte
/// order of their UTF-8 forms for ASCII text.
pub open spec fn lex_lt(a: Seq<char>, b: Seq<char>) -> bool
    decreases a.len(),
{
    if b.len() == 0 {
        false
    } else if a.len() == 0 {
        true
    } else if (a[0] as u32) < (b[0] as u32) {
        true
    } else if (a[0] as u32) == (b[0] as u32) {
        lex_lt(a.drop_first(), b.drop_first())
    } else {
        false
    }
}

/// The strict order is asymmetric.
pub proof fn lemma_lex_lt_asym(a: Seq<char>, b: Seq<char>)
    ensures
        lex_lt(a, b) ==> !lex_lt(b, a),
    decreases a.len(),
{
    if a.len() > 0 && b.len() > 0 && (a[0] as u32) == (b[0] as u32) {
        lemma_lex_lt_asym(a.drop_first(), b.drop_first());
    }
}

/// The strict order is transitive.
pub proof fn lemma_lex_lt_trans(a: Seq<char>, b: Seq<char>, c: Seq<char>)
    requires
        lex_lt(a, b),
        lex_lt(b, c),
    ensures
        lex_lt(a, c),
    decreases a.len(),
{
    if a.len() > 0 && b.len() > 0 && c.len() > 0 && (a[0] as u32) == (b[0] as u32) && (b[0] as u32)
        == (c[0] as u32) {
        lemma_lex_lt_trans(a.drop_first(), b.drop_first(), c.drop_first());
    }
}

/// `>=` (the negation of the strict order) is transitive.
pub proof fn lemma_lex_ge_trans(a: Seq<char>, b: Seq<char>, c: Seq<char>)
    requires
        !lex_lt(a, b),
        !lex_lt(b, c),
    ensures
        !lex_lt(a, c),
    decreases a.len(),
{
    if lex_lt(a, c) {
        assert(c.len() > 0);
        if a.len() == 0 {
            assert(b.len() == 0);
            assert(lex_lt(b, c));
        } else {
            assert(b.len() > 0);
            if (a[0] as u32) < (c[0] as u32) {
                assert(lex_lt(b, c));
            } else {
                assert((a[0] as u32) == (c[0] as u32));
                if (b[0] as u32) < (a[0] as u32) {
                    assert(lex_lt(b, c));
                } else {
                    assert((b[0] as u32) == (a[0] as u32));
                    lemma_lex_ge_trans(a.drop_first(), b.drop_first(), c.drop_first());
                }
            }
        }
    }
}

} // verus!

verus! {

/// Compares two strings in the strict lexicographic code-point order.
pub fn str_lex_lt(a: &str, b: &str) -> (r: bool)
    ensures
        r == lex_lt(a@, b@),
{
    let an = a.unicode_len();
    let bn = b.unicode_len();
    let mut i: usize = 0;
    proof {
        assert(a@.skip(0) =~= a@);
        assert(b@.skip(0) =~= b@);
    }
    loop
        invariant
            i <= an,
            i <= bn,
            an == a@.len(),
            bn == b@.len(),
            lex_lt(a@, b@) == lex_lt(a@.skip(i as int), b@.skip(i as int)),
        decreases an - i,
    {
        if i >= bn {
            return false;
        }
        if i >= an {
            return true;
        }
        let ca = a.get_char(i);
        let cb = b.get_char(i);
        proof {
            assert(a@.skip(i as int)[0] == a@[i as int]);
            assert(b@.skip(i as int)[0] == b@[i as int]);
        }
        if (ca as u32) < (cb as u32) {
            return true;
        }
        if (ca as u32) != (cb as u32) {
            return false;
        }
        proof {
            assert(a@.skip(i as int).drop_first() =~= a@.skip(i + 1));
            assert(b@.skip(i as int).drop_first() =~= b@.skip(i + 1));
        }
        i = i + 1;
    }
}

} // verus!
