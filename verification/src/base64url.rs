//! Base64 in the alphabet for URLs, without padding.

use base64::{engine::general_purpose::URL_SAFE_NO_PAD, Engine};
use vstd::prelude::*;

verus! {

/// The character for `v`, which is under 64.
pub open spec fn symbol(v: int) -> char {
    if v < 26 {
        (65 + v) as char
    } else if v < 52 {
        (71 + v) as char
    } else if v < 62 {
        (v - 4) as char
    } else if v == 62 {
        '-'
    } else {
        '_'
    }
}

/// Byte `i` of `bytes`, and zero behind the last one.
pub open spec fn byte_at(bytes: Seq<u8>, i: int) -> int {
    if i < bytes.len() {
        bytes[i] as int
    } else {
        0
    }
}

/// The six bits of `bytes` from bit `6 * i` on, as a number.
pub open spec fn six_bits(bytes: Seq<u8>, i: int) -> int {
    let at = 3 * (i / 4);
    if i % 4 == 0 {
        byte_at(bytes, at) / 4
    } else if i % 4 == 1 {
        byte_at(bytes, at) % 4 * 16 + byte_at(bytes, at + 1) / 16
    } else if i % 4 == 2 {
        byte_at(bytes, at + 1) % 16 * 4 + byte_at(bytes, at + 2) / 64
    } else {
        byte_at(bytes, at + 2) % 64
    }
}

/// The number of characters that hold the bits of `n` bytes, six in each.
pub open spec fn encoded_len(n: nat) -> nat {
    (4 * n + 2) as nat / 3
}

/// `bytes` in base64: as many characters as hold their bits, six in each.
pub open spec fn encoded(bytes: Seq<u8>) -> Seq<char> {
    Seq::new(encoded_len(bytes.len()), |i: int| symbol(six_bits(bytes, i)))
}

/// The bytes that `s` is the encoding of, if there are any.
pub open spec fn decoded(s: Seq<char>) -> Option<Seq<u8>> {
    if exists|bytes: Seq<u8>| #[trigger] encoded(bytes) == s {
        Some(choose|bytes: Seq<u8>| #[trigger] encoded(bytes) == s)
    } else {
        None
    }
}

/// `URL_SAFE_NO_PAD.encode` of `base64`: the bytes in the alphabet for URLs, without padding.
#[verifier::external_body]
pub(crate) fn encode(bytes: &[u8]) -> (r: String)
    ensures
        r@ == encoded(bytes@),
{
    URL_SAFE_NO_PAD.encode(bytes)
}

/// `URL_SAFE_NO_PAD.decode` of `base64`: it takes exactly what encoding gives, without padding
/// and with no bit set behind the last byte, and gives the bytes back.
#[verifier::external_body]
pub(crate) fn decode(s: &str) -> (r: Option<Vec<u8>>)
    ensures
        match r {
            Some(bytes) => encoded(bytes@) == s@,
            None => decoded(s@) is None,
        },
{
    URL_SAFE_NO_PAD.decode(s).ok()
}

/// Whether `c` is one of the 64 characters.
pub open spec fn in_alphabet(c: char) -> bool {
    'A' <= c <= 'Z' || 'a' <= c <= 'z' || '0' <= c <= '9' || c == '-' || c == '_'
}

proof fn lemma_six_bits(bytes: Seq<u8>, i: int)
    requires
        0 <= i,
    ensures
        0 <= six_bits(bytes, i) < 64,
{
}

proof fn lemma_symbol(v: int, w: int)
    requires
        0 <= v < 64,
        0 <= w < 64,
    ensures
        in_alphabet(symbol(v)),
        symbol(v) == symbol(w) ==> v == w,
{
}

/// Only characters of the alphabet occur in encoded bytes.
pub proof fn lemma_encoded_alphabet(bytes: Seq<u8>, i: int)
    requires
        0 <= i < encoded(bytes).len(),
    ensures
        in_alphabet(encoded(bytes)[i]),
{
    lemma_six_bits(bytes, i);
    lemma_symbol(six_bits(bytes, i), 0);
}

proof fn lemma_byte_from_bits(a: Seq<u8>, b: Seq<u8>, k: int)
    requires
        a.len() == b.len(),
        0 <= k < a.len(),
        encoded(a) == encoded(b),
    ensures
        a[k] == b[k],
{
    let n = encoded_len(a.len());
    let q = k / 3;
    let r = k % 3;
    let i = 4 * q + r;
    assert(i + 1 < n);
    assert(encoded(a)[i] == symbol(six_bits(a, i)));
    assert(encoded(b)[i] == symbol(six_bits(b, i)));
    assert(encoded(a)[i + 1] == symbol(six_bits(a, i + 1)));
    assert(encoded(b)[i + 1] == symbol(six_bits(b, i + 1)));
    lemma_six_bits(a, i);
    lemma_six_bits(b, i);
    lemma_six_bits(a, i + 1);
    lemma_six_bits(b, i + 1);
    lemma_symbol(six_bits(a, i), six_bits(b, i));
    lemma_symbol(six_bits(a, i + 1), six_bits(b, i + 1));
    assert(i / 4 == q && i % 4 == r);
    assert((i + 1) / 4 == q && (i + 1) % 4 == r + 1);
    assert(3 * q + r == k);
    let x = a[k] as int;
    let y = b[k] as int;
    if r == 0 {
        assert(six_bits(a, i) == x / 4 && six_bits(b, i) == y / 4);
        assert(six_bits(a, i + 1) / 16 == x % 4 && six_bits(b, i + 1) / 16 == y % 4);
    } else if r == 1 {
        assert(six_bits(a, i) % 16 == x / 16 && six_bits(b, i) % 16 == y / 16);
        assert(six_bits(a, i + 1) / 4 == x % 16 && six_bits(b, i + 1) / 4 == y % 16);
    } else {
        assert(six_bits(a, i) % 4 == x / 64 && six_bits(b, i) % 4 == y / 64);
        assert(six_bits(a, i + 1) == x % 64 && six_bits(b, i + 1) == y % 64);
    }
}

/// Different bytes are encoded differently.
pub proof fn lemma_encoded_injective(a: Seq<u8>, b: Seq<u8>)
    requires
        encoded(a) == encoded(b),
    ensures
        a == b,
{
    let m = a.len() as int;
    let n = b.len() as int;
    assert(encoded(a).len() == encoded_len(a.len()));
    assert(encoded(b).len() == encoded_len(b.len()));
    assert(m == n);
    assert forall|k: int| 0 <= k < a.len() implies a[k] == b[k] by {
        lemma_byte_from_bits(a, b, k);
    }
    assert(a =~= b);
}

/// Decoding gives back what was encoded.
pub proof fn lemma_decoded_encoded(bytes: Seq<u8>)
    ensures
        decoded(encoded(bytes)) == Some(bytes),
{
    let back = choose|b: Seq<u8>| #[trigger] encoded(b) == encoded(bytes);
    assert(encoded(back) == encoded(bytes));
    lemma_encoded_injective(back, bytes);
}

} // verus!
