//! Hash and hex-encoding primitives from the `sha2`, `sha1` and `hex` crates.
use vstd::prelude::*;

use crate::text::push_char;

verus! {

/// The SHA-256 digest of `data`, as `sha2::Sha256` computes it.
pub uninterp spec fn sha256_spec(data: Seq<u8>) -> Seq<u8>;

/// The SHA-1 digest of `data`, as `sha1::Sha1` computes it.
pub uninterp spec fn sha1_spec(data: Seq<u8>) -> Seq<u8>;

/// `sha2::Sha256::digest`: claims the result is the SHA-256 digest of `data`,
/// 32 bytes long (the output size of `Sha256`).
#[verifier::external_body]
pub(crate) fn sha256_digest(data: &[u8]) -> (r: Vec<u8>)
    ensures
        r@ == sha256_spec(data@),
        r@.len() == 32,
{
    <sha2::Sha256 as sha2::Digest>::digest(data).to_vec()
}

/// `sha1::Sha1::digest`: claims the result is the SHA-1 digest of `data`,
/// 20 bytes long (the output size of `Sha1`).
#[verifier::external_body]
pub(crate) fn sha1_digest(data: &[u8]) -> (r: Vec<u8>)
    ensures
        r@ == sha1_spec(data@),
        r@.len() == 20,
{
    <sha1::Sha1 as sha1::Digest>::digest(data).to_vec()
}

/// Lower-case hexadecimal digit for a nibble `n < 16`.
pub open spec fn hex_digit(n: nat) -> char {
    if n < 10 {
        ((n + 48) as u8) as char
    } else {
        ((n - 10 + 97) as u8) as char
    }
}

/// Lower-case hex encoding: two digits per byte, high nibble first.
pub open spec fn hex_lower(bytes: Seq<u8>) -> Seq<char>
    decreases bytes.len(),
{
    if bytes.len() == 0 {
        Seq::empty()
    } else {
        seq![hex_digit((bytes[0] / 16) as nat), hex_digit((bytes[0] % 16) as nat)] + hex_lower(
            bytes.drop_first(),
        )
    }
}

/// Hex encoding distributes over concatenation.
proof fn lemma_hex_lower_concat(a: Seq<u8>, b: Seq<u8>)
    ensures
        hex_lower(a + b) == hex_lower(a) + hex_lower(b),
    decreases a.len(),
{
    if a.len() == 0 {
        assert(a + b =~= b);
    } else {
        lemma_hex_lower_concat(a.drop_first(), b);
        assert((a + b).drop_first() =~= a.drop_first() + b);
        assert((a + b)[0] == a[0]);
    }
}

/// The lower-case hex digit of a nibble.
fn hex_char(n: u8) -> (c: char)
    requires
        n < 16,
    ensures
        c == hex_digit(n as nat),
{
    if n < 10 {
        (n + 48) as char
    } else {
        (n - 10 + 97) as char
    }
}

/// The lower-case hex encoding of `bytes`, two characters per byte, high
/// nibble first (what `hex::encode` produces).
pub(crate) fn hex_encode(bytes: &[u8]) -> (s: String)
    ensures
        s@ == hex_lower(bytes@),
{
    let mut s = String::new();
    let mut i: usize = 0;
    while i < bytes.len()
        invariant
            i <= bytes@.len(),
            s@ == hex_lower(bytes@.take(i as int)),
        decreases bytes@.len() - i,
    {
        let b = bytes[i];
        proof {
            assert(bytes@.take(i + 1) =~= bytes@.take(i as int) + seq![b]);
            lemma_hex_lower_concat(bytes@.take(i as int), seq![b]);
            assert(seq![b].drop_first() =~= Seq::<u8>::empty());
            assert(hex_lower(Seq::<u8>::empty()) =~= Seq::<char>::empty());
            assert(hex_lower(seq![b]) =~= seq![hex_digit((b / 16) as nat), hex_digit((b % 16) as nat)]);
        }
        push_char(&mut s, hex_char(b / 16));
        push_char(&mut s, hex_char(b % 16));
        i += 1;
    }
    assert(bytes@.take(i as int) =~= bytes@);
    s
}

/// The hex encoding has two characters per byte.
pub proof fn lemma_hex_lower_len(bytes: Seq<u8>)
    ensures
        hex_lower(bytes).len() == 2 * bytes.len(),
    decreases bytes.len(),
{
    if bytes.len() > 0 {
        lemma_hex_lower_len(bytes.drop_first());
    }
}

} // verus!
