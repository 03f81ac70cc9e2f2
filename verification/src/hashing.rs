//! The hash function behind proof-of-work sealing: a SHA-256 digest,
//! rendered as lowercase hex.

use sha2::Digest;
use vstd::prelude::*;

verus! {

/// The SHA-256 digest of `data`.
pub uninterp spec fn sha256_of(data: Seq<u8>) -> Seq<u8>;

/// Relies on sha2::Sha256 through the `Digest` trait: the digest is a pure
/// function of the input bytes alone, and is 32 bytes long (output size U32).
#[verifier::external_body]
pub(crate) fn sha256(data: &Vec<u8>) -> (r: Vec<u8>)
    ensures
        r@ == sha256_of(data@),
        r@.len() == 32,
{
    let mut hasher = sha2::Sha256::new();
    hasher.update(data.as_slice());
    hasher.finalize().to_vec()
}

/// The ASCII lowercase hex digit with value `n`.
pub open spec fn hex_digit(n: nat) -> u8 {
    if n < 10 {
        (48 + n) as u8
    } else {
        (87 + n) as u8
    }
}

/// `bytes` in lowercase hex: two digits per byte, high nibble first.
pub open spec fn hex_of(bytes: Seq<u8>) -> Seq<u8>
    decreases bytes.len(),
{
    if bytes.len() == 0 {
        Seq::empty()
    } else {
        seq![
            hex_digit(bytes[0] as nat / 16),
            hex_digit(bytes[0] as nat % 16),
        ] + hex_of(bytes.drop_first())
    }
}

proof fn lemma_hex_of_skip(bytes: Seq<u8>, i: int)
    requires
        0 <= i < bytes.len(),
    ensures
        hex_of(bytes.skip(i)) == seq![
            hex_digit(bytes[i] as nat / 16),
            hex_digit(bytes[i] as nat % 16),
        ] + hex_of(bytes.skip(i + 1)),
{
    let rest = bytes.skip(i);
    assert(rest[0] == bytes[i]);
    assert(rest.drop_first() =~= bytes.skip(i + 1));
}

/// Renders `bytes` in lowercase hex, exactly as `hex_of` describes.
pub fn to_hex(bytes: &Vec<u8>) -> (r: Vec<u8>)
    ensures
        r@ == hex_of(bytes@),
        r@.len() == 2 * bytes@.len(),
{
    let mut out: Vec<u8> = Vec::new();
    let mut i: usize = 0;
    proof {
        assert(bytes@.skip(0) =~= bytes@);
    }
    while i < bytes.len()
        invariant
            i <= bytes@.len(),
            out@.len() == 2 * i,
            hex_of(bytes@) == out@ + hex_of(bytes@.skip(i as int)),
        decreases bytes@.len() - i,
    {
        proof {
            lemma_hex_of_skip(bytes@, i as int);
        }
        let b = bytes[i];
        let hi = b / 16;
        let lo = b % 16;
        out.push(if hi < 10 { 48 + hi } else { 87 + hi });
        out.push(if lo < 10 { 48 + lo } else { 87 + lo });
        proof {
            assert(hex_of(bytes@) =~= out@ + hex_of(bytes@.skip(i + 1)));
        }
        i += 1;
    }
    proof {
        assert(bytes@.skip(i as int) =~= Seq::<u8>::empty());
        assert(hex_of(bytes@) =~= out@);
    }
    out
}

} // verus!
