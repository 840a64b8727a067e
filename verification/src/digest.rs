//! Streaming digest support: SHA-256 over plaintext bytes, rendered as
//! lowercase hex. The digest is computed before any transfer begins, so it
//! commits to the source content.

use vstd::prelude::*;

verus! {

/// The SHA-256 digest of `data`: 32 bytes, a function of the input alone.
pub uninterp spec fn sha256_of(data: Seq<u8>) -> Seq<u8>;

/// The lowercase hex digit character for `d`.
pub open spec fn spec_hex_digit(d: int) -> char {
    if d == 0 {
        '0'
    } else if d == 1 {
        '1'
    } else if d == 2 {
        '2'
    } else if d == 3 {
        '3'
    } else if d == 4 {
        '4'
    } else if d == 5 {
        '5'
    } else if d == 6 {
        '6'
    } else if d == 7 {
        '7'
    } else if d == 8 {
        '8'
    } else if d == 9 {
        '9'
    } else if d == 10 {
        'a'
    } else if d == 11 {
        'b'
    } else if d == 12 {
        'c'
    } else if d == 13 {
        'd'
    } else if d == 14 {
        'e'
    } else {
        'f'
    }
}

/// Lowercase hex encoding: two digits for each byte, high nibble first.
pub open spec fn hex_of(data: Seq<u8>) -> Seq<char>
    decreases data.len(),
{
    if data.len() == 0 {
        Seq::empty()
    } else {
        seq![
            spec_hex_digit(data.first() as int / 16),
            spec_hex_digit(data.first() as int % 16),
        ] + hex_of(data.drop_first())
    }
}

/// The hex encoding is twice as long as its input.
pub proof fn lemma_hex_len(data: Seq<u8>)
    ensures
        hex_of(data).len() == 2 * data.len(),
    decreases data.len(),
{
    if data.len() > 0 {
        lemma_hex_len(data.drop_first());
    }
}

/// The full-file digest in string form: lowercase hex of the SHA-256.
pub open spec fn spec_sha256_hex(data: Seq<u8>) -> Seq<char> {
    hex_of(sha256_of(data))
}

/// Relies on `sha2::Sha256` (through the `Digest` trait): the 32-byte
/// SHA-256 digest, a function of the input bytes alone.
#[verifier::external_body]
fn sha256_bytes(data: &[u8]) -> (r: Vec<u8>)
    ensures
        r@ == sha256_of(data@),
        r@.len() == 32,
{
    <sha2::Sha256 as sha2::Digest>::digest(data).to_vec()
}

/// Relies on `hex::encode`: lowercase hex, two digits per byte, high nibble
/// first.
#[verifier::external_body]
fn hex_encode(data: &[u8]) -> (r: String)
    ensures
        r@ == hex_of(data@),
{
    hex::encode(data)
}

/// SHA-256 of `data`, rendered as 64 lowercase hex characters.
pub fn sha256_hex(data: &[u8]) -> (r: String)
    ensures
        r@ == spec_sha256_hex(data@),
        r@.len() == 64,
{
    let digest = sha256_bytes(data);
    let hexed = hex_encode(digest.as_slice());
    proof {
        lemma_hex_len(digest@);
    }
    hexed
}

} // verus!
