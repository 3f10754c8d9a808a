//! Stable numeric identities for handles that have no provider-assigned id.

use vstd::prelude::*;
use sha2::Digest;

verus! {

/// The SHA-256 digest of a byte string.
pub uninterp spec fn sha256(data: Seq<u8>) -> Seq<u8>;

/// The first four bytes of `digest` read as a big-endian number.
pub open spec fn be_u32(digest: Seq<u8>) -> int
    recommends
        digest.len() >= 4,
{
    digest[0] as int * 0x100_0000 + digest[1] as int * 0x1_0000 + digest[2] as int * 0x100
        + digest[3] as int
}

/// The identity derived from a digest: its leading big-endian word with the
/// sign bit cleared, and 1 in place of 0.
pub open spec fn id_of_digest(digest: Seq<u8>) -> int
    recommends
        digest.len() >= 4,
{
    let low = be_u32(digest) % 0x8000_0000;
    if low == 0 {
        1
    } else {
        low
    }
}

/// The synthetic identity of a handle, over the handle's characters.
pub open spec fn synthetic_id(login: Seq<char>) -> int {
    id_of_digest(sha256(vstd::utf8::encode_utf8(login)))
}

/// Calls `sha2::Sha256::digest` on `data`. Trusted: the thirty-two bytes that
/// come back are the SHA-256 digest of `data`, which depends on `data` alone.
#[verifier::external_body]
fn sha256_digest(data: &[u8]) -> (out: [u8; 32])
    ensures
        out@ == sha256(data@),
{
    sha2::Sha256::digest(data).into()
}

/// Every derived identity is a positive `i32`.
pub proof fn lemma_id_of_digest_positive(digest: Seq<u8>)
    ensures
        0 < id_of_digest(digest) <= i32::MAX,
{
}

/// A handle has one synthetic identity, and it is never zero.
pub proof fn lemma_synthetic_id_total(login: Seq<char>)
    ensures
        synthetic_id(login) == synthetic_id(login),
        synthetic_id(login) != 0,
        0 < synthetic_id(login) <= i32::MAX,
{
    lemma_id_of_digest_positive(sha256(vstd::utf8::encode_utf8(login)));
}

/// Derives the identity from a digest.
pub fn id_from_digest(digest: &[u8; 32]) -> (id: i32)
    ensures
        id == id_of_digest(digest@),
        id > 0,
{
    let word: u32 = (digest[0] as u32) * 0x100_0000 + (digest[1] as u32) * 0x1_0000 + (
    digest[2] as u32) * 0x100 + (digest[3] as u32);
    let low: u32 = word % 0x8000_0000;
    if low == 0 {
        1
    } else {
        low as i32
    }
}

/// The synthetic identity of `github_login`: derived from the SHA-256 digest
/// of its UTF-8 bytes.
pub fn synthetic_github_user_id(github_login: &str) -> (id: i32)
    ensures
        id == synthetic_id(github_login@),
        id > 0,
{
    let digest = sha256_digest(github_login.as_bytes());
    id_from_digest(&digest)
}

} // verus!
