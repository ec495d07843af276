//! The cryptographic digest and the identifiers derived from it.
use byteorder::ByteOrder;
use sha2::Digest;
use vstd::bytes::spec_u64_to_le_bytes;
use vstd::prelude::*;

verus! {

/// A 32-byte digest.
pub type CryptoHash = Vec<u8>;

/// Number of bytes in a digest.
pub const HASH_LEN: usize = 32;

/// The SHA-256 digest of a byte string.
pub uninterp spec fn sha256(data: Seq<u8>) -> Seq<u8>;

/// The digest of a byte string, 32 bytes long. The digest function gives
/// 32 bytes for every input; the second branch is never taken and is
/// written so that the length is known of every value in a contract.
pub open spec fn spec_hash(data: Seq<u8>) -> Seq<u8> {
    if sha256(data).len() == HASH_LEN {
        sha256(data)
    } else {
        Seq::new(HASH_LEN as nat, |i: int| 0u8)
    }
}

/// The eight bytes of `n`, most significant first.
pub open spec fn spec_u64_to_be_bytes(n: u64) -> Seq<u8> {
    spec_u64_to_le_bytes(n).reverse()
}

/// The bytes from which the identifier number `salt` under `base` is derived.
pub open spec fn spec_nonce_preimage(base: Seq<u8>, salt: u64) -> Seq<u8> {
    base + spec_u64_to_be_bytes(salt)
}

/// The identifier number `salt` derived from `base`.
pub open spec fn spec_nonce(base: Seq<u8>, salt: u64) -> Seq<u8> {
    spec_hash(spec_nonce_preimage(base, salt))
}

/// Calls `sha2::Sha256::digest`. Trusted: the result is the SHA-256 digest of
/// `data`, which is 32 bytes long.
#[verifier::external_body]
fn sha256_digest(data: &[u8]) -> (digest: Vec<u8>)
    ensures
        digest@ == sha256(data@),
        digest@.len() == HASH_LEN,
{
    sha2::Sha256::digest(data).to_vec()
}

/// Calls `byteorder::BigEndian::write_u64` on a buffer of eight bytes.
/// Trusted: the buffer then holds the bytes of `n`, most significant first.
#[verifier::external_body]
fn u64_to_be_bytes(n: u64) -> (bytes: Vec<u8>)
    ensures
        bytes@ == spec_u64_to_be_bytes(n),
{
    let mut buf = [0u8; 8];
    byteorder::BigEndian::write_u64(&mut buf, n);
    buf.to_vec()
}

/// The digest of `data`.
pub fn hash(data: &[u8]) -> (digest: CryptoHash)
    ensures
        digest@ == spec_hash(data@),
        digest@.len() == HASH_LEN,
{
    sha256_digest(data)
}

/// The position `index` as bytes, most significant first.
pub fn index_to_bytes(index: u64) -> (bytes: Vec<u8>)
    ensures
        bytes@ == spec_u64_to_be_bytes(index),
        bytes@.len() == 8,
{
    proof {
        vstd::bytes::lemma_auto_spec_u64_to_from_le_bytes();
    }
    u64_to_be_bytes(index)
}

/// Derives the identifier number `salt` from `base`: the digest of `base`
/// followed by `salt` as eight bytes, most significant first.
pub fn create_nonce_with_nonce(base: &[u8], salt: u64) -> (nonce: CryptoHash)
    ensures
        nonce@ == spec_nonce(base@, salt),
        nonce@.len() == HASH_LEN,
{
    let mut preimage: Vec<u8> = Vec::new();
    preimage.extend_from_slice(base);
    let mut index = index_to_bytes(salt);
    preimage.append(&mut index);
    assert(preimage@ =~= spec_nonce_preimage(base@, salt));
    hash(preimage.as_slice())
}

} // verus!
