//! The hash primitive: 32-byte SHA-256 digests, iterated hashing and
//! tagged-extension hashing.

use sha2::{Digest, Sha256};
use vstd::prelude::*;
use vstd::slice::slice_to_vec;

verus! {

/// A SHA-256 digest. The all-zero array is the zero hash.
pub type Sha256Hash = [u8; 32];

/// The SHA-256 digest of `data`, as computed by `sha2::Sha256`.
pub uninterp spec fn sha256(data: Seq<u8>) -> Seq<u8>;

/// `sha256` applied `n` times to `h`.
pub open spec fn hash_n(h: Seq<u8>, n: nat) -> Seq<u8>
    decreases n,
{
    if n == 0 {
        h
    } else {
        sha256(hash_n(h, (n - 1) as nat))
    }
}

/// The digest of `h || tag || payload`, where `tag` is a one-byte domain separator.
pub open spec fn extend(h: Seq<u8>, tag: u8, payload: Seq<u8>) -> Seq<u8> {
    sha256(h + seq![tag] + payload)
}

/// Returns the SHA-256 hash of the given data, computed by
/// `sha2::Sha256::digest`. The contract names the 32-byte output
/// `sha256(val@)`; SHA-256 itself is not modelled.
#[verifier::external_body]
pub fn hash(val: &[u8]) -> (digest: Sha256Hash)
    ensures
        digest@ == sha256(val@),
{
    Sha256::digest(val).into()
}

/// Returns the hash of the given hash extended with the tag byte `ty` and the value `val`.
pub fn extend_and_hash(end_hash: &Sha256Hash, ty: u8, val: &[u8]) -> (digest: Sha256Hash)
    ensures
        digest@ == extend(end_hash@, ty, val@),
{
    let mut hash_data: Vec<u8> = slice_to_vec(end_hash.as_slice());
    hash_data.push(ty);
    hash_data.extend_from_slice(val);
    assert(hash_data@ == end_hash@ + seq![ty] + val@);
    hash(hash_data.as_slice())
}

/// Compares two hashes byte by byte.
pub fn hash_eq(a: &Sha256Hash, b: &Sha256Hash) -> (eq: bool)
    ensures
        eq == (a@ == b@),
{
    let mut i: usize = 0;
    while i < 32
        invariant
            i <= 32,
            forall|j: int| 0 <= j < i ==> a@[j] == b@[j],
        decreases 32 - i,
    {
        if a[i] != b[i] {
            return false;
        }
        i += 1;
    }
    assert(a@ =~= b@);
    true
}

} // verus!
