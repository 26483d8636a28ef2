//! The signature primitive: Ed25519 key pairs, signing and verification.

use ring::rand::SystemRandom;
use ring::signature::{Ed25519KeyPair, KeyPair, UnparsedPublicKey, ED25519};
use vstd::prelude::*;

verus! {

/// An Ed25519 public key.
pub type PublicKey = [u8; 32];

/// An Ed25519 signature.
pub type Signature = [u8; 64];

/// An Ed25519 key pair, held as its 32-byte private seed.
pub struct Keypair {
    seed: [u8; 32],
}

impl View for Keypair {
    type V = Seq<u8>;

    /// The private seed.
    closed spec fn view(&self) -> Seq<u8> {
        self.seed@
    }
}

/// The public key that Ed25519 derives from the private seed `seed`.
pub uninterp spec fn ed25519_public_key(seed: Seq<u8>) -> Seq<u8>;

/// The Ed25519 signature of `msg` under the private seed `seed`.
pub uninterp spec fn ed25519_signature(seed: Seq<u8>, msg: Seq<u8>) -> Seq<u8>;

/// Whether Ed25519 verification accepts `sig` as a signature of `msg` under
/// the public key `key`.
pub uninterp spec fn ed25519_valid(key: Seq<u8>, msg: Seq<u8>, sig: Seq<u8>) -> bool;

impl Keypair {
    /// The key pair with the given private seed.
    pub fn from_seed(seed: [u8; 32]) -> (keypair: Keypair)
        ensures
            keypair@ == seed@,
    {
        Keypair { seed }
    }

    /// Signs `msg` with this key pair. The signature verifies under the
    /// pair's public key.
    pub fn sign(&self, msg: &[u8]) -> (sig: Signature)
        ensures
            sig@ == ed25519_signature(self@, msg@),
            ed25519_valid(ed25519_public_key(self@), msg@, sig@),
    {
        sign_with_seed(&self.seed, msg)
    }
}

/// Returns a new Ed25519 key pair with a seed drawn from the system's
/// random source, or `None` when that source fails.
pub fn generate_keypair() -> Option<Keypair> {
    keypair_from_drawn(random_seed())
}

/// The key pair of a drawn seed: the pair with that seed, or `None` when
/// nothing was drawn.
pub fn keypair_from_drawn(drawn: Option<[u8; 32]>) -> (keypair: Option<Keypair>)
    ensures
        match drawn {
            Some(seed) => keypair matches Some(pair) && pair@ == seed@,
            None => keypair is None,
        },
{
    match drawn {
        Some(seed) => Some(Keypair::from_seed(seed)),
        None => None,
    }
}

/// Returns the public key of the given key pair.
pub fn get_pubkey(keypair: &Keypair) -> (key: PublicKey)
    ensures
        key@ == ed25519_public_key(keypair@),
{
    derive_public_key(&keypair.seed)
}

/// Draws 32 bytes from `ring::rand::SystemRandom` through
/// `ring::rand::generate`; `None` when the random source reports an error.
/// Nothing is claimed of the bytes drawn.
#[verifier::external_body]
fn random_seed() -> Option<[u8; 32]> {
    match ring::rand::generate::<[u8; 32]>(&SystemRandom::new()) {
        Ok(random) => Some(random.expose()),
        Err(_) => None,
    }
}

/// Builds the key pair of `seed` with `Ed25519KeyPair::from_seed_unchecked`,
/// which accepts every 32-byte seed, and reads its public key with
/// `KeyPair::public_key`. The contract names those 32 bytes
/// `ed25519_public_key(seed@)`.
#[verifier::external_body]
fn derive_public_key(seed: &[u8; 32]) -> (key: PublicKey)
    ensures
        key@ == ed25519_public_key(seed@),
{
    let pair = Ed25519KeyPair::from_seed_unchecked(seed).unwrap();
    let mut key = [0u8; 32];
    key.copy_from_slice(pair.public_key().as_ref());
    key
}

/// Builds the key pair of `seed` with `Ed25519KeyPair::from_seed_unchecked`
/// and signs `msg` with `Ed25519KeyPair::sign`. Ed25519 signing is
/// deterministic, so the contract names the 64 bytes
/// `ed25519_signature(seed@, msg@)`. It also claims that verification accepts
/// the signature under the public key of the same seed, which is how the
/// module documentation of `ring::signature` signs and then verifies.
#[verifier::external_body]
fn sign_with_seed(seed: &[u8; 32], msg: &[u8]) -> (sig: Signature)
    ensures
        sig@ == ed25519_signature(seed@, msg@),
        ed25519_valid(ed25519_public_key(seed@), msg@, sig@),
{
    let pair = Ed25519KeyPair::from_seed_unchecked(seed).unwrap();
    let mut sig = [0u8; 64];
    sig.copy_from_slice(pair.sign(msg).as_ref());
    sig
}

/// Verifies a signed message with the given public key, through
/// `ring::signature::UnparsedPublicKey::verify` with the `ED25519` algorithm.
/// A key or signature of the wrong length is rejected like any other invalid
/// one. The contract names the verdict `ed25519_valid`.
#[verifier::external_body]
pub fn verify_signature(peer_public_key_bytes: &[u8], msg_bytes: &[u8], sig_bytes: &[u8]) -> (ok:
    bool)
    ensures
        ok == ed25519_valid(peer_public_key_bytes@, msg_bytes@, sig_bytes@),
{
    UnparsedPublicKey::new(&ED25519, peer_public_key_bytes).verify(msg_bytes, sig_bytes).is_ok()
}

} // verus!
