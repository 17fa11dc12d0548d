//! The primitives the cashier rests on: SHA-256, HKDF and Ed25519. Each is
//! known here by a name for its result; nothing more is claimed of it than
//! the length of what it returns and that signatures verify.

use vstd::prelude::*;

verus! {

/// The SHA-256 digest of a message.
pub uninterp spec fn sha256_digest(message: Seq<u8>) -> Seq<u8>;

/// `sha2::Sha256::digest`. The contract claims that the 32 bytes depend on the
/// message alone.
#[verifier::external_body]
pub(crate) fn sha256(message: &[u8]) -> (r: [u8; 32])
    ensures
        r@ == sha256_digest(message@),
{
    <sha2::Sha256 as sha2::Digest>::digest(message).into()
}

/// The first 32 bytes that HKDF-SHA256 expands from a salt, input keying
/// material and an info string.
pub uninterp spec fn hkdf_block(salt: Seq<u8>, material: Seq<u8>, info: Seq<u8>) -> Seq<u8>;

/// `hkdf::Hkdf::<Sha256>::new` and `expand` to 32 bytes. The contract claims
/// that the bytes depend on the three arguments alone; 32 bytes is a valid
/// output length, so the expansion does not fail.
#[verifier::external_body]
pub(crate) fn hkdf_expand(salt: &[u8], material: &[u8], info: &[u8]) -> (r: [u8; 32])
    ensures
        r@ == hkdf_block(salt@, material@, info@),
{
    let mut okm = [0u8; 32];
    hkdf::Hkdf::<sha2::Sha256>::new(Some(salt), material).expand(info, &mut okm).expect(
        "32 bytes is a valid HKDF output length",
    );
    okm
}

/// The Ed25519 public key of a seed.
pub uninterp spec fn ed25519_public_key(seed: Seq<u8>) -> Seq<u8>;

/// The Ed25519 signature of a message under the key of a seed.
pub uninterp spec fn ed25519_signature(seed: Seq<u8>, message: Seq<u8>) -> Seq<u8>;

/// Whether 32 bytes are an Ed25519 public key.
pub uninterp spec fn ed25519_is_key(bytes: Seq<u8>) -> bool;

/// Whether an Ed25519 signature on a message verifies under a public key.
pub uninterp spec fn ed25519_verifies(
    key: Seq<u8>,
    message: Seq<u8>,
    signature: Seq<u8>,
) -> bool;

/// `ed25519_dalek::SigningKey::from_bytes` and `verifying_key`. The contract
/// claims that the public key depends on the seed alone and is a valid key.
#[verifier::external_body]
pub(crate) fn public_key_of(seed: &[u8; 32]) -> (r: [u8; 32])
    ensures
        r@ == ed25519_public_key(seed@),
        ed25519_is_key(r@),
{
    ed25519_dalek::SigningKey::from_bytes(seed).verifying_key().to_bytes()
}

/// `ed25519_dalek::SigningKey::sign`. The contract claims that the signature
/// depends on the seed and the message alone, and that it verifies under the
/// seed's public key.
#[verifier::external_body]
pub(crate) fn sign_with(seed: &[u8; 32], message: &[u8]) -> (r: [u8; 64])
    ensures
        r@ == ed25519_signature(seed@, message@),
        ed25519_verifies(ed25519_public_key(seed@), message@, r@),
{
    ed25519_dalek::Signer::sign(&ed25519_dalek::SigningKey::from_bytes(seed), message).to_bytes()
}

/// `ed25519_dalek::VerifyingKey::from_bytes`. The contract claims that
/// acceptance depends on the bytes alone.
#[verifier::external_body]
pub(crate) fn is_public_key(bytes: &[u8; 32]) -> (r: bool)
    ensures
        r == ed25519_is_key(bytes@),
{
    ed25519_dalek::VerifyingKey::from_bytes(bytes).is_ok()
}

/// `ed25519_dalek::VerifyingKey::verify`. The contract claims that the verdict
/// depends on the key, the message and the signature alone. Bytes that are
/// not a key verify nothing.
#[verifier::external_body]
pub(crate) fn signature_verifies(key: &[u8; 32], message: &[u8], signature: &[u8; 64]) -> (r: bool)
    ensures
        r == ed25519_verifies(key@, message@, signature@),
        r ==> ed25519_is_key(key@),
{
    match ed25519_dalek::VerifyingKey::from_bytes(key) {
        Ok(key) => {
            let signature = ed25519_dalek::Signature::from_bytes(signature);
            ed25519_dalek::Verifier::verify(&key, message, &signature).is_ok()
        },
        Err(_) => false,
    }
}

} // verus!
