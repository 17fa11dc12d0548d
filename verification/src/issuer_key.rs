//! The issuer's Ed25519 key. It signs every `POST /v2/redeem` answer, and the
//! PIR servers pin its public key. The seed is the file that the `keygen`
//! command writes.

use vstd::prelude::*;

use crate::crypto;
use crate::encoding;

verus! {

/// The issuer's signing key.
pub struct IssuerKey {
    seed: [u8; 32],
}

impl IssuerKey {
    /// The seed of the key.
    pub closed spec fn seed(&self) -> Seq<u8> {
        self.seed@
    }

    pub fn new(seed: &[u8; 32]) -> (r: Self)
        ensures
            r.seed() == seed@,
    {
        IssuerKey { seed: *seed }
    }

    /// Sign a redeem answer preimage. The signature verifies under the
    /// published key.
    pub fn sign(&self, message: &[u8]) -> (r: [u8; 64])
        ensures
            r@ == crypto::ed25519_signature(self.seed(), message@),
            crypto::ed25519_verifies(crypto::ed25519_public_key(self.seed()), message@, r@),
    {
        crypto::sign_with(&self.seed, message)
    }

    pub fn public_key(&self) -> (r: [u8; 32])
        ensures
            r@ == crypto::ed25519_public_key(self.seed()),
            crypto::ed25519_is_key(r@),
    {
        crypto::public_key_of(&self.seed)
    }

    pub fn public_key_hex(&self) -> (r: String)
        ensures
            r@ == encoding::hex_text(crypto::ed25519_public_key(self.seed())),
    {
        encoding::hex_encode(&self.public_key())
    }
}

} // verus!
