//! Session grants: what a paid token buys under the first contract.
//!
//! The grant id is derived from the paid token (see [`crate::cashu::token_key`])
//! so that a replayed request for the same token maps to the same id, and ids
//! stay unique across cashier restarts without any counter.

use vstd::prelude::*;

use crate::crypto;
use crate::encoding;

verus! {

/// Bytes of a grant id.
pub const GRANT_ID_LEN: usize = 16;

/// Bytes of an encoded, signed grant.
pub const SESSION_GRANT_LEN: usize = 133;

/// Fields the client echoes back and checks against the offer.
#[derive(Debug, PartialEq, Eq)]
pub struct IssuedGrant {
    pub grant_base64: String,
    pub grant_id_hex: String,
    pub credits: u32,
    pub issued_at: u64,
    pub expires_at: u64,
}

/// The model of an [`IssuedGrant`].
pub struct IssuedGrantView {
    pub grant_base64: Seq<char>,
    pub grant_id_hex: Seq<char>,
    pub credits: u32,
    pub issued_at: u64,
    pub expires_at: u64,
}

impl View for IssuedGrant {
    type V = IssuedGrantView;

    open spec fn view(&self) -> IssuedGrantView {
        IssuedGrantView {
            grant_base64: self.grant_base64@,
            grant_id_hex: self.grant_id_hex@,
            credits: self.credits,
            issued_at: self.issued_at,
            expires_at: self.expires_at,
        }
    }
}

impl Clone for IssuedGrant {
    fn clone(&self) -> (r: Self)
        ensures
            r@ == self@,
    {
        IssuedGrant {
            grant_base64: self.grant_base64.clone(),
            grant_id_hex: self.grant_id_hex.clone(),
            credits: self.credits,
            issued_at: self.issued_at,
            expires_at: self.expires_at,
        }
    }
}

/// What a grant is signed over.
#[derive(Clone, Copy, Debug, PartialEq, Eq)]
pub struct GrantTerms {
    pub grant_id: [u8; 16],
    pub issued_at: u64,
    pub expires_at: u64,
    pub credits: u32,
}

/// The model of [`GrantTerms`].
pub struct GrantTermsView {
    pub grant_id: Seq<u8>,
    pub issued_at: u64,
    pub expires_at: u64,
    pub credits: u32,
}

impl View for GrantTerms {
    type V = GrantTermsView;

    open spec fn view(&self) -> GrantTermsView {
        GrantTermsView {
            grant_id: self.grant_id@,
            issued_at: self.issued_at,
            expires_at: self.expires_at,
            credits: self.credits,
        }
    }
}

/// The terms of a grant for `credits`, valid from `now` for `ttl_secs`, with
/// the id taken from the first 16 bytes of the token's key.
pub open spec fn terms_of(token_key: Seq<u8>, credits: u32, now: u64, ttl_secs: u64) -> GrantTermsView {
    GrantTermsView {
        grant_id: token_key.take(16),
        issued_at: now,
        expires_at: if now + ttl_secs <= u64::MAX {
            (now + ttl_secs) as u64
        } else {
            u64::MAX
        },
        credits,
    }
}

/// A signed grant as the client receives it.
pub open spec fn grant_of(terms: GrantTermsView, signed: Seq<u8>) -> IssuedGrantView {
    IssuedGrantView {
        grant_base64: encoding::base64_text(signed),
        grant_id_hex: encoding::hex_text(terms.grant_id),
        credits: terms.credits,
        issued_at: terms.issued_at,
        expires_at: terms.expires_at,
    }
}

/// The terms of a grant that a paid token buys.
pub fn grant_terms(token_key: &[u8; 32], credits: u32, now: u64, ttl_secs: u64) -> (r: GrantTerms)
    ensures
        r@ == terms_of(token_key@, credits, now, ttl_secs),
{
    let mut grant_id = [0u8; 16];
    let mut i: usize = 0;
    while i < 16
        invariant
            i <= 16,
            forall|j: int| 0 <= j < i ==> grant_id@[j] == token_key@[j],
        decreases 16 - i,
    {
        grant_id[i] = token_key[i];
        i += 1;
    }
    assert(grant_id@ == token_key@.take(16));
    GrantTerms { grant_id, issued_at: now, expires_at: now.saturating_add(ttl_secs), credits }
}

/// A signed grant as the client receives it.
pub fn issued_grant(terms: &GrantTerms, signed: &[u8; 133]) -> (r: IssuedGrant)
    ensures
        r@ == grant_of(terms@, signed@),
{
    IssuedGrant {
        grant_base64: encoding::base64_encode(signed),
        grant_id_hex: encoding::hex_encode(&terms.grant_id),
        credits: terms.credits,
        issued_at: terms.issued_at,
        expires_at: terms.expires_at,
    }
}

/// The key that signs grants and redeem answers, with the lifetime of a grant.
pub struct Issuer {
    seed: [u8; 32],
    ttl_secs: u64,
}

impl Issuer {
    /// The seed of the key.
    pub closed spec fn seed(&self) -> Seq<u8> {
        self.seed@
    }

    /// The lifetime of a grant in seconds.
    pub closed spec fn ttl(&self) -> u64 {
        self.ttl_secs
    }

    pub fn new(seed: &[u8; 32], ttl_secs: u64) -> (r: Self)
        ensures
            r.seed() == seed@,
            r.ttl() == ttl_secs,
    {
        Issuer { seed: *seed, ttl_secs }
    }

    /// Sign arbitrary bytes (a redeem answer preimage) with the issuer key.
    pub fn sign(&self, message: &[u8]) -> (r: [u8; 64])
        ensures
            r@ == crypto::ed25519_signature(self.seed(), message@),
            crypto::ed25519_verifies(crypto::ed25519_public_key(self.seed()), message@, r@),
    {
        crypto::sign_with(&self.seed, message)
    }

    pub fn public_key(&self) -> (r: [u8; 32])
        ensures
            r@ == crypto::ed25519_public_key(self.seed()),
            crypto::ed25519_is_key(r@),
    {
        crypto::public_key_of(&self.seed)
    }

    pub fn public_key_hex(&self) -> (r: String)
        ensures
            r@ == encoding::hex_text(crypto::ed25519_public_key(self.seed())),
    {
        encoding::hex_encode(&self.public_key())
    }

    pub fn ttl_secs(&self) -> (r: u64)
        ensures
            r == self.ttl(),
    {
        self.ttl_secs
    }

    /// Sign a grant for `credits`, valid from `now` for the configured
    /// lifetime, with the id taken from the first 16 bytes of `token_key`.
    /// `signer` encodes and signs the terms.
    pub fn issue<F: Fn(GrantTerms) -> Result<[u8; 133], String>>(
        &self,
        token_key: &[u8; 32],
        credits: u32,
        now: u64,
        signer: F,
    ) -> (r: Result<(IssuedGrant, [u8; 133]), String>)
        requires
            forall|terms: GrantTerms| signer.requires((terms,)),
        ensures
            exists|terms: GrantTerms, signed: Result<[u8; 133], String>|
                #![trigger signer.ensures((terms,), signed)]
                {
                    &&& terms@ == terms_of(token_key@, credits, now, self.ttl())
                    &&& signer.ensures((terms,), signed)
                    &&& match signed {
                        Err(why) => r == Err::<(IssuedGrant, [u8; 133]), String>(why),
                        Ok(bytes) => r matches Ok((grant, out)) && grant@ == grant_of(
                            terms@,
                            bytes@,
                        ) && out == bytes,
                    }
                },
    {
        let terms = grant_terms(token_key, credits, now, self.ttl_secs);
        match signer(terms) {
            Err(why) => Err(why),
            Ok(bytes) => Ok((issued_grant(&terms, &bytes), bytes)),
        }
    }
}

/// The id of a grant depends on the paid token alone, not on when or for how
/// much the grant was issued: it is the first half of the token's key, in the
/// log and in the grant.
pub proof fn grant_id_follows_token(
    token_key: Seq<u8>,
    a: u32,
    b: u32,
    now: u64,
    later: u64,
    ttl_secs: u64,
    signed: Seq<u8>,
    resigned: Seq<u8>,
)
    ensures
        grant_of(terms_of(token_key, a, now, ttl_secs), signed).grant_id_hex == grant_of(
            terms_of(token_key, b, later, ttl_secs),
            resigned,
        ).grant_id_hex,
        token_key.len() == 32 ==> grant_of(
            terms_of(token_key, a, now, ttl_secs),
            signed,
        ).grant_id_hex == encoding::hex_text(token_key).take(32),
{
    if token_key.len() == 32 {
        assert(encoding::hex_text(token_key.take(16)) == encoding::hex_text(token_key).take(32));
    }
}

/// A grant is for the credits of its pack, from the moment of its sale for
/// the lifetime that is published, up to the last second that a 64-bit number
/// can name.
pub proof fn grants_last_their_lifetime(
    token_key: Seq<u8>,
    credits: u32,
    now: u64,
    ttl_secs: u64,
    signed: Seq<u8>,
)
    ensures
        ({
            let grant = grant_of(terms_of(token_key, credits, now, ttl_secs), signed);
            &&& grant.credits == credits
            &&& grant.issued_at == now
            &&& grant.expires_at >= now
            &&& grant.expires_at < u64::MAX ==> grant.expires_at - now == ttl_secs
            &&& grant.expires_at == u64::MAX ==> now + ttl_secs >= u64::MAX
            &&& grant.grant_base64 == encoding::base64_text(signed)
        }),
{
}

} // verus!
