//! Session grants.

use bpir_cashier::grant::{
    grant_terms, issued_grant, GrantTerms, Issuer, GRANT_ID_LEN, SESSION_GRANT_LEN,
};
use ed25519_dalek::{Signature, Signer, SigningKey, Verifier, VerifyingKey};

/// The bytes of a grant: a version, the terms, the issuer's key and its
/// signature on all that.
fn encode(seed: &[u8; 32], terms: &GrantTerms) -> [u8; SESSION_GRANT_LEN] {
    let key = SigningKey::from_bytes(seed);
    let mut body = vec![1u8];
    body.extend_from_slice(&terms.grant_id);
    body.extend_from_slice(&terms.issued_at.to_le_bytes());
    body.extend_from_slice(&terms.expires_at.to_le_bytes());
    body.extend_from_slice(&terms.credits.to_le_bytes());
    body.extend_from_slice(&key.verifying_key().to_bytes());
    let signature = key.sign(&body).to_bytes();
    body.extend_from_slice(&signature);
    body.try_into().unwrap()
}

/// The credits of a grant that verifies under `key` at `now`.
fn verify(bytes: &[u8; SESSION_GRANT_LEN], key: &[u8; 32], now: u64) -> Option<u32> {
    let (body, signature) = bytes.split_at(69);
    let public = VerifyingKey::from_bytes(key).ok()?;
    let signature = Signature::from_slice(signature).ok()?;
    public.verify(body, &signature).ok()?;
    let expires_at = u64::from_le_bytes(body[25..33].try_into().unwrap());
    if now >= expires_at {
        return None;
    }
    Some(u32::from_le_bytes(body[33..37].try_into().unwrap()))
}

#[test]
fn issued_grant_verifies_under_the_public_key_and_is_deterministic_per_token() {
    let seed = [3u8; 32];
    let issuer = Issuer::new(&seed, 3600);
    let key = [0xabu8; 32];
    let signer = |terms: GrantTerms| Ok(encode(&seed, &terms));
    let (a, bytes_a) = issuer.issue(&key, 1000, 1_800_000_000, signer).unwrap();
    let (b, bytes_b) = issuer.issue(&key, 1000, 1_800_000_000, signer).unwrap();
    assert_eq!(a, b);
    assert_eq!(bytes_a, bytes_b);
    assert_eq!(a.grant_id_hex, hex::encode(&key[..16]));
    assert_eq!(a.expires_at, a.issued_at + 3600);
    assert_eq!(
        verify(&bytes_a, &issuer.public_key(), 1_800_000_100),
        Some(1000)
    );
    assert_eq!(verify(&bytes_a, &[9u8; 32], 1_800_000_100), None);
}

#[test]
fn the_grant_carries_the_signed_bytes_in_base64() {
    let issuer = Issuer::new(&[3u8; 32], 60);
    let signed: [u8; SESSION_GRANT_LEN] = std::array::from_fn(|i| (i * 7) as u8);
    let (grant, bytes) = issuer
        .issue(&[1u8; 32], 5, 100, |_| Ok(signed))
        .unwrap();
    assert_eq!(bytes, signed);
    let standard = base64::engine::general_purpose::STANDARD;
    assert_eq!(
        grant.grant_base64,
        base64::Engine::encode(&standard, signed)
    );
    assert_eq!(grant.grant_base64.len(), 180);
    assert_eq!(grant.credits, 5);
    assert_eq!((grant.issued_at, grant.expires_at), (100, 160));
    assert_eq!(grant.grant_id_hex.len(), 2 * GRANT_ID_LEN);
}

#[test]
fn a_signer_that_fails_is_passed_on() {
    let issuer = Issuer::new(&[3u8; 32], 60);
    let refused = issuer.issue(&[1u8; 32], 5, 100, |_| Err("no credits".to_string()));
    assert_eq!(refused, Err("no credits".to_string()));
}

#[test]
fn expiry_saturates_and_the_id_follows_the_token() {
    let key: [u8; 32] = std::array::from_fn(|i| i as u8);
    let terms = grant_terms(&key, 1, u64::MAX - 5, 10);
    assert_eq!(terms.expires_at, u64::MAX);
    assert_eq!(terms.grant_id, key[..16]);
    let early = grant_terms(&key, 2, 7, 10);
    assert_eq!(early.expires_at, 17);
    assert_eq!(
        issued_grant(&terms, &[0u8; 133]).grant_id_hex,
        issued_grant(&early, &[1u8; 133]).grant_id_hex
    );
}

#[test]
fn grants_and_answers_are_signed_with_one_key() {
    let issuer = Issuer::new(&[5u8; 32], 86_400);
    assert_eq!(issuer.ttl_secs(), 86_400);
    assert_eq!(
        issuer.public_key(),
        SigningKey::from_bytes(&[5u8; 32]).verifying_key().to_bytes()
    );
    assert_eq!(issuer.public_key_hex(), hex::encode(issuer.public_key()));
    let public = VerifyingKey::from_bytes(&issuer.public_key()).unwrap();
    let signature = Signature::from_bytes(&issuer.sign(b"answer"));
    public.verify(b"answer", &signature).unwrap();
}
