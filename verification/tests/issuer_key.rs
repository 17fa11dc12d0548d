//! The key that signs redeem answers.

use bpir_cashier::issuer_key::IssuerKey;
use ed25519_dalek::{Signature, Verifier, VerifyingKey};

#[test]
fn answers_verify_under_the_published_key() {
    let key = IssuerKey::new(&[7u8; 32]);
    let signature = Signature::from_bytes(&key.sign(b"answer"));
    let public = VerifyingKey::from_bytes(&key.public_key()).unwrap();
    public.verify(b"answer", &signature).unwrap();
    assert!(public.verify(b"other", &signature).is_err());
    assert_eq!(key.public_key_hex(), hex::encode(public.to_bytes()));
}

#[test]
fn the_seed_of_the_first_reference_vector_gives_its_key_and_signature() {
    // RFC 8032, section 7.1, test 1.
    let seed: [u8; 32] =
        hex::decode("9d61b19deffd5a60ba844af492ec2cc44449c5697b326919703bac031cae7f60")
            .unwrap()
            .try_into()
            .unwrap();
    let key = IssuerKey::new(&seed);
    assert_eq!(
        key.public_key_hex(),
        "d75a980182b10ab7d54bfed3c964073a0ee172f3daa62325af021a68f707511a"
    );
    assert_eq!(
        hex::encode(key.sign(b"")),
        "e5564300c360ac729086e2cc806e828a84877f1eb8e5d974d873e065224901555fb8821590a33bacc61e39701cf9b46bd25bf5f0595bbe24655141438e7a100b"
    );
}
