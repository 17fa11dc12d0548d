//! The ARC issuer, with a stand-in for the credential scheme: hashes in place
//! of the group, which share its shapes and its determinism.

use std::collections::HashSet;

use bpir_cashier::arc::{ArcError, ArcIssuer, ArcKeys};
use sha2::{Digest, Sha256};

fn issuer() -> ArcIssuer {
    ArcIssuer::new([7u8; 32], 90 * 86_400, 30 * 86_400, 100)
}

/// Bytes are a scalar if the first of them is not the highest.
fn scalar(block: [u8; 32]) -> Option<[u8; 32]> {
    if block[0] == 0xff {
        None
    } else {
        Some(block)
    }
}

fn hash(parts: &[&[u8]]) -> [u8; 32] {
    let mut hasher = Sha256::new();
    for part in parts {
        hasher.update((part.len() as u64).to_le_bytes());
        hasher.update(part);
    }
    hasher.finalize().into()
}

fn public(keys: ArcKeys) -> Vec<u8> {
    let mut out = Vec::new();
    for key in [keys.x0, keys.x1, keys.x2] {
        out.push(2);
        out.extend_from_slice(&hash(&[b"public", &key]));
    }
    out
}

fn presentation_context(epoch: u32) -> Vec<u8> {
    let mut out = b"presentation".to_vec();
    out.extend_from_slice(&epoch.to_le_bytes());
    out
}

fn parse_request(bytes: &[u8]) -> Result<[u8; 32], String> {
    bytes.try_into().map_err(|_| "length".to_string())
}

fn respond(keys: ArcKeys, request: [u8; 32]) -> Result<Vec<u8>, String> {
    if request == [0u8; 32] {
        return Err("proof".into());
    }
    Ok(hash(&[b"credential", &keys.x0, &request]).to_vec())
}

/// A presentation: its number, the request it goes back to, and a seal.
struct Shown {
    number: u32,
    request: [u8; 32],
    seal: [u8; 32],
}

fn parse_presentation(bytes: &[u8], limit: u64) -> Result<Shown, String> {
    if bytes.len() != 68 {
        return Err("length".into());
    }
    let number = u32::from_le_bytes(bytes[..4].try_into().unwrap());
    if u64::from(number) >= limit {
        return Err("number".into());
    }
    Ok(Shown {
        number,
        request: bytes[4..36].try_into().unwrap(),
        seal: bytes[36..].try_into().unwrap(),
    })
}

fn seal(credential: &[u8], epoch: u32, number: u32) -> [u8; 32] {
    hash(&[
        b"seal",
        credential,
        &presentation_context(epoch),
        &number.to_le_bytes(),
    ])
}

fn verify(keys: ArcKeys, epoch: u32, shown: Shown, limit: u64) -> Result<Vec<u8>, String> {
    assert!(u64::from(shown.number) < limit);
    let credential = hash(&[b"credential", &keys.x0, &shown.request]);
    if seal(&credential, epoch, shown.number) != shown.seal {
        return Err("proof".into());
    }
    Ok(hash(&[b"tag", &credential, &shown.number.to_le_bytes()]).to_vec())
}

fn present(request: [u8; 32], credential: &[u8], epoch: u32, number: u32) -> Vec<u8> {
    let mut out = number.to_le_bytes().to_vec();
    out.extend_from_slice(&request);
    out.extend_from_slice(&seal(credential, epoch, number));
    out
}

fn key_hex(issuer: &ArcIssuer, epoch: u32) -> String {
    issuer.public_key_hex(epoch, scalar, public).unwrap()
}

#[test]
fn keys_are_deterministic_per_epoch_and_differ_across_epochs_and_seeds() {
    let a = issuer();
    assert_eq!(key_hex(&a, 231), key_hex(&a, 231));
    assert_ne!(key_hex(&a, 231), key_hex(&a, 232));
    assert_ne!(
        key_hex(&a, 231),
        key_hex(&ArcIssuer::new([8u8; 32], 1, 1, 100), 231)
    );
    assert_eq!(key_hex(&a, 231).len(), 99 * 2);
    let info = a
        .info(1_800_000_000, scalar, public, presentation_context)
        .unwrap();
    assert_eq!(info.epoch, 231);
    assert_eq!(info.presentation_limit, 100);
    assert_eq!(info.issuer_public_key_hex, key_hex(&a, 231));
    assert_eq!(
        info.presentation_context_hex,
        hex::encode(presentation_context(231))
    );
    assert_eq!(info.valid_until, 232 * 90 * 86_400 + 30 * 86_400);
}

#[test]
fn issued_credentials_present_up_to_the_limit_with_unique_tags() {
    let issuer = ArcIssuer::new([7u8; 32], 90 * 86_400, 30 * 86_400, 4);
    let epoch = 231;
    let request = [0x5au8; 32];
    let response = issuer
        .issue(epoch, &request, scalar, parse_request, respond)
        .unwrap()
        .unwrap();
    let check = |epoch: u32, bytes: &[u8]| {
        issuer
            .verify(epoch, bytes, scalar, parse_presentation, verify)
            .unwrap()
    };
    let mut tags = HashSet::new();
    for number in 0..4 {
        let presentation = present(request, &response, epoch, number);
        let tag = check(epoch, &presentation).unwrap();
        assert!(tags.insert(tag), "tags are unique per nonce");
        // The same bytes verify again: replay detection is the tag set's job.
        assert!(check(epoch, &presentation).is_ok());
        // Under another epoch's keys and contexts they do not.
        assert!(check(epoch + 1, &presentation).is_err());
    }
    assert!(check(epoch, &present(request, &response, epoch, 4)).is_err());
    assert!(check(epoch, &[0u8; 10]).is_err());
    assert!(issuer
        .issue(epoch, &[0u8; 10], scalar, parse_request, respond)
        .unwrap()
        .is_err());
}

#[test]
fn a_credential_comes_with_the_key_that_issued_it() {
    let issue = |epoch: u32, request: &[u8]| {
        issuer()
            .issue_with_key(epoch, request, scalar, public, parse_request, respond)
            .unwrap()
    };
    let request = [0x5au8; 32];
    for epoch in [231, 232] {
        let (key, response) = issue(epoch, &request).unwrap();
        assert_eq!(key, key_hex(&issuer(), epoch));
        let plain = issuer().issue(epoch, &request, scalar, parse_request, respond);
        assert_eq!(response, plain.unwrap().unwrap());
    }
    assert_eq!(
        issue(231, &[0u8; 10]),
        Err(ArcError::Malformed("credential request", "length".into()))
    );
    assert_eq!(issue(231, &[0u8; 32]), Err(ArcError::Invalid("proof".into())));
    let no_scalar = |_: [u8; 32]| None;
    assert!(issuer()
        .issue_with_key(231, &request, no_scalar, public, parse_request, respond)
        .is_none());
}

#[test]
fn each_scalar_is_the_first_usable_draw_of_its_info_string() {
    let draw = |epoch: u32, index: u8, attempt: u8| {
        let mut info = epoch.to_le_bytes().to_vec();
        info.push(index);
        info.push(attempt);
        let mut out = [0u8; 32];
        hkdf::Hkdf::<Sha256>::new(Some(b"BPIR-ARC-EPOCH-KEYS-V1"), &[7u8; 32])
            .expand(&info, &mut out)
            .unwrap();
        out
    };
    let plain = issuer().keys(231, scalar).unwrap();
    assert_eq!(plain.x0, draw(231, 0, 0));
    assert_eq!(plain.x1, draw(231, 1, 0));
    assert_eq!(plain.x2, draw(231, 2, 0));
    assert_eq!(plain.x0_blinding, draw(231, 3, 0));
    // A scheme that knows few scalars: draws are made again until one is.
    let rare = |block: [u8; 32]| if block[0] < 32 { Some(block) } else { None };
    let keys = issuer().keys(231, rare).unwrap();
    let first = |index: u8| {
        (0..=255u8)
            .map(|attempt| draw(231, index, attempt))
            .find(|block| block[0] < 32)
            .unwrap()
    };
    assert_eq!(keys.x0, first(0));
    assert_eq!(keys.x1, first(1));
    assert_eq!(keys.x2, first(2));
    assert_eq!(keys.x0_blinding, first(3));
}

#[test]
fn without_a_usable_draw_there_are_no_keys() {
    let none = |_: [u8; 32]| None;
    let zero = |_: [u8; 32]| Some([0u8; 32]);
    assert!(issuer().keys(1, none).is_none());
    assert!(issuer().keys(1, zero).is_none());
    assert!(issuer().public_key_hex(1, zero, public).is_none());
    assert!(issuer()
        .info(0, none, public, presentation_context)
        .is_none());
    assert!(issuer()
        .issue(1, &[1u8; 32], none, parse_request, respond)
        .is_none());
    let shown = present([1u8; 32], b"", 1, 0);
    assert!(issuer()
        .verify(1, &shown, none, parse_presentation, verify)
        .is_none());
}

#[test]
fn arc_errors_say_what_is_wrong() {
    let issue = |request: &[u8]| {
        issuer()
            .issue(1, request, scalar, parse_request, respond)
            .unwrap()
            .unwrap_err()
    };
    assert_eq!(
        issue(&[1u8; 3]),
        ArcError::Malformed("credential request", "length".into())
    );
    assert_eq!(
        issue(&[1u8; 3]).message(),
        "malformed ARC credential request: length"
    );
    assert_eq!(issue(&[0u8; 32]), ArcError::Invalid("proof".into()));
    assert_eq!(
        issue(&[0u8; 32]).message(),
        "ARC presentation does not verify: proof"
    );
    let shown = |bytes: &[u8]| {
        issuer()
            .verify(1, bytes, scalar, parse_presentation, verify)
            .unwrap()
            .unwrap_err()
    };
    assert_eq!(
        shown(&[0u8; 10]),
        ArcError::Malformed("presentation", "length".into())
    );
    assert_eq!(shown(&[0u8; 68]), ArcError::Invalid("proof".into()));
}

#[test]
fn presentations_are_verified_in_order() {
    let a = issuer();
    let request = [9u8; 32];
    let credential = a
        .issue(5, &request, scalar, parse_request, respond)
        .unwrap()
        .unwrap();
    let good: Vec<Vec<u8>> = (0..3)
        .map(|n| present(request, &credential, 5, n))
        .collect();
    let all = |list: &Vec<Vec<u8>>| {
        a.verify_all(5, list, scalar, parse_presentation, verify)
            .unwrap()
    };
    let tags = all(&good).unwrap();
    assert_eq!(tags.len(), 3);
    for (tag, shown) in tags.iter().zip(&good) {
        assert_eq!(
            Ok(tag.clone()),
            a.verify(5, shown, scalar, parse_presentation, verify)
                .unwrap()
        );
    }
    let mut bad = good.clone();
    bad[1] = vec![0u8; 68];
    bad[2] = vec![1, 2, 3];
    assert_eq!(all(&bad), Err(ArcError::Invalid("proof".into())));
    assert_eq!(all(&Vec::new()), Ok(Vec::new()));
}

#[test]
fn epochs_follow_the_clock() {
    let a = ArcIssuer::new([0u8; 32], 100, 30, 2);
    assert_eq!(a.presentation_limit(), 2);
    assert_eq!(a.current_epoch(99), 0);
    assert_eq!(a.current_epoch(100), 1);
    assert_eq!(a.valid_until(1), 230);
    assert!(!a.accepts(1, 99));
    assert!(a.accepts(1, 100));
    assert!(a.accepts(1, 229));
    assert!(!a.accepts(1, 230));
    assert!(a.accepts(2, 229));
}
