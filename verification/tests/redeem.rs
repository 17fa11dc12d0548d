//! Authentication of redeem requests, and the redeem store.

use bpir_cashier::api::ApiError;
use bpir_cashier::credit::{IdentityCert, RedeemItemV1, RedeemRequestV1};
use bpir_cashier::log::LogLine;
use bpir_cashier::redeem::{
    check_server, check_signature, read_contents, verify_request, RedeemEvent, RedeemStore,
    RedeemStoreError, ServerTotals, VerifiedRedeem, REDEEM_NONCE_LEN,
};
use ed25519_dalek::{Signature, Signer, SigningKey, Verifier, VerifyingKey};

const NOW: u64 = 1_800_000_000;

fn operator() -> SigningKey {
    SigningKey::from_bytes(&[1u8; 32])
}

fn server_key() -> SigningKey {
    SigningKey::from_bytes(&[2u8; 32])
}

/// The bytes of a certificate: both keys, the window, the operator's
/// signature on all that and the name, and the name.
fn sign_identity_cert(
    operator: &SigningKey,
    server_id: &str,
    identity: [u8; 32],
    valid_from: i64,
    valid_until: i64,
) -> Vec<u8> {
    let mut body = operator.verifying_key().to_bytes().to_vec();
    body.extend_from_slice(&identity);
    body.extend_from_slice(&valid_from.to_le_bytes());
    body.extend_from_slice(&valid_until.to_le_bytes());
    let mut signed = body.clone();
    signed.extend_from_slice(server_id.as_bytes());
    body.extend_from_slice(&operator.sign(&signed).to_bytes());
    body.extend_from_slice(server_id.as_bytes());
    body
}

fn open_cert(bytes: &[u8]) -> Result<IdentityCert, String> {
    if bytes.len() < 144 {
        return Err("truncated".into());
    }
    let (body, rest) = bytes.split_at(80);
    let (signature, name) = rest.split_at(64);
    let operator_pubkey: [u8; 32] = body[..32].try_into().unwrap();
    let mut signed = body.to_vec();
    signed.extend_from_slice(name);
    VerifyingKey::from_bytes(&operator_pubkey)
        .and_then(|key| key.verify(&signed, &Signature::from_slice(signature)?))
        .map_err(|_| "signature does not verify".to_string())?;
    Ok(IdentityCert {
        operator_pubkey,
        server_id: String::from_utf8(name.to_vec()).map_err(|e| e.to_string())?,
        identity_pubkey: body[32..64].try_into().unwrap(),
        valid_from: i64::from_le_bytes(body[64..72].try_into().unwrap()),
        valid_until: i64::from_le_bytes(body[72..80].try_into().unwrap()),
    })
}

fn signing_preimage(
    server_id: &str,
    nonce: &[u8; 16],
    unix_time: u64,
    items: &Vec<(u8, Vec<u8>)>,
) -> Vec<u8> {
    let mut out = b"redeem".to_vec();
    out.extend_from_slice(&(server_id.len() as u64).to_le_bytes());
    out.extend_from_slice(server_id.as_bytes());
    out.extend_from_slice(nonce);
    out.extend_from_slice(&unix_time.to_le_bytes());
    for (kind, payload) in items {
        out.push(*kind);
        out.extend_from_slice(&(payload.len() as u64).to_le_bytes());
        out.extend_from_slice(payload);
    }
    out
}

fn cert(server_id: &str) -> Vec<u8> {
    sign_identity_cert(
        &operator(),
        server_id,
        server_key().verifying_key().to_bytes(),
        0,
        0,
    )
}

fn request(
    server_id: &str,
    cert: &[u8],
    unix_time: u64,
    items: &[(u8, Vec<u8>)],
) -> RedeemRequestV1 {
    let nonce = [0x11u8; REDEEM_NONCE_LEN];
    let preimage = signing_preimage(server_id, &nonce, unix_time, &items.to_vec());
    RedeemRequestV1 {
        server_id: server_id.to_owned(),
        identity_cert_hex: hex::encode(cert),
        nonce_hex: hex::encode(nonce),
        unix_time,
        items: items
            .iter()
            .map(|(kind, payload)| RedeemItemV1 {
                kind: *kind,
                payload_hex: hex::encode(payload),
            })
            .collect(),
        signature_hex: hex::encode(server_key().sign(&preimage).to_bytes()),
    }
}

fn verify(
    request: &RedeemRequestV1,
    operators: &[[u8; 32]],
    now: u64,
    skew: u64,
) -> Result<VerifiedRedeem, ApiError> {
    verify_request(request, operators, now, skew, open_cert, signing_preimage)
}

fn operators() -> [[u8; 32]; 1] {
    [operator().verifying_key().to_bytes()]
}

#[test]
fn a_well_formed_request_from_a_certified_server_verifies() {
    let cert = cert("pir1");
    let request = request("pir1", &cert, NOW, &[(1, b"cashuB".to_vec())]);
    let verified = verify(&request, &operators(), NOW + 10, 300).unwrap();
    assert_eq!(verified.server_id, "pir1");
    assert_eq!(verified.nonce, [0x11u8; REDEEM_NONCE_LEN]);
    assert_eq!(verified.items, vec![(1, b"cashuB".to_vec())]);
    assert_eq!(verified.nonce_hex, "11".repeat(16));
}

#[test]
fn every_link_of_the_chain_is_checked() {
    let cert = cert("pir1");
    let good = request("pir1", &cert, NOW, &[(1, vec![1])]);
    let ops = operators();
    let status = |r: Result<VerifiedRedeem, ApiError>| r.unwrap_err().status;
    // No operator keys configured.
    assert_eq!(status(verify(&good, &[], NOW, 300)), 401);
    // Unknown operator.
    let other = [SigningKey::from_bytes(&[9u8; 32]).verifying_key().to_bytes()];
    assert_eq!(status(verify(&good, &other, NOW, 300)), 401);
    // server_id must match the certificate.
    let mut renamed = good.clone();
    renamed.server_id = "pir2".into();
    assert_eq!(status(verify(&renamed, &ops, NOW, 300)), 401);
    // Clock skew.
    assert_eq!(status(verify(&good, &ops, NOW + 301, 300)), 400);
    assert_eq!(status(verify(&good, &ops, NOW - 301, 300)), 400);
    // Tampered item changes the preimage.
    let mut tampered = good.clone();
    tampered.items[0].payload_hex = "02".into();
    assert_eq!(status(verify(&tampered, &ops, NOW, 300)), 401);
    // Signed by a key the certificate does not vouch for.
    let mut foreign = good.clone();
    let preimage = signing_preimage("pir1", &[0x11u8; 16], NOW, &vec![(1, vec![1])]);
    foreign.signature_hex = hex::encode(
        SigningKey::from_bytes(&[3u8; 32])
            .sign(&preimage)
            .to_bytes(),
    );
    assert_eq!(status(verify(&foreign, &ops, NOW, 300)), 401);
    // Malformed encodings.
    let mut bad_nonce = good.clone();
    bad_nonce.nonce_hex = "abcd".into();
    assert_eq!(status(verify(&bad_nonce, &ops, NOW, 300)), 400);
    let mut bad_cert = good.clone();
    bad_cert.identity_cert_hex = "zz".into();
    assert_eq!(status(verify(&bad_cert, &ops, NOW, 300)), 400);
    let mut no_items = good.clone();
    no_items.items.clear();
    assert_eq!(status(verify(&no_items, &ops, NOW, 300)), 400);
    // An expired certificate.
    let expired = sign_identity_cert(
        &operator(),
        "pir1",
        server_key().verifying_key().to_bytes(),
        0,
        NOW as i64 - 1,
    );
    let request = request("pir1", &expired, NOW, &[(1, vec![1])]);
    assert_eq!(status(verify(&request, &ops, NOW, 300)), 401);
}

#[test]
fn each_refusal_says_what_is_wrong() {
    let cert = cert("pir1");
    let good = request("pir1", &cert, NOW, &[(1, vec![1])]);
    let ops = operators();
    let message = |r: RedeemRequestV1, now: u64| {
        let e = verify(&r, &ops, now, 300).unwrap_err();
        (e.body.error, e.body.message)
    };
    assert_eq!(
        verify(&good, &[], NOW, 300).unwrap_err().body.message,
        "this cashier accepts no server: operator_pubkeys is empty"
    );
    let mut r = good.clone();
    r.identity_cert_hex = "abc".into();
    assert_eq!(
        message(r, NOW),
        ("invalid_request", "identity_cert_hex is not hex".into())
    );
    let mut r = good.clone();
    r.identity_cert_hex = "ab".into();
    assert_eq!(
        message(r, NOW),
        ("unauthorized", "identity certificate: truncated".into())
    );
    let mut r = good.clone();
    r.server_id = "pir\n2".into();
    assert_eq!(
        message(r, NOW),
        (
            "unauthorized",
            "server_id \"pir\\n2\" does not match the certificate's \"pir1\"".into()
        )
    );
    assert_eq!(
        message(good.clone(), NOW + 301),
        (
            "invalid_request",
            "request time is 301s away from the cashier clock (limit 300s)".into()
        )
    );
    let mut r = good.clone();
    r.nonce_hex = "xy".into();
    assert_eq!(
        message(r, NOW),
        ("invalid_request", "nonce_hex is not hex".into())
    );
    let mut r = good.clone();
    r.nonce_hex = "11".repeat(17);
    assert_eq!(
        message(r, NOW),
        ("invalid_request", "nonce must be 16 bytes".into())
    );
    let mut r = good.clone();
    r.items.clear();
    assert_eq!(
        message(r, NOW),
        ("invalid_request", "no items to redeem".into())
    );
    let mut r = good.clone();
    r.items.push(RedeemItemV1 {
        kind: 1,
        payload_hex: "0".into(),
    });
    assert_eq!(
        message(r, NOW),
        ("invalid_request", "item payload_hex is not hex".into())
    );
    let mut r = good.clone();
    r.items.insert(
        0,
        RedeemItemV1 {
            kind: 1,
            payload_hex: "".into(),
        },
    );
    assert_eq!(
        message(r, NOW),
        ("invalid_request", "empty item payload".into())
    );
    for malformed in ["zz".to_string(), "00".repeat(63)] {
        let mut r = good.clone();
        r.signature_hex = malformed;
        assert_eq!(
            message(r, NOW),
            ("unauthorized", "request signature is malformed".into())
        );
    }
    let mut r = good.clone();
    r.unix_time += 1;
    assert_eq!(
        message(r, NOW),
        ("unauthorized", "request signature does not verify".into())
    );
}

#[test]
fn a_certificate_without_a_key_signs_nothing() {
    let mut off_curve = [0u8; 32];
    off_curve[0] = 2;
    let cert = sign_identity_cert(&operator(), "pir1", off_curve, 0, 0);
    let request = request("pir1", &cert, NOW, &[(1, vec![1])]);
    let e = verify(&request, &operators(), NOW, 300).unwrap_err();
    assert_eq!(e.status, 401);
    assert_eq!(e.body.message, "identity certificate carries no valid key");
}

#[test]
fn certificates_hold_from_their_first_second_to_before_their_last() {
    let at = |from: i64, until: i64, now: u64| {
        let cert = sign_identity_cert(
            &operator(),
            "pir1",
            server_key().verifying_key().to_bytes(),
            from,
            until,
        );
        let request = request("pir1", &cert, now, &[(1, vec![1])]);
        verify(&request, &operators(), now, 300).is_ok()
    };
    assert!(at(100, 200, 100));
    assert!(!at(101, 200, 100));
    assert!(at(100, 200, 199));
    assert!(!at(100, 200, 200));
    assert!(at(-5, 0, 0));
    assert!(at(0, 0, u64::MAX));
    assert!(!at(0, i64::MAX, u64::MAX));
}

#[test]
fn the_parts_of_the_check_stand_alone() {
    let bytes = cert("pir1");
    let good = request("pir1", &bytes, NOW, &[(1, vec![1]), (2, vec![7, 8])]);
    let cert = open_cert(&bytes).unwrap();
    let given = Ok(cert.clone());
    assert_eq!(
        check_server(&good, &operators(), NOW, 300, &given),
        Ok(&cert)
    );
    let refused = check_server(&good, &operators(), NOW, 300, &Err("old".into())).unwrap_err();
    assert_eq!(refused.body.message, "identity certificate: old");
    let (nonce, items) = read_contents(&good).unwrap();
    assert_eq!(nonce, [0x11u8; 16]);
    assert_eq!(items, vec![(1, vec![1]), (2, vec![7, 8])]);
    let preimage = signing_preimage("pir1", &nonce, NOW, &items);
    assert!(check_signature(&good, &cert, &preimage).is_none());
    assert_eq!(
        check_signature(&good, &cert, b"other").unwrap().status,
        401
    );
}

fn event(server: &str, nonce: &str, gas: u64, sat: u64) -> RedeemEvent {
    RedeemEvent {
        server_id: server.into(),
        nonce_hex: nonce.into(),
        unix_time: NOW,
        gas_added: gas,
        sat_value: sat,
        items_accepted: 1,
        issuer_signature_hex: "00".repeat(64),
        epoch: None,
        tags_hex: Vec::new(),
    }
}

fn lines(events: &[RedeemEvent]) -> Vec<LogLine<RedeemEvent>> {
    events
        .iter()
        .map(|e| LogLine::Text(format!("{:?}", e), Ok(e.clone())))
        .collect()
}

#[test]
fn redeem_store_replays_answers_and_sums_per_server() {
    let mut written = Vec::new();
    {
        let mut store = RedeemStore::open("redeem.jsonl".into(), Vec::new()).unwrap();
        let mut record = |e: RedeemEvent| {
            written.push(e.clone());
            store.record(e);
        };
        record(event("pir1", "aa", 72_000, 10));
        record(event("pir1", "bb", 144_000, 20));
        record(event("pir2", "aa", 7_200, 1));
        let mut arc = event("pir2", "cc", 144_000, 20);
        arc.epoch = Some(231);
        arc.tags_hex = vec!["t1".into(), "t2".into()];
        record(arc);
    }
    let store = RedeemStore::open("redeem.jsonl".into(), lines(&written)).unwrap();
    assert!(store.has_tag(231, "t1") && store.has_tag(231, "t2"));
    assert!(!store.has_tag(232, "t1") && !store.has_tag(231, "t3"));
    assert_eq!(store.answer("pir1", "aa").unwrap().gas_added, 72_000);
    assert_eq!(store.answer("pir2", "aa").unwrap().gas_added, 7_200);
    assert!(store.answer("pir2", "bb").is_none());
    assert_eq!(
        store.server_totals("pir1"),
        Some(ServerTotals {
            redemptions: 2,
            gas: 216_000,
            sat: 30
        })
    );
    assert_eq!(store.server_totals("pir2").unwrap().sat, 21);
    let bad = vec![LogLine::Text(
        "not json".into(),
        Err(serde_json::from_str::<serde_json::Value>("not json")
            .unwrap_err()
            .to_string()),
    )];
    assert!(matches!(
        RedeemStore::open("redeem.jsonl".into(), bad),
        Err(RedeemStoreError::Replay(_, 1, _))
    ));
}

#[test]
fn totals_come_in_the_order_of_names_and_saturate() {
    let mut store = RedeemStore::open("log".into(), Vec::new()).unwrap();
    assert!(store.totals().is_empty());
    assert!(store.server_totals("b").is_none());
    store.record(event("b", "01", u64::MAX, u64::MAX - 1));
    store.record(event("a", "01", 1, 2));
    store.record(event("c", "01", 3, 4));
    store.record(event("b", "02", 1, 5));
    let totals = store.totals();
    let names: Vec<&str> = totals.iter().map(|(name, _)| name.as_str()).collect();
    assert_eq!(names, ["a", "b", "c"]);
    assert_eq!(
        totals[1].1,
        ServerTotals {
            redemptions: 2,
            gas: u64::MAX,
            sat: u64::MAX
        }
    );
    assert_eq!(ServerTotals::default().redemptions, 0);
    assert_eq!(store.path(), "log");
}

#[test]
fn a_server_and_a_nonce_are_told_apart() {
    let mut store = RedeemStore::open("log".into(), Vec::new()).unwrap();
    store.record(event("ab", "c", 1, 1));
    store.record(event("a", "bc", 2, 2));
    assert_eq!(store.answer("ab", "c").unwrap().gas_added, 1);
    assert_eq!(store.answer("a", "bc").unwrap().gas_added, 2);
    assert!(store.answer("abc", "").is_none());
    assert!(store.answer("", "abc").is_none());
    store.record(event("ab", "c", 9, 9));
    assert_eq!(store.answer("ab", "c").unwrap(), event("ab", "c", 9, 9).response());
}

#[test]
fn tags_without_an_epoch_are_not_spent() {
    let mut store = RedeemStore::open("log".into(), Vec::new()).unwrap();
    let mut stray = event("a", "01", 1, 1);
    stray.tags_hex = vec!["t".into()];
    store.record(stray);
    assert!(!store.has_tag(0, "t"));
}

#[test]
fn redeem_store_errors_read_as_sentences() {
    assert_eq!(
        RedeemStoreError::Open("p".into(), "denied".into()).message(),
        "open p: denied"
    );
    assert_eq!(
        RedeemStoreError::Replay("p".into(), 3, "bad".into()).message(),
        "replay p line 3: bad"
    );
    assert_eq!(
        RedeemStoreError::Append("full".into()).message(),
        "append: full"
    );
}
