//! Contract tests with a scripted mint. Nothing here touches the network: the
//! harness does what the cashier's decisions ask for, with logs in memory.

use std::str::FromStr;

use bpir_cashier::api::{describe, info, info_v2, malformed_body, ApiError, AppState, GrantRequest};
use bpir_cashier::arc::{ArcError, ArcIssuer, ArcKeys};
use bpir_cashier::cashu::{token_key, SwapError, TokenSummary};
use bpir_cashier::config::{
    default_rate_card, ArcConfig, Config, Costs, CredentialOffer, GasConfig, Offer, SessionTerms,
};
use bpir_cashier::credit::{
    epoch_at, CredentialRequestV2, CredentialResponseV2, IdentityCert, RedeemItemV1,
    RedeemRequestV1, RedeemResponseV1,
};
use bpir_cashier::grant::{GrantTerms, IssuedGrant, Issuer};
use bpir_cashier::issuer_key::IssuerKey;
use bpir_cashier::payment::Refusal;
use bpir_cashier::purchase::{Purchase, PurchaseAction, PurchaseReply};
use bpir_cashier::redeem::{verify_request, RedeemEvent, RedeemStore, REDEEM_NONCE_LEN};
use bpir_cashier::settlement::{Settlement, SettlementAction, SettlementReply};
use bpir_cashier::store::{Event, State as TokenState, Store};
use cdk::mint_url::MintUrl;
use cdk::nuts::{CurrencyUnit, Id, Proof, PublicKey, Token};
use cdk::secret::Secret;
use cdk::Amount;
use ed25519_dalek::{Signature, Signer, SigningKey, Verifier, VerifyingKey};
use sha2::{Digest, Sha256};

const MINT: &str = "https://mint.example";
const CLOCK: u64 = 1_800_000_000;
const ARC_EPOCH: u64 = 90 * 86_400;
const ARC_GRACE: u64 = 30 * 86_400;

// A stand-in for the credential scheme: hashes in place of the group.

fn scalar(block: [u8; 32]) -> Option<[u8; 32]> {
    if block[0] == 0xff {
        None
    } else {
        Some(block)
    }
}

fn hash(parts: &[&[u8]]) -> [u8; 32] {
    let mut hasher = Sha256::new();
    for part in parts {
        hasher.update((part.len() as u64).to_le_bytes());
        hasher.update(part);
    }
    hasher.finalize().into()
}

fn public(keys: ArcKeys) -> Vec<u8> {
    let mut out = Vec::new();
    for key in [keys.x0, keys.x1, keys.x2] {
        out.push(2);
        out.extend_from_slice(&hash(&[b"public", &key]));
    }
    out
}

fn presentation_context(epoch: u32) -> Vec<u8> {
    let mut out = b"presentation".to_vec();
    out.extend_from_slice(&epoch.to_le_bytes());
    out
}

fn parse_request(bytes: &[u8]) -> Result<[u8; 32], String> {
    bytes.try_into().map_err(|_| "length".to_string())
}

fn respond(keys: ArcKeys, request: [u8; 32]) -> Result<Vec<u8>, String> {
    Ok(hash(&[b"credential", &keys.x0, &request]).to_vec())
}

fn parse_presentation(bytes: &[u8], limit: u64) -> Result<Vec<u8>, String> {
    if bytes.len() != 68 {
        return Err("length".into());
    }
    let number = u32::from_le_bytes(bytes[..4].try_into().unwrap());
    if u64::from(number) >= limit {
        return Err("number".into());
    }
    Ok(bytes.to_vec())
}

fn seal(credential: &[u8], epoch: u32, number: &[u8]) -> [u8; 32] {
    hash(&[b"seal", credential, &presentation_context(epoch), number])
}

fn verify_presentation(
    keys: ArcKeys,
    epoch: u32,
    shown: Vec<u8>,
    _limit: u64,
) -> Result<Vec<u8>, String> {
    let credential = hash(&[b"credential", &keys.x0, &shown[4..36]]);
    if seal(&credential, epoch, &shown[..4]) != shown[36..] {
        return Err("proof".into());
    }
    Ok(hash(&[b"tag", &credential, &shown[..4]]).to_vec())
}

fn present(request: [u8; 32], credential: &[u8], epoch: u32, number: u32) -> Vec<u8> {
    let mut out = number.to_le_bytes().to_vec();
    out.extend_from_slice(&request);
    out.extend_from_slice(&seal(credential, epoch, &number.to_le_bytes()));
    out
}

fn encode_presentations(epoch: u32, presentations: &[Vec<u8>]) -> Vec<u8> {
    let mut out = epoch.to_le_bytes().to_vec();
    for shown in presentations {
        out.extend_from_slice(&(shown.len() as u32).to_le_bytes());
        out.extend_from_slice(shown);
    }
    out
}

fn decode_presentations(payload: &[u8]) -> Result<(u32, Vec<Vec<u8>>), String> {
    if payload.len() < 4 {
        return Err("truncated".into());
    }
    let (epoch, mut rest) = payload.split_at(4);
    let mut out = Vec::new();
    while !rest.is_empty() {
        if rest.len() < 4 {
            return Err("truncated".into());
        }
        let (length, tail) = rest.split_at(4);
        let length = u32::from_le_bytes(length.try_into().unwrap()) as usize;
        if tail.len() < length {
            return Err("truncated".into());
        }
        let (shown, tail) = tail.split_at(length);
        out.push(shown.to_vec());
        rest = tail;
    }
    Ok((u32::from_le_bytes(epoch.try_into().unwrap()), out))
}

// A stand-in for identity certificates and the bytes that are signed.

fn server_cert(operator: &SigningKey, server_id: &str) -> Vec<u8> {
    let mut body = operator.verifying_key().to_bytes().to_vec();
    body.extend_from_slice(&server_key().verifying_key().to_bytes());
    let mut signed = body.clone();
    signed.extend_from_slice(server_id.as_bytes());
    body.extend_from_slice(&operator.sign(&signed).to_bytes());
    body.extend_from_slice(server_id.as_bytes());
    body
}

fn open_cert(bytes: &[u8]) -> Result<IdentityCert, String> {
    if bytes.len() < 128 {
        return Err("truncated".into());
    }
    let (body, rest) = bytes.split_at(64);
    let (signature, name) = rest.split_at(64);
    let operator_pubkey: [u8; 32] = body[..32].try_into().unwrap();
    let mut signed = body.to_vec();
    signed.extend_from_slice(name);
    VerifyingKey::from_bytes(&operator_pubkey)
        .and_then(|key| key.verify(&signed, &Signature::from_slice(signature)?))
        .map_err(|_| "signature does not verify".to_string())?;
    Ok(IdentityCert {
        operator_pubkey,
        server_id: String::from_utf8(name.to_vec()).unwrap(),
        identity_pubkey: body[32..].try_into().unwrap(),
        valid_from: 0,
        valid_until: 0,
    })
}

fn request_preimage(
    server_id: &str,
    nonce: &[u8; 16],
    unix_time: u64,
    items: &Vec<(u8, Vec<u8>)>,
) -> Vec<u8> {
    let mut out = hash(&[b"request", server_id.as_bytes(), nonce]).to_vec();
    out.extend_from_slice(&unix_time.to_le_bytes());
    for (kind, payload) in items {
        out.extend_from_slice(&hash(&[&[*kind], payload]));
    }
    out
}

fn answer_preimage(nonce: &[u8; 16], gas: u64, sat: u64, items: u32) -> Vec<u8> {
    hash(&[
        b"answer",
        nonce,
        &gas.to_le_bytes(),
        &sat.to_le_bytes(),
        &items.to_le_bytes(),
    ])
    .to_vec()
}

fn operator_key() -> SigningKey {
    SigningKey::from_bytes(&[21u8; 32])
}

fn server_key() -> SigningKey {
    SigningKey::from_bytes(&[22u8; 32])
}

fn fake_token(amounts: &[u64]) -> String {
    test_token(MINT, "sat", amounts)
}

fn test_token(mint: &str, unit: &str, amounts: &[u64]) -> String {
    let keyset = Id::from_str("00ffd48b8f5ecf80").unwrap();
    let c =
        PublicKey::from_hex("02a9acc1e48c25eeeb9289b5031cc57da9fe72f3fe2861d264bdc074209b107ba2")
            .unwrap();
    let proofs: Vec<Proof> = amounts
        .iter()
        .map(|a| Proof::new(Amount::from(*a), keyset, Secret::generate(), c))
        .collect();
    Token::new(
        MintUrl::from_str(mint).unwrap(),
        proofs,
        None,
        CurrencyUnit::from_str(unit).unwrap(),
    )
    .to_string()
}

fn key_hex(token: &str) -> String {
    let summary = TokenSummary::parse(token).unwrap();
    hex::encode(token_key(&summary.secrets))
}

fn config() -> Config {
    Config {
        listen: "127.0.0.1:0".into(),
        grant_key_path: "grant.key".into(),
        wallet_seed_path: "wallet.seed".into(),
        wallet_db_path: "wallet.sqlite".into(),
        store_path: "grants.jsonl".into(),
        mints: vec![MINT.into()],
        cors_origins: vec!["https://www.bitcoinpir.org".into()],
        gas: GasConfig::default(),
        operator_pubkeys: Vec::new(),
        redeem_max_skew_secs: 300,
        redeem_store_path: None,
        rate_card: default_rate_card(),
        arc: Some(ArcConfig {
            seed_path: "arc.seed".into(),
            epoch_secs: ARC_EPOCH,
            grace_secs: ARC_GRACE,
            presentation_limit: 4,
            credential_offers: vec![CredentialOffer {
                credits: 4,
                sat: 40,
            }],
        }),
    }
}

/// The cashier with a scripted mint: it answers each call from a queue and
/// records every token it saw.
struct Harness {
    state: AppState,
    store: Store,
    redeem_store: RedeemStore,
    script: Vec<Result<u64, SwapError>>,
    seen: Vec<String>,
    token_log: Vec<Event>,
    redeem_log: Vec<RedeemEvent>,
    /// Fail the append with this number, counted from one over both logs.
    broken_append: Option<usize>,
    reconcile: Vec<String>,
    now: u64,
}

fn harness(script: Vec<Result<u64, SwapError>>) -> Harness {
    Harness {
        state: AppState {
            config: config(),
            issuer: IssuerKey::new(&[5u8; 32]),
            arc: Some(ArcIssuer::new([9u8; 32], ARC_EPOCH, ARC_GRACE, 4)),
            operator_keys: vec![operator_key().verifying_key().to_bytes()],
        },
        store: Store::open("grants.jsonl".into(), Vec::new()).unwrap(),
        redeem_store: RedeemStore::open("redeem.jsonl".into(), Vec::new()).unwrap(),
        script,
        seen: Vec::new(),
        token_log: Vec::new(),
        redeem_log: Vec::new(),
        broken_append: None,
        reconcile: Vec::new(),
        now: CLOCK,
    }
}

impl Harness {
    fn receive(&mut self, encoded: String) -> Result<u64, SwapError> {
        self.seen.push(encoded);
        if self.script.is_empty() {
            panic!("fake mint called more often than scripted");
        }
        self.script.remove(0)
    }

    fn append(&mut self) -> Result<(), String> {
        if self.token_log.len() + self.redeem_log.len() + 1 == self.broken_append.unwrap_or(0) {
            return Err("disk full".into());
        }
        Ok(())
    }

    fn record(&mut self, event: Event) -> Result<(), String> {
        self.append()?;
        self.token_log.push(event);
        Ok(())
    }

    fn refuse(&mut self, refusal: Refusal) -> ApiError {
        self.reconcile.extend(refusal.reconcile);
        refusal.error
    }

    fn post_redeem(&mut self, request: &RedeemRequestV1) -> Result<RedeemResponseV1, ApiError> {
        let verified = verify_request(
            request,
            &self.state.operator_keys,
            self.now,
            self.state.config.redeem_max_skew_secs,
            open_cert,
            request_preimage,
        )?;
        let (mut settlement, mut action) = Settlement::begin(
            &self.state,
            &self.store,
            &self.redeem_store,
            verified,
            self.now,
        );
        loop {
            let reply = match action {
                SettlementAction::Record(event) => SettlementReply::Recorded(self.record(event)),
                SettlementAction::Swap(_, encoded) => {
                    SettlementReply::Swapped(self.receive(encoded))
                }
                SettlementAction::Decode(payload) => {
                    SettlementReply::Decoded(decode_presentations(&payload))
                }
                SettlementAction::Verify(epoch, presentations) => SettlementReply::Verified(
                    self.state
                        .arc
                        .as_ref()
                        .unwrap()
                        .verify_all(
                            epoch,
                            &presentations,
                            scalar,
                            parse_presentation,
                            verify_presentation,
                        )
                        .unwrap(),
                ),
                SettlementAction::Preimage {
                    nonce,
                    gas_added,
                    sat_value,
                    items_accepted,
                } => SettlementReply::Preimage(answer_preimage(
                    &nonce,
                    gas_added,
                    sat_value,
                    items_accepted,
                )),
                SettlementAction::Log(event) => {
                    let appended = self.append();
                    if appended.is_ok() {
                        self.redeem_log.push(event);
                    }
                    SettlementReply::Logged(appended)
                }
                SettlementAction::Answer(answer) => return Ok(answer),
                SettlementAction::Refuse(refusal) => return Err(self.refuse(refusal)),
            };
            action = settlement.step(&self.state, &mut self.store, &mut self.redeem_store, reply);
        }
    }

    fn drive(
        &mut self,
        mut purchase: Purchase,
        mut action: PurchaseAction,
    ) -> Result<(Option<IssuedGrant>, Option<CredentialResponseV2>), ApiError> {
        loop {
            let reply = match action {
                PurchaseAction::Record(event) => PurchaseReply::Recorded(self.record(event)),
                PurchaseAction::Swap(_, encoded) => PurchaseReply::Swapped(self.receive(encoded)),
                PurchaseAction::Sign(terms) => PurchaseReply::Signed(sign_grant(terms)),
                PurchaseAction::Issue(epoch, request) => {
                    let arc = self.state.arc.as_ref().unwrap();
                    PurchaseReply::Issued(
                        arc.issue_with_key(
                            epoch,
                            &request,
                            scalar,
                            public,
                            parse_request,
                            respond,
                        )
                        .unwrap(),
                    )
                }
                PurchaseAction::AnswerGrant(grant) => return Ok((Some(grant), None)),
                PurchaseAction::AnswerCredential(response) => return Ok((None, Some(response))),
                PurchaseAction::Refuse(refusal) => return Err(self.refuse(refusal)),
            };
            action = purchase.step(&mut self.store, reply);
        }
    }

    fn post_credentials(
        &mut self,
        credits: u64,
        sat: u64,
        token: &str,
        request: &[u8],
    ) -> Result<CredentialResponseV2, ApiError> {
        let (purchase, action) = Purchase::begin_credential(
            &self.state,
            &self.store,
            &CredentialRequestV2 {
                credits,
                sat,
                token: token.into(),
                request_hex: hex::encode(request),
            },
            self.now,
        );
        self.drive(purchase, action).map(|done| done.1.unwrap())
    }

    fn post_grants(&mut self, offer: Offer, token: &str) -> Result<IssuedGrant, ApiError> {
        let (purchase, action) = Purchase::begin_grant(
            &self.state.config,
            &session_terms(),
            &self.store,
            3600,
            &GrantRequest {
                offer,
                token: token.into(),
            },
            self.now,
        );
        self.drive(purchase, action).map(|done| done.0.unwrap())
    }
}

fn sign_grant(terms: GrantTerms) -> Result<[u8; 133], String> {
    if terms.credits == 13 {
        return Err("no such grant".into());
    }
    let mut out = [0u8; 133];
    out[..16].copy_from_slice(&terms.grant_id);
    out[16..20].copy_from_slice(&terms.credits.to_le_bytes());
    Ok(out)
}

fn pack(credits: u32, amount: u64) -> Offer {
    Offer {
        credits,
        amount,
        unit: "sat".into(),
    }
}

fn session_terms() -> SessionTerms {
    SessionTerms {
        offers: vec![pack(1000, 210), pack(2000, 210), pack(13, 5)],
        costs: Costs {
            frame: 1,
            hint_set: 40,
        },
    }
}

fn redeem_request(
    cert: &[u8],
    server_id: &str,
    nonce: [u8; REDEEM_NONCE_LEN],
    unix_time: u64,
    items: &[(u8, Vec<u8>)],
) -> RedeemRequestV1 {
    let preimage = request_preimage(server_id, &nonce, unix_time, &items.to_vec());
    RedeemRequestV1 {
        server_id: server_id.to_owned(),
        identity_cert_hex: hex::encode(cert),
        nonce_hex: hex::encode(nonce),
        unix_time,
        items: items
            .iter()
            .map(|(kind, payload)| RedeemItemV1 {
                kind: *kind,
                payload_hex: hex::encode(payload),
            })
            .collect(),
        signature_hex: hex::encode(server_key().sign(&preimage).to_bytes()),
    }
}

fn request_from_pir1(nonce: u8, items: &[(u8, Vec<u8>)]) -> RedeemRequestV1 {
    let cert = server_cert(&operator_key(), "pir1");
    redeem_request(&cert, "pir1", [nonce; 16], CLOCK, items)
}

fn code(e: ApiError) -> (u16, &'static str) {
    (e.status, e.body.error)
}

#[test]
fn info_v2_publishes_gas_parameters_sat_offers_and_the_rate_card() {
    let h = harness(vec![]);
    let v = info_v2(&h.state, CLOCK, scalar, public, presentation_context);
    assert_eq!(v.service, "bitcoinpir-cashier");
    assert_eq!(v.version, 2);
    assert_eq!(v.credit_sat, 10);
    assert_eq!(v.gas_per_credit, 72_000);
    assert_eq!(v.base_gas_per_frame, 20);
    assert_eq!(v.egress_gas_per_mb, 1_000);
    assert_eq!(v.mints, vec![MINT.to_string()]);
    let offers: Vec<(u64, u64)> = v.offers.iter().map(|o| (o.credits, o.sat)).collect();
    assert_eq!(offers, vec![(4, 40)]);
    let epoch = epoch_at(CLOCK, ARC_EPOCH);
    let arc = v.arc.unwrap();
    assert_eq!(arc.epoch, epoch);
    assert_eq!(arc.presentation_limit, 4);
    assert_eq!(
        arc.issuer_public_key_hex,
        h.state
            .arc
            .as_ref()
            .unwrap()
            .public_key_hex(epoch, scalar, public)
            .unwrap()
    );
    assert_eq!(
        arc.presentation_context_hex,
        hex::encode(presentation_context(epoch))
    );
    assert_eq!(v.rate_card[0].flow, "onion_single_address");
    assert_eq!(v.rate_card[0].credits, 10);
    assert_eq!(v.rate_card.len(), 4);
}

#[test]
fn redeem_settles_a_cashu_token_and_replays_the_signed_answer() {
    let mut h = harness(vec![Ok(200)]);
    let cert = server_cert(&operator_key(), "pir1");
    let token = fake_token(&[128, 64, 8]);
    let nonce = [0x33u8; REDEEM_NONCE_LEN];
    let body = redeem_request(
        &cert,
        "pir1",
        nonce,
        CLOCK,
        &[(1, token.as_bytes().to_vec())],
    );
    let answer = h.post_redeem(&body).unwrap();
    // 200 sat received at 72,000 gas per 10 sat.
    assert_eq!(answer.gas_added, 1_440_000);
    assert_eq!(answer.sat_value, 200);
    assert_eq!(answer.items_accepted, 1);
    let preimage = answer_preimage(&nonce, 1_440_000, 200, 1);
    let signature =
        Signature::from_slice(&hex::decode(&answer.issuer_signature_hex).unwrap()).unwrap();
    VerifyingKey::from_bytes(&h.state.issuer.public_key())
        .unwrap()
        .verify(&preimage, &signature)
        .unwrap();

    // Same nonce again: the stored answer, byte for byte, and no mint call
    // (the fake mint's script is empty now and would panic).
    let answer2 = h.post_redeem(&body).unwrap();
    assert_eq!(answer2, answer);

    // The token is booked to pir1 and the ledger knows it.
    assert!(matches!(
        h.store.get(&key_hex(&token)),
        Some(TokenState::Redeemed { server_id, received: 200, .. }) if server_id == "pir1"
    ));
    let totals = h.redeem_store.server_totals("pir1").unwrap();
    assert_eq!(
        (totals.redemptions, totals.gas, totals.sat),
        (1, 1_440_000, 200)
    );
    // Pending before redeemed, and one redemption, are what the logs hold.
    assert_eq!(h.token_log.len(), 2);
    assert!(matches!(
        h.token_log[0].state,
        TokenState::Pending { first_seen: CLOCK }
    ));
    assert_eq!(h.redeem_log.len(), 1);
    assert_eq!(h.redeem_log[0].unix_time, CLOCK);
    assert_eq!(h.seen, vec![token]);
}

#[test]
fn redeem_refuses_foreign_servers_reused_tokens_and_unsupported_kinds() {
    let mut h = harness(vec![Err(SwapError::Rejected("already spent".into()))]);
    let cert = server_cert(&operator_key(), "pir1");
    let token = fake_token(&[128, 64, 16, 2]);

    // A certificate from an operator this cashier does not serve.
    let foreign_cert = server_cert(&SigningKey::from_bytes(&[23u8; 32]), "pir1");
    let body = redeem_request(
        &foreign_cert,
        "pir1",
        [1u8; 16],
        CLOCK,
        &[(1, token.as_bytes().to_vec())],
    );
    assert_eq!(
        code(h.post_redeem(&body).unwrap_err()),
        (401, "unauthorized")
    );

    // A token that bought a (now retired) session grant cannot be redeemed
    // as credits: old store lines replay as spent tokens.
    h.store.record(
        &key_hex(&token),
        TokenState::Issued {
            grant: IssuedGrant {
                grant_base64: "AAAA".into(),
                grant_id_hex: "00".repeat(16),
                credits: 1000,
                issued_at: 1,
                expires_at: 2,
            },
            received: 210,
            mint: MINT.into(),
            unit: "sat".into(),
        },
    );
    let body = request_from_pir1(2, &[(1, token.as_bytes().to_vec())]);
    assert_eq!(
        code(h.post_redeem(&body).unwrap_err()),
        (402, "already_redeemed")
    );

    // The mint rejects a fresh token: 402, nothing booked.
    let rejected = fake_token(&[4]);
    let body = request_from_pir1(3, &[(1, rejected.as_bytes().to_vec())]);
    assert_eq!(
        code(h.post_redeem(&body).unwrap_err()),
        (402, "token_rejected")
    );
    assert!(h.redeem_store.totals().is_empty());

    // An ARC payload that is not even a payload.
    let body = request_from_pir1(4, &[(2, vec![9, 9, 9])]);
    assert_eq!(
        code(h.post_redeem(&body).unwrap_err()),
        (400, "invalid_request")
    );

    // A token from a mint the cashier does not accept.
    let other_mint = test_token("https://other.example", "sat", &[8]);
    let body = request_from_pir1(5, &[(1, other_mint.as_bytes().to_vec())]);
    assert_eq!(
        code(h.post_redeem(&body).unwrap_err()),
        (400, "mint_not_accepted")
    );

    // A stale request clock.
    let stale = redeem_request(
        &cert,
        "pir1",
        [6u8; 16],
        CLOCK - 3600,
        &[(1, token.as_bytes().to_vec())],
    );
    assert_eq!(
        code(h.post_redeem(&stale).unwrap_err()),
        (400, "invalid_request")
    );
}

#[test]
fn credentials_are_blind_issued_and_their_presentations_redeem_exactly_once() {
    let mut h = harness(vec![Ok(40)]);
    let epoch = epoch_at(CLOCK, ARC_EPOCH);

    // Buy: a blinded request plus a token worth the pack.
    let request = [0x77u8; 32];
    let token = fake_token(&[32, 8]);
    let issued = h.post_credentials(4, 40, &token, &request).unwrap();
    assert_eq!(issued.epoch, epoch);
    assert_eq!(issued.presentation_limit, 4);
    assert_eq!(
        issued.issuer_public_key_hex,
        h.state
            .arc
            .as_ref()
            .unwrap()
            .public_key_hex(epoch, scalar, public)
            .unwrap()
    );
    // The same token and request replay the same response without a swap
    // (the fake mint's script is empty and would panic).
    let issued2 = h.post_credentials(4, 40, &token, &request).unwrap();
    assert_eq!(issued2, issued);
    // The same token with another request is refused.
    let refused = h.post_credentials(4, 40, &token, &[0x78u8; 32]);
    assert_eq!(refused.unwrap_err().status, 400);
    // An unknown pack.
    let wrong = h.post_credentials(5, 40, &fake_token(&[32, 8]), &request);
    assert_eq!(wrong.unwrap_err().status, 400);

    // Finish the credential client-side and present three times.
    let credential = hex::decode(&issued.response_hex).unwrap();
    let presentations: Vec<Vec<u8>> = (0..3)
        .map(|number| present(request, &credential, epoch, number))
        .collect();
    let payload = encode_presentations(epoch, &presentations);
    let body = request_from_pir1(0x44, &[(2, payload.clone())]);
    let answer = h.post_redeem(&body).unwrap();
    assert_eq!(answer.gas_added, 3 * 72_000);
    assert_eq!(answer.sat_value, 30);
    assert_eq!(answer.items_accepted, 1);

    // Spending the same presentations again, under a new nonce, is a double spend.
    let body = request_from_pir1(0x45, &[(2, payload)]);
    assert_eq!(
        code(h.post_redeem(&body).unwrap_err()),
        (402, "double_spend")
    );

    // The fourth and last presentation spends on its own; a fifth cannot be made.
    let last = present(request, &credential, epoch, 3);
    let fifth = present(request, &credential, epoch, 4);
    let payload = encode_presentations(epoch, &[last]);
    let body = request_from_pir1(0x46, &[(2, payload)]);
    let answer = h.post_redeem(&body).unwrap();
    assert_eq!(answer.gas_added, 72_000);
    let payload = encode_presentations(epoch, &[fifth]);
    let body = request_from_pir1(0x48, &[(2, payload)]);
    assert_eq!(
        code(h.post_redeem(&body).unwrap_err()),
        (400, "invalid_request")
    );

    // A payload claiming an epoch the cashier does not accept.
    let stale = encode_presentations(epoch + 5, &[presentations[0].clone()]);
    let body = request_from_pir1(0x47, &[(2, stale)]);
    assert_eq!(
        code(h.post_redeem(&body).unwrap_err()),
        (402, "expired_epoch")
    );

    // The ledger booked four presentations to pir1.
    let totals = h.redeem_store.server_totals("pir1").unwrap();
    assert_eq!(
        (totals.redemptions, totals.gas, totals.sat),
        (2, 4 * 72_000, 40)
    );
}

#[test]
fn one_item_that_is_refused_refuses_the_request() {
    let mut h = harness(vec![Ok(8), Err(SwapError::Unavailable("down".into()))]);
    let (first, second) = (fake_token(&[8]), fake_token(&[4]));
    let items = [
        (1, first.as_bytes().to_vec()),
        (1, second.as_bytes().to_vec()),
    ];
    let e = h.post_redeem(&request_from_pir1(1, &items)).unwrap_err();
    assert_eq!(
        (e.status, e.body.error, e.body.message.as_str()),
        (503, "mint_unavailable", "down")
    );
    assert!(h.redeem_store.totals().is_empty());
    assert!(h.redeem_log.is_empty());
    // The first token is booked, the second can be tried again.
    assert!(matches!(
        h.store.get(&key_hex(&first)),
        Some(TokenState::Redeemed { received: 8, .. })
    ));
    assert_eq!(
        h.store.get(&key_hex(&second)),
        Some(&TokenState::Failed {
            at: CLOCK,
            reason: "down".into()
        })
    );
    h.script = vec![Ok(4)];
    let body = request_from_pir1(2, &[(1, second.as_bytes().to_vec())]);
    assert_eq!(h.post_redeem(&body).unwrap().sat_value, 4);
    let body = request_from_pir1(3, &[(1, first.as_bytes().to_vec())]);
    let e = h.post_redeem(&body).unwrap_err();
    assert_eq!(
        e.body.message,
        "this token was already redeemed through pir1"
    );
}

#[test]
fn several_items_add_up() {
    let mut h = harness(vec![Ok(40), Ok(7), Ok(15)]);
    let epoch = epoch_at(CLOCK, ARC_EPOCH);
    let request = [1u8; 32];
    let issued = h
        .post_credentials(4, 40, &fake_token(&[32, 8]), &request)
        .unwrap();
    let credential = hex::decode(&issued.response_hex).unwrap();
    let shown = |number: u32| {
        encode_presentations(epoch, &[present(request, &credential, epoch, number)])
    };
    let items = [
        (1, fake_token(&[7]).into_bytes()),
        (2, shown(0)),
        (1, format!(" {}\n", fake_token(&[15])).into_bytes()),
        (2, shown(2)),
    ];
    let answer = h.post_redeem(&request_from_pir1(1, &items)).unwrap();
    // 7 and 15 sat at 7,200 gas each, two presentations at 72,000.
    assert_eq!(answer.gas_added, 22 * 7_200 + 2 * 72_000);
    assert_eq!(answer.sat_value, 42);
    assert_eq!(answer.items_accepted, 4);
    assert_eq!(h.redeem_log[0].epoch, Some(epoch));
    assert_eq!(h.redeem_log[0].tags_hex.len(), 2);
    assert!(h.redeem_store.has_tag(epoch, &h.redeem_log[0].tags_hex[1]));
    // The same presentation twice in one request is a double spend.
    let items = [(2, shown(1)), (2, shown(1))];
    let e = h.post_redeem(&request_from_pir1(2, &items)).unwrap_err();
    assert_eq!(code(e), (402, "double_spend"));
    let twice = present(request, &credential, epoch, 1);
    let items = [(2, encode_presentations(epoch, &[twice.clone(), twice]))];
    let e = h.post_redeem(&request_from_pir1(3, &items)).unwrap_err();
    assert_eq!(code(e), (402, "double_spend"));
    // Neither refusal spent it.
    let answer = h.post_redeem(&request_from_pir1(4, &[(2, shown(1))]));
    assert_eq!(answer.unwrap().gas_added, 72_000);
}

#[test]
fn presentations_of_the_last_epoch_count_in_its_grace_but_not_mixed() {
    let mut h = harness(vec![]);
    let epoch = epoch_at(CLOCK, ARC_EPOCH);
    h.now = (u64::from(epoch) + 1) * ARC_EPOCH + 5;
    let arc = h.state.arc.as_ref().unwrap();
    let request = [3u8; 32];
    let credential = |epoch: u32| {
        arc.issue(epoch, &request, scalar, parse_request, respond)
            .unwrap()
            .unwrap()
    };
    let old = encode_presentations(
        epoch,
        &[present(request, &credential(epoch), epoch, 0)],
    );
    let new = encode_presentations(
        epoch + 1,
        &[present(request, &credential(epoch + 1), epoch + 1, 0)],
    );
    let cert = server_cert(&operator_key(), "pir1");
    let now = h.now;
    let body = |nonce: u8, items: &[(u8, Vec<u8>)]| {
        redeem_request(&cert, "pir1", [nonce; 16], now, items)
    };
    let e = h
        .post_redeem(&body(1, &[(2, old.clone()), (2, new.clone())]))
        .unwrap_err();
    assert_eq!(code(e), (400, "invalid_request"));
    assert_eq!(
        h.post_redeem(&body(2, &[(2, old.clone())])).unwrap().gas_added,
        72_000
    );
    assert_eq!(h.post_redeem(&body(3, &[(2, new)])).unwrap().gas_added, 72_000);
    let forged = encode_presentations(epoch, &[vec![0u8; 68]]);
    let e = h.post_redeem(&body(4, &[(2, forged)])).unwrap_err();
    assert_eq!(code(e), (402, "token_rejected"));
    h.now = (u64::from(epoch) + 1) * ARC_EPOCH + ARC_GRACE;
    let late = redeem_request(&cert, "pir1", [5; 16], h.now, &[(2, old)]);
    let e = h.post_redeem(&late).unwrap_err();
    assert_eq!(
        e.body.message,
        format!("ARC epoch {} is not accepted now", epoch)
    );
}

#[test]
fn every_other_refusal_of_a_redeem_item() {
    let mut h = harness(vec![Ok(0)]);
    let mut refuse = |items: &[(u8, Vec<u8>)], nonce: u8| {
        let e = h.post_redeem(&request_from_pir1(nonce, items)).unwrap_err();
        (e.status, e.body.error, e.body.message)
    };
    assert_eq!(
        refuse(&[(1, vec![0xff, 0xfe])], 1),
        (400, "invalid_request", "Cashu token is not UTF-8".into())
    );
    let garbage = refuse(&[(1, b"cashuBnope".to_vec())], 2);
    assert_eq!((garbage.0, garbage.1), (400, "invalid_request"));
    assert!(garbage.2.starts_with("token is not a Cashu token: "));
    assert_eq!(
        refuse(&[(1, test_token(MINT, "usd", &[1]).into_bytes())], 3),
        (400, "wrong_amount", "token unit usd is not sat".into())
    );
    assert_eq!(
        refuse(&[(3, vec![1])], 4),
        (
            400,
            "invalid_request",
            "unknown presentation kind 3".into()
        )
    );
    assert_eq!(
        refuse(&[(1, fake_token(&[2]).into_bytes())], 5),
        (
            402,
            "token_rejected",
            "the mint credited nothing for this token".into()
        )
    );
    h.state.arc = None;
    let e = h
        .post_redeem(&request_from_pir1(6, &[(2, vec![1])]))
        .unwrap_err();
    assert_eq!(code(e), (400, "unsupported_kind"));
}

#[test]
fn an_unknown_outcome_keeps_the_marker_and_names_the_token() {
    let mut h = harness(vec![Err(SwapError::Unknown("no answer".into()))]);
    let token = fake_token(&[16]);
    let key = key_hex(&token);
    let items = [(1, token.as_bytes().to_vec())];
    let e = h.post_redeem(&request_from_pir1(1, &items)).unwrap_err();
    assert_eq!(
        (e.status, e.body.error, e.body.message.as_str()),
        (503, "mint_unavailable", "no answer")
    );
    assert_eq!(h.store.pending_keys(), vec![key.clone()]);
    assert_eq!(h.reconcile, vec![key.clone()]);
    let e = h.post_redeem(&request_from_pir1(2, &items)).unwrap_err();
    assert_eq!(
        e.body.message,
        format!(
            "an earlier attempt with this token has an unknown outcome (key {}); contact the operator",
            key
        )
    );
    assert_eq!(h.reconcile.len(), 2);
    assert_eq!(h.seen.len(), 1);
}

#[test]
fn appends_that_fail_refuse_the_request() {
    for (append, messages) in [
        (1, "store: append: disk full"),
        (2, "store: append: disk full"),
        (3, "redeem store: append: disk full"),
    ] {
        let mut h = harness(vec![Ok(1)]);
        h.broken_append = Some(append);
        let body = request_from_pir1(1, &[(1, fake_token(&[1]).into_bytes())]);
        let e = h.post_redeem(&body).unwrap_err();
        assert_eq!((e.status, e.body.error), (500, "internal"));
        assert_eq!(e.body.message, messages);
        assert!(h.redeem_store.totals().is_empty());
        // Without the marker in the log the mint is not asked.
        assert_eq!(h.seen.len(), if append == 1 { 0 } else { 1 });
    }
}

#[test]
fn replies_out_of_turn_are_refused() {
    let mut h = harness(vec![]);
    let verified = verify_request(
        &request_from_pir1(1, &[(1, fake_token(&[1]).into_bytes())]),
        &h.state.operator_keys,
        CLOCK,
        300,
        open_cert,
        request_preimage,
    )
    .unwrap();
    let (mut settlement, action) =
        Settlement::begin(&h.state, &h.store, &h.redeem_store, verified, CLOCK);
    assert!(matches!(action, SettlementAction::Record(_)));
    let action = settlement.step(
        &h.state,
        &mut h.store,
        &mut h.redeem_store,
        SettlementReply::Swapped(Ok(1)),
    );
    match action {
        SettlementAction::Refuse(refusal) => {
            assert_eq!(refusal.error.body.message, "unexpected reply");
        }
        other => panic!("{:?}", other),
    }
    let action = settlement.step(
        &h.state,
        &mut h.store,
        &mut h.redeem_store,
        SettlementReply::Recorded(Ok(())),
    );
    assert!(matches!(action, SettlementAction::Refuse(_)));
    assert!(h.store.pending_keys().is_empty());
}

#[test]
fn grants_are_signed_after_the_swap_and_given_again() {
    let mut h = harness(vec![Ok(209)]);
    let token = fake_token(&[128, 64, 16, 2]);
    let grant = h.post_grants(pack(1000, 210), &token).unwrap();
    let key = key_hex(&token);
    assert_eq!(grant.grant_id_hex, key[..32]);
    assert_eq!(grant.credits, 1000);
    assert_eq!((grant.issued_at, grant.expires_at), (CLOCK, CLOCK + 3600));
    // The face value is what the offer asks for; the credited amount, which
    // may be less, is on record.
    assert!(matches!(
        h.store.get(&key),
        Some(TokenState::Issued { received: 209, .. })
    ));
    h.now = CLOCK + 3599;
    assert_eq!(h.post_grants(pack(1000, 210), &token).unwrap(), grant);
    let e = h.post_grants(pack(2000, 210), &token).unwrap_err();
    assert_eq!(
        (e.status, e.body.error, e.body.message.as_str()),
        (
            400,
            "invalid_request",
            "this token already bought a different pack; the original grant stands"
        )
    );
    assert_eq!(h.seen.len(), 1);
    // Once it expired, the token goes to the mint again.
    h.now = CLOCK + 3600;
    h.script = vec![Err(SwapError::Rejected("already spent".into()))];
    let e = h.post_grants(pack(1000, 210), &token).unwrap_err();
    assert_eq!(code(e), (402, "token_rejected"));
}

#[test]
fn grant_orders_are_checked_offline() {
    let mut h = harness(vec![]);
    let e = h.post_grants(pack(1, 1), &fake_token(&[1])).unwrap_err();
    assert_eq!(
        (e.status, e.body.error, e.body.message.as_str()),
        (400, "invalid_request", "unknown offer")
    );
    let e = h.post_grants(pack(1000, 210), "nonsense").unwrap_err();
    assert_eq!(code(e), (400, "invalid_request"));
    let foreign = test_token("https://other.example", "sat", &[128, 64, 16, 2]);
    let e = h.post_grants(pack(1000, 210), &foreign).unwrap_err();
    assert_eq!(
        (e.status, e.body.error, e.body.message.as_str()),
        (
            400,
            "mint_not_accepted",
            "https://other.example is not an accepted mint"
        )
    );
    let e = h
        .post_grants(pack(1000, 210), &fake_token(&[128, 64]))
        .unwrap_err();
    assert_eq!(
        (e.status, e.body.error, e.body.message.as_str()),
        (
            400,
            "wrong_amount",
            "token is worth 192 sat, offer costs 210 sat"
        )
    );
    assert!(h.token_log.is_empty());
}

#[test]
fn a_purchase_is_honest_about_the_unknown() {
    let mut h = harness(vec![
        Err(SwapError::Unknown("no answer".into())),
        Err(SwapError::Unavailable("down".into())),
        Err(SwapError::Rejected("already spent".into())),
        Ok(210),
    ]);
    let token = fake_token(&[128, 64, 16, 2]);
    let key = key_hex(&token);
    let mut buy = || {
        let e = h.post_grants(pack(1000, 210), &token).unwrap_err();
        assert_eq!(h.store.pending_keys(), vec![key.clone()]);
        (e.status, e.body.error, e.body.message)
    };
    assert_eq!(buy(), (503, "mint_unavailable", "no answer".into()));
    assert_eq!(buy(), (503, "mint_unavailable", "down".into()));
    assert_eq!(
        buy(),
        (
            402,
            "token_rejected",
            format!(
                "the mint rejects this token and an earlier attempt's outcome is unknown (key {}); contact the operator",
                key
            )
        )
    );
    assert_eq!(h.reconcile, vec![key.clone(), key.clone()]);
    // The marker was written once, and a swap that succeeds settles it.
    assert_eq!(h.token_log.len(), 1);
    assert_eq!(h.post_grants(pack(1000, 210), &token).unwrap().credits, 1000);
    assert!(h.store.pending_keys().is_empty());
}

#[test]
fn a_failed_swap_is_on_record_and_can_be_tried_again() {
    let mut h = harness(vec![
        Err(SwapError::Unavailable("down".into())),
        Err(SwapError::Rejected("bad signature".into())),
        Ok(210),
    ]);
    let token = fake_token(&[128, 64, 16, 2]);
    let key = key_hex(&token);
    let e = h.post_grants(pack(1000, 210), &token).unwrap_err();
    assert_eq!(code(e), (503, "mint_unavailable"));
    assert_eq!(
        h.store.get(&key),
        Some(&TokenState::Failed {
            at: CLOCK,
            reason: "down".into()
        })
    );
    let e = h.post_grants(pack(1000, 210), &token).unwrap_err();
    assert_eq!(e.body.message, "bad signature");
    assert!(h.post_grants(pack(1000, 210), &token).is_ok());
    assert_eq!(h.store.issued_count(), 1);
}

#[test]
fn a_grant_order_asks_the_mint_about_a_redeemed_token() {
    // The mint knows that the token is spent.
    let mut h = harness(vec![
        Ok(210),
        Err(SwapError::Rejected("already spent".into())),
        Ok(209),
    ]);
    let token = fake_token(&[128, 64, 16, 2]);
    let body = request_from_pir1(1, &[(1, token.as_bytes().to_vec())]);
    h.post_redeem(&body).unwrap();
    let e = h.post_grants(pack(1000, 210), &token).unwrap_err();
    assert_eq!(
        (e.status, e.body.error, e.body.message.as_str()),
        (402, "token_rejected", "already spent")
    );
    assert_eq!(h.seen, vec![token.clone(), token.clone()]);
    assert!(matches!(
        h.store.get(&key_hex(&token)),
        Some(TokenState::Failed { at: CLOCK, reason }) if reason == "already spent"
    ));

    // A mint that credits the token, less a fee: the grant is signed.
    let other = fake_token(&[128, 64, 16, 2]);
    h.store.record(
        &key_hex(&other),
        TokenState::Redeemed {
            server_id: "pir1".into(),
            received: 210,
            mint: MINT.into(),
            unit: "sat".into(),
        },
    );
    let grant = h.post_grants(pack(1000, 210), &other).unwrap();
    assert_eq!((grant.credits, grant.issued_at), (1000, CLOCK));
    assert_eq!(grant.grant_id_hex, key_hex(&other)[..32]);
    assert!(matches!(
        h.store.get(&key_hex(&other)),
        Some(TokenState::Issued { received: 209, .. })
    ));
}

#[test]
fn a_grant_order_asks_the_mint_about_a_token_that_bought_a_credential() {
    let mut h = harness(vec![Ok(210)]);
    let token = fake_token(&[128, 64, 16, 2]);
    h.store.record(
        &key_hex(&token),
        TokenState::Credential {
            request_hex: "00".into(),
            response: CredentialResponseV2 {
                epoch: 231,
                presentation_limit: 4,
                issuer_public_key_hex: "02".into(),
                response_hex: "03".into(),
            },
            received: 210,
            mint: MINT.into(),
            unit: "sat".into(),
        },
    );
    h.post_grants(pack(1000, 210), &token).unwrap();
    assert_eq!(h.seen, vec![token]);
}

#[test]
fn goods_and_answers_are_given_again_whatever_happens_in_between() {
    let mut h = harness(vec![
        Ok(210),
        Ok(40),
        Ok(8),
        Err(SwapError::Rejected("already spent".into())),
        Ok(210),
        Err(SwapError::Unknown("no answer".into())),
    ]);
    let for_grant = fake_token(&[128, 64, 16, 2]);
    let for_credential = fake_token(&[32, 8]);
    let redeemed = fake_token(&[8]);
    let grant = h.post_grants(pack(1000, 210), &for_grant).unwrap();
    let credential = h.post_credentials(4, 40, &for_credential, &[7; 32]).unwrap();
    let body = request_from_pir1(1, &[(1, redeemed.as_bytes().to_vec())]);
    let answer = h.post_redeem(&body).unwrap();

    // Others come and go; the spent tokens are tried elsewhere, and refused.
    let other = request_from_pir1(2, &[(1, fake_token(&[4]).into_bytes())]);
    assert_eq!(code(h.post_redeem(&other).unwrap_err()), (402, "token_rejected"));
    h.post_grants(pack(1000, 210), &fake_token(&[128, 64, 16, 2]))
        .unwrap();
    for (nonce, token) in [(3, &for_grant), (4, &for_credential), (5, &redeemed)] {
        let body = request_from_pir1(nonce, &[(1, token.as_bytes().to_vec())]);
        assert_eq!(code(h.post_redeem(&body).unwrap_err()), (402, "already_redeemed"));
    }
    h.now += 3599;
    assert_eq!(h.post_grants(pack(1000, 210), &for_grant).unwrap(), grant);
    assert_eq!(
        h.post_credentials(4, 40, &for_credential, &[7; 32]).unwrap(),
        credential
    );
    h.now = CLOCK;
    assert_eq!(h.post_redeem(&body).unwrap(), answer);

    // Once the grant has expired, an order with its token goes to the mint.
    h.now += 3600;
    let e = h.post_grants(pack(1000, 210), &for_grant).unwrap_err();
    assert_eq!(code(e), (503, "mint_unavailable"));
    assert!(matches!(
        h.store.get(&key_hex(&for_grant)),
        Some(TokenState::Pending { .. })
    ));
}

#[test]
fn goods_that_cannot_be_made_leave_the_token_pending() {
    let mut h = harness(vec![Ok(5), Ok(40)]);
    let token = fake_token(&[4, 1]);
    let e = h.post_grants(pack(13, 5), &token).unwrap_err();
    assert_eq!(
        (e.status, e.body.error, e.body.message.as_str()),
        (500, "internal", "sign: no such grant")
    );
    assert_eq!(h.store.pending_keys(), vec![key_hex(&token)]);
    let token = fake_token(&[32, 8]);
    let e = h.post_credentials(4, 40, &token, &[1, 2, 3]).unwrap_err();
    assert_eq!(
        (e.status, e.body.error, e.body.message.as_str()),
        (
            400,
            "invalid_request",
            "malformed ARC credential request: length"
        )
    );
    assert_eq!(h.reconcile, vec![key_hex(&token)]);
}

#[test]
fn credential_orders_are_checked_offline() {
    let mut h = harness(vec![Ok(40)]);
    let mut order = |sat: u64, token: &str, request_hex: &str| {
        let (_, action) = Purchase::begin_credential(
            &h.state,
            &h.store,
            &CredentialRequestV2 {
                credits: 4,
                sat,
                token: token.into(),
                request_hex: request_hex.into(),
            },
            CLOCK,
        );
        match action {
            PurchaseAction::Refuse(refusal) => (
                refusal.error.status,
                refusal.error.body.error,
                refusal.error.body.message,
            ),
            other => panic!("{:?}", other),
        }
    };
    let token = fake_token(&[32, 8]);
    assert_eq!(
        order(41, &token, "00"),
        (400, "invalid_request", "unknown pack".into())
    );
    assert_eq!(
        order(40, &token, "0g"),
        (400, "invalid_request", "request_hex is not hex".into())
    );
    assert_eq!(
        order(40, &fake_token(&[32]), "00"),
        (
            400,
            "wrong_amount",
            "token is worth 32 sat, offer costs 40 sat".into()
        )
    );
    assert_eq!(
        order(40, &test_token(MINT, "usd", &[32, 8]), "00"),
        (
            400,
            "wrong_amount",
            "token is worth 40 usd, offer costs 40 sat".into()
        )
    );
    // A token that was redeemed buys no credential, and the other way round.
    let body = request_from_pir1(1, &[(1, token.as_bytes().to_vec())]);
    h.post_redeem(&body).unwrap();
    let e = h.post_credentials(4, 40, &token, &[1u8; 32]).unwrap_err();
    assert_eq!(code(e), (402, "already_redeemed"));
    h.script = vec![Ok(40)];
    let bought = fake_token(&[32, 8]);
    h.post_credentials(4, 40, &bought, &[1u8; 32]).unwrap();
    let body = request_from_pir1(2, &[(1, bought.into_bytes())]);
    let e = h.post_redeem(&body).unwrap_err();
    assert_eq!(
        (e.status, e.body.error, e.body.message.as_str()),
        (
            402,
            "already_redeemed",
            "this token already bought an ARC credential"
        )
    );
    h.state.arc = None;
    let e = h
        .post_credentials(4, 40, &fake_token(&[32, 8]), &[1u8; 32])
        .unwrap_err();
    assert_eq!(code(e), (400, "unsupported_kind"));
}

#[test]
fn info_publishes_the_key_the_offers_and_the_costs() {
    let issuer = Issuer::new(&[5u8; 32], 86_400);
    let v = info(&config(), &session_terms(), &issuer);
    assert_eq!(v.service, "bitcoinpir-cashier");
    assert_eq!(v.version, 1);
    assert_eq!(
        v.cashier_pubkey_hex,
        hex::encode(SigningKey::from_bytes(&[5u8; 32]).verifying_key().to_bytes())
    );
    assert_eq!(v.mints, vec![MINT.to_string()]);
    assert_eq!(v.offers, session_terms().offers);
    assert_eq!(v.grant_ttl_secs, 86_400);
    assert_eq!((v.costs.frame, v.costs.hint_set), (1, 40));
}

#[test]
fn without_arc_there_are_no_packs() {
    let mut config = config();
    config.arc = None;
    let v = describe(&config, None);
    assert!(v.offers.is_empty());
    assert!(v.arc.is_none());
    assert_eq!(v.mints, vec![MINT.to_string()]);
}

#[test]
fn errors_carry_their_status_and_code() {
    let m = || "m".to_string();
    for (e, want) in [
        (ApiError::invalid_request(m()), (400, "invalid_request")),
        (ApiError::wrong_amount(m()), (400, "wrong_amount")),
        (ApiError::mint_not_accepted(m()), (400, "mint_not_accepted")),
        (ApiError::token_rejected(m()), (402, "token_rejected")),
        (ApiError::mint_unavailable(m()), (503, "mint_unavailable")),
        (ApiError::internal(m()), (500, "internal")),
        (ApiError::unauthorized(m()), (401, "unauthorized")),
        (ApiError::unsupported_kind(m()), (400, "unsupported_kind")),
        (ApiError::already_redeemed(m()), (402, "already_redeemed")),
        (ApiError::double_spend(m()), (402, "double_spend")),
        (ApiError::expired_epoch(m()), (402, "expired_epoch")),
    ] {
        assert_eq!(e.body.message, "m");
        assert_eq!(code(e), want);
    }
    assert_eq!(malformed_body("eof").body.message, "body: eof");
    assert_eq!(
        ArcError::Invalid("x".into()).message(),
        "ARC presentation does not verify: x"
    );
}
