//! Token summaries, the idempotency key and the outcome of swaps.

use std::str::FromStr;

use bpir_cashier::cashu::{
    balances, classify, received, sorted_distinct, token_key, wallet_keys, SwapError, SwapReply,
    TokenContents, TokenParseError, TokenSummary, WalletFault,
};
use cdk::mint_url::MintUrl;
use cdk::nuts::{CurrencyUnit, Id, Proof, PublicKey, Token};
use cdk::secret::Secret;
use cdk::Amount;
use sha2::Digest;

/// Build an encoded V4 token with `amounts` proofs at `mint` in `unit`. The
/// proofs carry syntactically valid but unsigned data; enough for parsing,
/// never for a real mint.
fn fake_token(mint: &str, unit: &str, amounts: &[u64]) -> String {
    token_of(mint, unit, amounts).to_string()
}

fn token_of(mint: &str, unit: &str, amounts: &[u64]) -> Token {
    let keyset = Id::from_str("00ffd48b8f5ecf80").unwrap();
    let c =
        PublicKey::from_hex("02a9acc1e48c25eeeb9289b5031cc57da9fe72f3fe2861d264bdc074209b107ba2")
            .unwrap();
    let proofs: Vec<Proof> = amounts
        .iter()
        .map(|a| Proof::new(Amount::from(*a), keyset, Secret::generate(), c))
        .collect();
    Token::new(
        MintUrl::from_str(mint).unwrap(),
        proofs,
        None,
        CurrencyUnit::from_str(unit).unwrap(),
    )
}

#[test]
fn summary_reads_mint_unit_value_and_sorted_secrets() {
    let encoded = fake_token("https://mint.example", "sat", &[128, 64, 16, 2]);
    assert!(encoded.starts_with("cashuB"));
    let s = TokenSummary::parse(&encoded).unwrap();
    assert_eq!(s.mint, "https://mint.example");
    assert_eq!(s.unit, "sat");
    assert_eq!(s.amount, 210);
    assert_eq!(s.secrets.len(), 4);
    let mut sorted = s.secrets.clone();
    sorted.sort();
    assert_eq!(s.secrets, sorted);
}

#[test]
fn garbage_is_rejected() {
    assert!(matches!(
        TokenSummary::parse("cashuBnope"),
        Err(TokenParseError::Malformed(_))
    ));
    assert!(matches!(
        TokenSummary::parse(""),
        Err(TokenParseError::Malformed(_))
    ));
}

#[test]
fn token_key_is_stable_and_order_independent() {
    let a = token_key(&["x".into(), "y".into()]);
    let b = token_key(&["x".into(), "y".into()]);
    assert_eq!(a, b);
    assert_ne!(a, token_key(&["x".into()]));
    assert_ne!(
        token_key(&["ab".into(), "c".into()]),
        token_key(&["a".into(), "bc".into()])
    );
}

#[test]
fn token_key_hashes_the_domain_the_count_and_each_secret_behind_its_length() {
    let mut message = b"BPIR-CASHIER-TOKEN-KEY-V1".to_vec();
    message.extend_from_slice(&2u64.to_le_bytes());
    message.extend_from_slice(&1u64.to_le_bytes());
    message.extend_from_slice(b"x");
    message.extend_from_slice(&4u64.to_le_bytes());
    message.extend_from_slice("y\u{20ac}".as_bytes());
    let want: [u8; 32] = sha2::Sha256::digest(&message).into();
    assert_eq!(token_key(&["x".into(), "y\u{20ac}".into()]), want);
}

#[test]
fn both_token_versions_and_surrounding_space_give_the_same_key() {
    let token = token_of("https://mint.example", "sat", &[8, 4]);
    let v4 = TokenSummary::parse(&format!("  {}\n", token)).unwrap();
    let v3 = TokenSummary::parse(&token.to_v3_string()).unwrap();
    assert_eq!(v3, v4);
    assert_eq!(token_key(&v3.secrets), token_key(&v4.secrets));
}

fn contents() -> TokenContents {
    TokenContents {
        mint: Some("https://mint.example//".into()),
        unit: Some("usd".into()),
        value: Ok(7),
        secrets: vec!["b".into(), "a".into(), "b".into()],
    }
}

#[test]
fn summaries_drop_end_slashes_and_doubles() {
    let s = TokenSummary::summarize(Ok(contents())).unwrap();
    assert_eq!(s.mint, "https://mint.example");
    assert_eq!(s.unit, "usd");
    assert_eq!(s.amount, 7);
    assert_eq!(s.secrets, vec!["a".to_string(), "b".to_string()]);
}

#[test]
fn every_parse_error_has_its_input() {
    let mut several = contents();
    several.mint = None;
    let mut unitless = contents();
    unitless.unit = None;
    let mut valueless = contents();
    valueless.value = Err("duplicate proofs".into());
    let mut empty = contents();
    empty.secrets.clear();
    let message = |read| TokenSummary::summarize(read).unwrap_err().message();
    assert_eq!(message(Ok(several)), "token spans several mints");
    assert_eq!(message(Ok(unitless)), "token carries no unit");
    assert_eq!(
        message(Ok(valueless)),
        "token is not a Cashu token: duplicate proofs"
    );
    assert_eq!(message(Ok(empty)), "token has no proofs");
    assert_eq!(
        message(Err("unsupported".into())),
        "token is not a Cashu token: unsupported"
    );
    assert_eq!(
        TokenSummary::parse("nonsense").unwrap_err(),
        TokenParseError::Malformed(Token::from_str("nonsense").unwrap_err().to_string())
    );
}

#[test]
fn lists_are_sorted_by_their_characters_and_deduplicated() {
    let list = |v: &[&str]| v.iter().map(|s| s.to_string()).collect::<Vec<String>>();
    assert_eq!(
        sorted_distinct(list(&["b", "", "a\u{e9}", "ab", "b", "a", "B"])),
        list(&["", "B", "a", "ab", "a\u{e9}", "b"])
    );
    assert!(sorted_distinct(Vec::new()).is_empty());
}

fn fault(http: Option<(Option<u16>, String)>) -> WalletFault {
    WalletFault {
        report: "Token already spent".into(),
        http,
    }
}

#[test]
fn wallet_faults_are_classified() {
    assert_eq!(
        classify(fault(None)),
        SwapError::Rejected("Token already spent".into())
    );
    assert_eq!(
        classify(fault(Some((None, "connection refused".into())))),
        SwapError::Unavailable("connection refused".into())
    );
    assert_eq!(
        classify(fault(Some((Some(500), "oops".into())))),
        SwapError::Unavailable("mint answered 500: oops".into())
    );
    assert_eq!(
        classify(fault(Some((Some(499), "bad request".into())))),
        SwapError::Rejected("Token already spent".into())
    );
}

#[test]
fn swap_replies_become_outcomes() {
    let summary = TokenSummary {
        mint: "https://mint.example".into(),
        unit: "eur".into(),
        amount: 1,
        secrets: vec!["s".into()],
    };
    assert_eq!(received(&summary, SwapReply::Credited(9)), Ok(9));
    assert_eq!(
        received(&summary, SwapReply::NoWallet),
        Err(SwapError::Rejected(
            "no wallet for https://mint.example (eur)".into()
        ))
    );
    assert_eq!(
        received(&summary, SwapReply::TimedOut("45s".into())),
        Err(SwapError::Unknown(
            "no answer from the mint within 45s".into()
        ))
    );
    assert_eq!(
        received(&summary, SwapReply::Failed(fault(None))),
        Err(SwapError::Rejected("Token already spent".into()))
    );
}

#[test]
fn swap_errors_read_as_sentences() {
    assert_eq!(
        SwapError::Rejected("m".into()).message(),
        "rejected by the mint: m"
    );
    assert_eq!(
        SwapError::Unavailable("m".into()).message(),
        "mint unavailable: m"
    );
    assert_eq!(
        SwapError::Unknown("m".into()).message(),
        "swap outcome unknown: m"
    );
}

#[test]
fn there_is_a_wallet_for_every_mint_and_unit() {
    let mints = vec!["https://a/".to_string(), "https://b".to_string()];
    let units = vec!["eur".to_string(), "sat".to_string()];
    let pair = |m: &str, u: &str| (m.to_string(), u.to_string());
    assert_eq!(
        wallet_keys(&mints, &units),
        vec![
            pair("https://a", "eur"),
            pair("https://a", "sat"),
            pair("https://b", "eur"),
            pair("https://b", "sat"),
        ]
    );
    assert!(wallet_keys(&mints, &Vec::new()).is_empty());
}

#[test]
fn wallets_are_listed_once_and_in_order() {
    let texts = |list: &[&str]| -> Vec<String> { list.iter().map(|s| s.to_string()).collect() };
    let pair = |m: &str, u: &str| (m.to_string(), u.to_string());
    let mints = texts(&["https://b", "https://a/b", "https://b//", "https://a"]);
    let units = texts(&["sat", "eur", "sat"]);
    let keys = wallet_keys(&mints, &units);
    assert_eq!(
        keys,
        vec![
            pair("https://a", "eur"),
            pair("https://a", "sat"),
            pair("https://a/b", "eur"),
            pair("https://a/b", "sat"),
            pair("https://b", "eur"),
            pair("https://b", "sat"),
        ]
    );
    let mut readings: Vec<Result<u64, String>> = (0..6).map(Ok).collect();
    readings[2] = Err("locked".into());
    let listed = balances(&keys, &readings);
    assert_eq!(listed.len(), 6);
    for (i, (key, reading)) in listed.iter().enumerate() {
        assert_eq!((key, reading), (&keys[i], &readings[i]));
    }
}
