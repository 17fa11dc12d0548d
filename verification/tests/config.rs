//! Configuration rules, defaults and seed files.

use bpir_cashier::config::{
    default_base_gas_per_frame, default_credential_offers, default_credit_sat, default_egress_gas_per_mb,
    default_gas_per_credit, default_rate_card, default_redeem_skew, is_mnemonic_length,
    read_seed_file, ArcConfig, Config, ConfigError, Costs, CredentialOffer, GasConfig, Offer, RateCardEntry, RedeemStorePath,
    SessionTerms,
};
use ed25519_dalek::SigningKey;

fn sample() -> Config {
    Config {
        listen: "127.0.0.1:8095".into(),
        grant_key_path: "grant.key".into(),
        wallet_seed_path: "wallet.seed".into(),
        wallet_db_path: "wallet.sqlite".into(),
        store_path: "grants.jsonl".into(),
        mints: vec!["https://mint.example".into()],
        cors_origins: Vec::new(),
        gas: GasConfig::default(),
        operator_pubkeys: Vec::new(),
        redeem_max_skew_secs: default_redeem_skew(),
        redeem_store_path: None,
        rate_card: default_rate_card(),
        arc: None,
    }
}

fn sample_arc() -> ArcConfig {
    ArcConfig {
        seed_path: "arc.seed".into(),
        epoch_secs: 90 * 86_400,
        grace_secs: 30 * 86_400,
        presentation_limit: 100,
        credential_offers: default_credential_offers(100, 10),
    }
}

fn fault(config: &Config) -> String {
    match config.validate(&Ok(())) {
        Err(ConfigError::Invalid(m)) => m,
        other => panic!("{:?}", other),
    }
}

#[test]
fn sample_validates_with_defaults() {
    let c = sample();
    c.validate(&Ok(())).unwrap();
    assert!(c.cors_origins.is_empty());
    assert!(c.accepts_mint("https://mint.example/"));
    assert!(!c.accepts_mint("https://other.example"));
}

#[test]
fn rejects_bad_values() {
    let mut c = sample();
    c.mints = vec!["http://mint.example".into()];
    assert!(c.validate(&Ok(())).is_err());
    let mut c = sample();
    c.mints = vec!["https://mint.example/".into()];
    assert!(c.validate(&Ok(())).is_err());
}

#[test]
fn seed_file_accepts_raw_and_hex() {
    assert_eq!(
        read_seed_file("raw", Ok(vec![7u8; 32]), 32).unwrap(),
        [7u8; 32]
    );
    let hexf = format!("{}\n", hex::encode([9u8; 32])).into_bytes();
    assert_eq!(
        read_seed_file("hex", Ok(hexf.clone()), 32).unwrap(),
        [9u8; 32]
    );
    assert!(read_seed_file("hex", Ok(hexf), 64).is_err());
}

#[test]
fn seed_files_are_refused_with_their_path() {
    assert_eq!(
        read_seed_file("k", Err("No such file".into()), 32).unwrap_err(),
        "read k: No such file"
    );
    assert_eq!(
        read_seed_file("k", Ok(vec![0xff; 31]), 32).unwrap_err(),
        "k is neither 32 raw bytes nor 64 hex characters"
    );
    assert_eq!(
        read_seed_file("k", Ok(b"xyz".to_vec()), 64).unwrap_err(),
        "k is neither 64 raw bytes nor 128 hex characters"
    );
    assert_eq!(
        read_seed_file("k", Ok(b"\x09ABcd\r\n".to_vec()), 3).unwrap_err(),
        "k decodes to 2 bytes, expected 3"
    );
    assert_eq!(
        read_seed_file("k", Ok(b"\x09ABcd\r\n".to_vec()), 2).unwrap(),
        vec![0xab, 0xcd]
    );
}

#[test]
fn defaults_are_those_of_the_contract() {
    assert_eq!(
        default_credential_offers(100, default_credit_sat()),
        vec![CredentialOffer {
            credits: 100,
            sat: 1000
        }]
    );
    let gas = GasConfig::default().params();
    assert_eq!(
        (
            gas.credit_sat,
            gas.gas_per_credit,
            gas.base_gas_per_frame,
            gas.egress_gas_per_mb
        ),
        (10, 72_000, 20, 1_000)
    );
    assert_eq!(default_credit_sat(), 10);
    assert_eq!(default_gas_per_credit(), 72_000);
    assert_eq!(default_base_gas_per_frame(), 20);
    assert_eq!(default_egress_gas_per_mb(), 1_000);
    assert_eq!(default_redeem_skew(), 300);
    let card: Vec<(String, u64)> = default_rate_card()
        .into_iter()
        .map(|e| (e.flow, e.credits))
        .collect();
    let want = |flow: &str, credits: u64| (flow.to_string(), credits);
    assert_eq!(
        card,
        vec![
            want("onion_single_address", 10),
            want("harmony_fresh_client", 5),
            want("dpf_single_address", 2),
            want("oram_single_address", 1),
        ]
    );
}

#[test]
fn mints_must_be_https_without_a_slash() {
    let mut c = sample();
    c.mints.clear();
    assert_eq!(fault(&c), "mints must list at least one mint");
    c.mints = vec!["https://a".into(), "https://".into()];
    assert_eq!(fault(&c), "mint is not an https URL: https://");
    c.mints = vec!["https://a/".into(), "ftp://b".into()];
    assert_eq!(
        fault(&c),
        "mint URL must not end with a slash (tokens carry it without one): https://a/"
    );
    c.mints = vec!["https://a".into()];
    c.validate(&Ok(())).unwrap();
    assert!(c.accepts_mint("https://a"));
    assert!(c.accepts_mint("https://a///"));
    assert!(!c.accepts_mint("/https://a"));
}

#[test]
fn the_verdict_on_gas_is_passed_on() {
    let c = sample();
    match c.validate(&Err("credit_sat is zero".into())) {
        Err(ConfigError::Invalid(m)) => assert_eq!(m, "gas: credit_sat is zero"),
        other => panic!("{:?}", other),
    }
}

#[test]
fn operator_keys_must_be_ed25519_keys() {
    let good = hex::encode(SigningKey::from_bytes(&[1u8; 32]).verifying_key().to_bytes());
    let mut c = sample();
    c.operator_pubkeys = vec![good.clone(), "zz".into()];
    assert_eq!(fault(&c), "operator_pubkeys: \"zz\" is not hex");
    c.operator_pubkeys = vec!["ab\"".into()];
    assert_eq!(fault(&c), "operator_pubkeys: \"ab\\\"\" is not hex");
    c.operator_pubkeys = vec!["abcd".into()];
    assert_eq!(fault(&c), "operator_pubkeys: \"abcd\" is not 32 bytes");
    // Not the y-coordinate of a point.
    let off_curve = format!("02{}", "00".repeat(31));
    c.operator_pubkeys = vec![off_curve.clone()];
    assert_eq!(
        fault(&c),
        format!("operator_pubkeys: {:?} is not an Ed25519 key", off_curve)
    );
    assert!(c.operator_keys().is_empty());
    c.operator_pubkeys = vec![good.clone(), good.to_uppercase()];
    c.validate(&Ok(())).unwrap();
    let key = SigningKey::from_bytes(&[1u8; 32]).verifying_key().to_bytes();
    assert_eq!(c.operator_keys(), vec![key, key]);
}

#[test]
fn clocks_may_differ_by_a_second_to_an_hour() {
    let mut c = sample();
    for (skew, valid) in [(0, false), (1, true), (3600, true), (3601, false)] {
        c.redeem_max_skew_secs = skew;
        assert_eq!(c.validate(&Ok(())).is_ok(), valid);
    }
    assert_eq!(fault(&c), "redeem_max_skew_secs must be 1..=3600");
}

#[test]
fn rate_card_lines_have_no_empty_field() {
    let mut c = sample();
    let bad = RateCardEntry {
        flow: "dpf".into(),
        credits: 0,
    };
    c.rate_card.push(bad.clone());
    assert_eq!(
        fault(&c),
        format!("rate_card entry has an empty field: {:?}", bad)
    );
    let bad = RateCardEntry {
        flow: "".into(),
        credits: 12,
    };
    c.rate_card = vec![bad.clone()];
    assert_eq!(
        fault(&c),
        format!("rate_card entry has an empty field: {:?}", bad)
    );
}

#[test]
fn the_arc_table_keeps_its_rules() {
    let mut c = sample();
    c.arc = Some(sample_arc());
    c.validate(&Ok(())).unwrap();
    let with = |change: &dyn Fn(&mut ArcConfig)| {
        let mut arc = sample_arc();
        change(&mut arc);
        let mut c = sample();
        c.arc = Some(arc);
        fault(&c)
    };
    assert_eq!(
        with(&|a| a.epoch_secs = 86_399),
        "arc.epoch_secs must be at least one day"
    );
    assert_eq!(
        with(&|a| a.grace_secs = a.epoch_secs + 1),
        "arc.grace_secs must not exceed arc.epoch_secs"
    );
    assert_eq!(
        with(&|a| a.presentation_limit = 1),
        "arc.presentation_limit must be 2..=4096"
    );
    assert_eq!(
        with(&|a| a.presentation_limit = 4097),
        "arc.presentation_limit must be 2..=4096"
    );
    assert_eq!(
        with(&|a| a.credential_offers.clear()),
        "arc.credential_offers must list at least one pack"
    );
    let offer = CredentialOffer {
        credits: 99,
        sat: 10,
    };
    assert_eq!(
        with(&|a| a.credential_offers.push(offer)),
        format!(
            "arc credential offer must sell exactly 100 credits for a positive price: {:?}",
            offer
        )
    );
    let free = CredentialOffer {
        credits: 100,
        sat: 0,
    };
    assert_eq!(
        with(&|a| a.credential_offers = vec![free]),
        format!(
            "arc credential offer must sell exactly 100 credits for a positive price: {:?}",
            free
        )
    );
}

#[test]
fn origins_are_https_or_local() {
    let mut c = sample();
    c.cors_origins = vec![
        "https://www.bitcoinpir.org".into(),
        "http://localhost:5173".into(),
    ];
    c.validate(&Ok(())).unwrap();
    c.cors_origins.push("http://example.org".into());
    assert_eq!(fault(&c), "cors origin is not https: http://example.org");
}

#[test]
fn the_redeem_log_stands_beside_the_token_log() {
    let mut c = sample();
    assert_eq!(
        c.redeem_store_path(),
        RedeemStorePath::Beside("grants.jsonl".into(), "redeem.jsonl")
    );
    c.redeem_store_path = Some("elsewhere".into());
    assert_eq!(
        c.redeem_store_path(),
        RedeemStorePath::Given("elsewhere".into())
    );
}

#[test]
fn phrases_have_twelve_to_twenty_four_words() {
    let allowed: Vec<usize> = (0..40).filter(|n| is_mnemonic_length(*n)).collect();
    assert_eq!(allowed, [12, 15, 18, 21, 24]);
}

#[test]
fn config_errors_read_as_sentences() {
    assert_eq!(
        ConfigError::Read("c".into(), "denied".into()).message(),
        "read c: denied"
    );
    assert_eq!(
        ConfigError::Parse("c".into(), "line 1".into()).message(),
        "parse c: line 1"
    );
    assert_eq!(ConfigError::Invalid("rule".into()).message(), "rule");
}

#[test]
fn session_offers_are_found_whole_and_priced_in_units() {
    let offer = |credits: u32, amount: u64, unit: &str| Offer {
        credits,
        amount,
        unit: unit.into(),
    };
    let terms = SessionTerms {
        offers: vec![offer(1000, 210, "sat"), offer(10, 1, "usd"), offer(5, 1, "usd")],
        costs: Costs {
            frame: 1,
            hint_set: 5,
        },
    };
    assert_eq!(
        terms.find_offer(&offer(10, 1, "usd")),
        Some(&offer(10, 1, "usd"))
    );
    assert_eq!(terms.find_offer(&offer(10, 2, "usd")), None);
    assert_eq!(terms.find_offer(&offer(10, 1, "sat")), None);
    assert_eq!(terms.find_offer(&offer(11, 1, "usd")), None);
    assert_eq!(terms.units(), vec!["sat".to_string(), "usd".to_string()]);
    let none = SessionTerms {
        offers: Vec::new(),
        costs: terms.costs,
    };
    assert!(none.units().is_empty());
    // Credits are priced in sats, whatever is on offer.
    assert_eq!(none.wallet_units(), vec!["sat".to_string()]);
    assert_eq!(terms.wallet_units(), vec!["sat".to_string(), "usd".to_string()]);
    let dollars = SessionTerms {
        offers: vec![offer(10, 1, "usd"), offer(1, 1, "eur")],
        costs: terms.costs,
    };
    assert_eq!(dollars.units(), vec!["eur".to_string(), "usd".to_string()]);
    assert_eq!(
        dollars.wallet_units(),
        vec!["eur".to_string(), "sat".to_string(), "usd".to_string()]
    );
}

#[test]
fn without_origins_any_origin_is_allowed() {
    let mut c = sample();
    assert_eq!(c.allowed_origins(), None);
    c.cors_origins = vec!["https://www.bitcoinpir.org".into()];
    assert_eq!(c.allowed_origins(), Some(&c.cors_origins));
}
