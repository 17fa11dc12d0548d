//! Configuration: everything an operator decides, its defaults and the rules
//! it must keep, and the reader of seed files.

use vstd::prelude::*;
use vstd::utf8::*;

use crate::cashu;
use crate::credit::GasParams;
use crate::crypto;
use crate::encoding;
use crate::text;

verus! {

/// What an operator decides.
#[derive(Clone, Debug, PartialEq, Eq)]
pub struct Config {
    /// Socket the HTTP server binds. Put a reverse proxy or a tunnel in
    /// front; the cashier speaks plain HTTP.
    pub listen: String,
    /// 32-byte Ed25519 issuer seed (raw, or 64 hex characters) that signs
    /// every `POST /v2/redeem` answer.
    pub grant_key_path: String,
    /// 64-byte seed (raw, or 128 hex characters) for the Cashu wallet keys.
    pub wallet_seed_path: String,
    /// SQLite file the Cashu wallet keeps its proofs in.
    pub wallet_db_path: String,
    /// Append-only file recording every token seen and what it bought.
    pub store_path: String,
    /// Mints whose ecash is accepted (https only).
    pub mints: Vec<String>,
    /// Browser origins allowed by CORS. Empty means any origin, which is safe
    /// because the API uses no cookies and no ambient credentials.
    pub cors_origins: Vec<String>,
    /// Credits contract parameters published in `GET /v2/info` and used to
    /// turn redeemed sats into gas.
    pub gas: GasConfig,
    /// Operator identity keys (64 hex) whose certified servers may redeem
    /// here. Empty keeps `POST /v2/redeem` refused.
    pub operator_pubkeys: Vec<String>,
    /// Tolerated difference between a redeem request's clock and ours.
    pub redeem_max_skew_secs: u64,
    /// Append-only log of every redemption. Defaults to `redeem.jsonl` next
    /// to `store_path`.
    pub redeem_store_path: Option<String>,
    /// Worst-case prices published in `GET /v2/info` (informational; the
    /// servers meter gas).
    pub rate_card: Vec<RateCardEntry>,
    /// ARC credentials. Absent keeps `POST /v2/credentials` and ARC items of
    /// `POST /v2/redeem` refused.
    pub arc: Option<ArcConfig>,
}

/// The `[arc]` table.
#[derive(Clone, Debug, PartialEq, Eq)]
pub struct ArcConfig {
    /// 32-byte master seed (raw, or 64 hex characters); every epoch's issuer
    /// keys derive from it.
    pub seed_path: String,
    pub epoch_secs: u64,
    pub grace_secs: u64,
    /// Presentations per credential (one credit each).
    pub presentation_limit: u32,
    /// Packs on sale at `POST /v2/credentials`; `credits` must equal
    /// `presentation_limit` (one credential per pack).
    pub credential_offers: Vec<CredentialOffer>,
}

/// One `[[arc.credential_offers]]` line.
#[derive(Clone, Copy, Debug, PartialEq, Eq)]
pub struct CredentialOffer {
    pub credits: u64,
    pub sat: u64,
}

/// One pack: as many credits as a credential has presentations, at the price
/// of so many credits.
pub fn default_credential_offers(limit: u32, credit_sat: u64) -> (r: Vec<CredentialOffer>)
    requires
        limit * credit_sat <= u64::MAX,
    ensures
        r@ == seq![CredentialOffer { credits: limit as u64, sat: (limit * credit_sat) as u64 }],
{
    let mut r: Vec<CredentialOffer> = Vec::new();
    r.push(CredentialOffer { credits: limit as u64, sat: limit as u64 * credit_sat });
    assert(r@ == seq![CredentialOffer { credits: limit as u64, sat: (limit * credit_sat) as u64 }]);
    r
}

/// The `[gas]` table, with the defaults of September 2026.
#[derive(Clone, Copy, Debug, PartialEq, Eq)]
pub struct GasConfig {
    pub credit_sat: u64,
    pub gas_per_credit: u64,
    pub base_gas_per_frame: u64,
    pub egress_gas_per_mb: u64,
}

impl GasConfig {
    /// The parameters that the table sets.
    pub open spec fn spec_params(self) -> GasParams {
        GasParams {
            credit_sat: self.credit_sat,
            gas_per_credit: self.gas_per_credit,
            base_gas_per_frame: self.base_gas_per_frame,
            egress_gas_per_mb: self.egress_gas_per_mb,
        }
    }

    /// The parameters that the table sets.
    pub fn params(&self) -> (r: GasParams)
        ensures
            r == self.spec_params(),
    {
        GasParams {
            credit_sat: self.credit_sat,
            gas_per_credit: self.gas_per_credit,
            base_gas_per_frame: self.base_gas_per_frame,
            egress_gas_per_mb: self.egress_gas_per_mb,
        }
    }
}

impl Default for GasConfig {
    fn default() -> (r: Self)
        ensures
            r == (GasConfig {
                credit_sat: 10,
                gas_per_credit: 72_000,
                base_gas_per_frame: 20,
                egress_gas_per_mb: 1_000,
            }),
    {
        let p = GasParams::production_2026_09();
        GasConfig {
            credit_sat: p.credit_sat,
            gas_per_credit: p.gas_per_credit,
            base_gas_per_frame: p.base_gas_per_frame,
            egress_gas_per_mb: p.egress_gas_per_mb,
        }
    }
}

pub fn default_credit_sat() -> (r: u64)
    ensures
        r == 10,
{
    GasParams::production_2026_09().credit_sat
}

pub fn default_gas_per_credit() -> (r: u64)
    ensures
        r == 72_000,
{
    GasParams::production_2026_09().gas_per_credit
}

pub fn default_base_gas_per_frame() -> (r: u64)
    ensures
        r == 20,
{
    GasParams::production_2026_09().base_gas_per_frame
}

pub fn default_egress_gas_per_mb() -> (r: u64)
    ensures
        r == 1_000,
{
    GasParams::production_2026_09().egress_gas_per_mb
}

pub fn default_redeem_skew() -> (r: u64)
    ensures
        r == 300,
{
    300
}

/// Whether a BIP39 phrase can have so many words.
pub fn is_mnemonic_length(words: usize) -> (r: bool)
    ensures
        r <==> 12 <= words <= 24 && words % 3 == 0,
{
    words == 12 || words == 15 || words == 18 || words == 21 || words == 24
}

/// One `[[rate_card]]` line.
#[derive(Clone, Debug, PartialEq, Eq)]
pub struct RateCardEntry {
    pub flow: String,
    pub credits: u64,
}

/// The model of a rate card.
pub open spec fn rate_card_view(card: Seq<RateCardEntry>) -> Seq<(Seq<char>, u64)> {
    card.map_values(|entry: RateCardEntry| (entry.flow@, entry.credits))
}

/// The worst-case prices of the four flows.
pub fn default_rate_card() -> (r: Vec<RateCardEntry>)
    ensures
        rate_card_view(r@) == seq![
            ("onion_single_address"@, 10u64),
            ("harmony_fresh_client"@, 5u64),
            ("dpf_single_address"@, 2u64),
            ("oram_single_address"@, 1u64),
        ],
{
    let mut r: Vec<RateCardEntry> = Vec::new();
    r.push(RateCardEntry { flow: "onion_single_address".to_owned(), credits: 10 });
    r.push(RateCardEntry { flow: "harmony_fresh_client".to_owned(), credits: 5 });
    r.push(RateCardEntry { flow: "dpf_single_address".to_owned(), credits: 2 });
    r.push(RateCardEntry { flow: "oram_single_address".to_owned(), credits: 1 });
    r
}

/// Why a configuration cannot be used.
#[derive(Debug, PartialEq, Eq)]
pub enum ConfigError {
    /// The file cannot be read: its path, and why.
    Read(String, String),
    /// The file cannot be parsed: its path, and why.
    Parse(String, String),
    /// A rule is broken.
    Invalid(String),
}

impl ConfigError {
    /// The error as one sentence.
    pub open spec fn text(&self) -> Seq<char> {
        match self {
            ConfigError::Read(path, why) => "read "@ + path@ + ": "@ + why@,
            ConfigError::Parse(path, why) => "parse "@ + path@ + ": "@ + why@,
            ConfigError::Invalid(why) => why@,
        }
    }

    /// The error as one sentence.
    pub fn message(&self) -> (r: String)
        ensures
            r@ == self.text(),
    {
        match self {
            ConfigError::Read(path, why) => {
                let mut m = text::joined3("read ", path.as_str(), ": ");
                m.append(why.as_str());
                m
            },
            ConfigError::Parse(path, why) => {
                let mut m = text::joined3("parse ", path.as_str(), ": ");
                m.append(why.as_str());
                m
            },
            ConfigError::Invalid(why) => why.clone(),
        }
    }
}

/// The first of two faults.
pub open spec fn first_of(a: Option<Seq<char>>, b: Option<Seq<char>>) -> Option<Seq<char>> {
    if a is Some {
        a
    } else {
        b
    }
}

/// The fault of the first entry of a list that has one.
pub open spec fn first_fault<T>(
    list: Seq<T>,
    fault: spec_fn(T) -> Option<Seq<char>>,
) -> Option<Seq<char>>
    decreases list.len(),
{
    if list.len() == 0 {
        None
    } else {
        first_of(first_fault(list.drop_last(), fault), fault(list.last()))
    }
}

/// A fault found in a part from the beginning of a list is the list's.
proof fn fault_in_prefix<T>(list: Seq<T>, fault: spec_fn(T) -> Option<Seq<char>>, n: int)
    requires
        0 <= n <= list.len(),
        first_fault(list.take(n), fault) is Some,
    ensures
        first_fault(list, fault) == first_fault(list.take(n), fault),
    decreases list.len(),
{
    if n < list.len() {
        assert(list.drop_last().take(n) == list.take(n));
        fault_in_prefix(list.drop_last(), fault, n);
    } else {
        assert(list.take(n) == list);
    }
}

/// A list has no fault if and only if none of its entries has one.
proof fn faultless_entries<T>(list: Seq<T>, fault: spec_fn(T) -> Option<Seq<char>>)
    ensures
        first_fault(list, fault) is None <==> forall|i: int|
            0 <= i < list.len() ==> fault(#[trigger] list[i]) is None,
    decreases list.len(),
{
    if list.len() > 0 {
        let shorter = list.drop_last();
        faultless_entries(shorter, fault);
        if first_fault(list, fault) is None {
            assert forall|i: int| 0 <= i < list.len() implies fault(#[trigger] list[i]) is None by {
                if i < shorter.len() {
                    assert(shorter[i] == list[i]);
                }
            }
        } else if first_fault(shorter, fault) is Some {
            let i = choose|i: int| 0 <= i < shorter.len() && fault(#[trigger] shorter[i]) is Some;
            assert(list[i] == shorter[i]);
        } else {
            assert(fault(list[list.len() - 1]) is Some);
        }
    }
}

/// An https URL with something behind the scheme.
pub open spec fn is_https(url: Seq<char>) -> bool {
    text::has_prefix(url, "https://"@) && url.len() > "https://"@.len()
}

/// What is wrong with a mint, if anything.
pub open spec fn mint_fault(mint: Seq<char>) -> Option<Seq<char>> {
    if !is_https(mint) {
        Some("mint is not an https URL: "@ + mint)
    } else if mint.last() == '/' {
        Some("mint URL must not end with a slash (tokens carry it without one): "@ + mint)
    } else {
        None
    }
}

/// What is wrong with the list of mints, if anything.
pub open spec fn mints_fault(mints: Seq<String>) -> Option<Seq<char>> {
    if mints.len() == 0 {
        Some("mints must list at least one mint"@)
    } else {
        first_fault(mints, |mint: String| mint_fault(mint@))
    }
}

/// Whether a text is the hexadecimal text of an Ed25519 public key.
pub open spec fn is_operator_key(key: Seq<char>) -> bool {
    &&& encoding::is_hex(key)
    &&& encoding::hex_bytes(key).len() == 32
    &&& crypto::ed25519_is_key(encoding::hex_bytes(key))
}

/// What is wrong with an operator key, if anything.
pub open spec fn operator_fault(key: Seq<char>) -> Option<Seq<char>> {
    if !encoding::is_hex(key) {
        Some("operator_pubkeys: "@ + text::debug_text(key) + " is not hex"@)
    } else if encoding::hex_bytes(key).len() != 32 {
        Some("operator_pubkeys: "@ + text::debug_text(key) + " is not 32 bytes"@)
    } else if !crypto::ed25519_is_key(encoding::hex_bytes(key)) {
        Some("operator_pubkeys: "@ + text::debug_text(key) + " is not an Ed25519 key"@)
    } else {
        None
    }
}

/// What is wrong with the operator keys, if anything.
pub open spec fn operators_fault(keys: Seq<String>) -> Option<Seq<char>> {
    first_fault(keys, |key: String| operator_fault(key@))
}

/// What is wrong with a line of the rate card, if anything.
pub open spec fn entry_fault(entry: RateCardEntry) -> Option<Seq<char>> {
    if entry.flow@.len() == 0 || entry.credits == 0 {
        Some(
            "rate_card entry has an empty field: RateCardEntry { flow: "@ + text::debug_text(
                entry.flow@,
            ) + ", credits: "@ + text::decimal_text(entry.credits as nat) + " }"@,
        )
    } else {
        None
    }
}

/// What is wrong with the rate card, if anything.
pub open spec fn rate_card_fault(card: Seq<RateCardEntry>) -> Option<Seq<char>> {
    first_fault(card, |entry: RateCardEntry| entry_fault(entry))
}

/// What is wrong with a credential offer, if anything.
pub open spec fn offer_fault(limit: u32, offer: CredentialOffer) -> Option<Seq<char>> {
    if offer.credits != limit || offer.sat == 0 {
        Some(
            "arc credential offer must sell exactly "@ + text::decimal_text(limit as nat)
                + " credits for a positive price: CredentialOffer { credits: "@
                + text::decimal_text(offer.credits as nat) + ", sat: "@ + text::decimal_text(
                offer.sat as nat,
            ) + " }"@,
        )
    } else {
        None
    }
}

/// What is wrong with the credential offers, if anything.
pub open spec fn offers_fault(limit: u32, offers: Seq<CredentialOffer>) -> Option<Seq<char>> {
    first_fault(offers, |offer: CredentialOffer| offer_fault(limit, offer))
}

/// What is wrong with the `[arc]` table, if anything.
pub open spec fn arc_fault(arc: ArcConfig) -> Option<Seq<char>> {
    if arc.epoch_secs < 86_400 {
        Some("arc.epoch_secs must be at least one day"@)
    } else if arc.grace_secs > arc.epoch_secs {
        Some("arc.grace_secs must not exceed arc.epoch_secs"@)
    } else if !(2 <= arc.presentation_limit <= 4096) {
        Some("arc.presentation_limit must be 2..=4096"@)
    } else if arc.credential_offers@.len() == 0 {
        Some("arc.credential_offers must list at least one pack"@)
    } else {
        offers_fault(arc.presentation_limit, arc.credential_offers@)
    }
}

/// What is wrong with a browser origin, if anything.
pub open spec fn origin_fault(origin: Seq<char>) -> Option<Seq<char>> {
    if text::has_prefix(origin, "https://"@) || text::has_prefix(origin, "http://localhost"@) {
        None
    } else {
        Some("cors origin is not https: "@ + origin)
    }
}

/// What is wrong with the browser origins, if anything.
pub open spec fn origins_fault(origins: Seq<String>) -> Option<Seq<char>> {
    first_fault(origins, |origin: String| origin_fault(origin@))
}

fn check_mints(mints: &Vec<String>) -> (r: Option<String>)
    ensures
        match r {
            Some(m) => mints_fault(mints@) == Some(m@),
            None => mints_fault(mints@) is None,
        },
{
    if mints.is_empty() {
        return Some("mints must list at least one mint".to_owned());
    }
    let ghost fault = |mint: String| mint_fault(mint@);
    let mut i: usize = 0;
    while i < mints.len()
        invariant
            i <= mints.len(),
            mints@.len() > 0,
            fault == (|mint: String| mint_fault(mint@)),
            first_fault(mints@.take(i as int), fault) is None,
        decreases mints.len() - i,
    {
        let mint = mints[i].as_str();
        let length = text::chars_of(mint).len();
        proof {
            assert(mints@.take(i + 1).drop_last() == mints@.take(i as int));
            assert(mints@.take(i + 1).last() == mints@[i as int]);
            assert(fault(mints@.take(i + 1).last()) == mint_fault(mint@));
            reveal_strlit("https://");
        }
        if !text::starts_with(mint, "https://") || length <= 8 {
            proof {
                fault_in_prefix(mints@, fault, i + 1);
            }
            return Some(text::joined("mint is not an https URL: ", mint));
        }
        if text::ends_with_slash(mint) {
            proof {
                fault_in_prefix(mints@, fault, i + 1);
            }
            return Some(
                text::joined(
                    "mint URL must not end with a slash (tokens carry it without one): ",
                    mint,
                ),
            );
        }
        i += 1;
    }
    assert(mints@.take(i as int) == mints@);
    None
}

/// How a complaint about an operator key reads.
fn key_complaint(key: &str, what: &str) -> (r: String)
    ensures
        r@ == "operator_pubkeys: "@ + text::debug_text(key@) + what@,
{
    text::joined3("operator_pubkeys: ", text::quoted(key).as_str(), what)
}

fn check_operators(keys: &Vec<String>) -> (r: Option<String>)
    ensures
        match r {
            Some(m) => operators_fault(keys@) == Some(m@),
            None => operators_fault(keys@) is None,
        },
{
    let ghost fault = |key: String| operator_fault(key@);
    let mut i: usize = 0;
    while i < keys.len()
        invariant
            i <= keys.len(),
            fault == (|key: String| operator_fault(key@)),
            first_fault(keys@.take(i as int), fault) is None,
        decreases keys.len() - i,
    {
        let key = keys[i].as_str();
        proof {
            assert(keys@.take(i + 1).drop_last() == keys@.take(i as int));
            assert(keys@.take(i + 1).last() == keys@[i as int]);
            assert(fault(keys@.take(i + 1).last()) == operator_fault(key@));
        }
        let bytes = match encoding::hex_decode(key) {
            Ok(bytes) => bytes,
            Err(_) => {
                proof {
                    fault_in_prefix(keys@, fault, i + 1);
                }
                return Some(key_complaint(key, " is not hex"));
            },
        };
        if bytes.len() != 32 {
            proof {
                fault_in_prefix(keys@, fault, i + 1);
            }
            return Some(key_complaint(key, " is not 32 bytes"));
        }
        if !crypto::is_public_key(&encoding::array32(bytes.as_slice())) {
            proof {
                fault_in_prefix(keys@, fault, i + 1);
            }
            return Some(key_complaint(key, " is not an Ed25519 key"));
        }
        i += 1;
    }
    assert(keys@.take(i as int) == keys@);
    None
}

fn check_rate_card(card: &Vec<RateCardEntry>) -> (r: Option<String>)
    ensures
        match r {
            Some(m) => rate_card_fault(card@) == Some(m@),
            None => rate_card_fault(card@) is None,
        },
{
    let ghost fault = |entry: RateCardEntry| entry_fault(entry);
    let mut i: usize = 0;
    while i < card.len()
        invariant
            i <= card.len(),
            fault == (|entry: RateCardEntry| entry_fault(entry)),
            first_fault(card@.take(i as int), fault) is None,
        decreases card.len() - i,
    {
        let entry = &card[i];
        proof {
            assert(card@.take(i + 1).drop_last() == card@.take(i as int));
            assert(card@.take(i + 1).last() == card@[i as int]);
            assert(fault(card@.take(i + 1).last()) == entry_fault(*entry));
        }
        if entry.flow.as_str().is_empty() || entry.credits == 0 {
            proof {
                fault_in_prefix(card@, fault, i + 1);
            }
            let mut m = text::joined3(
                "rate_card entry has an empty field: RateCardEntry { flow: ",
                text::quoted(entry.flow.as_str()).as_str(),
                ", credits: ",
            );
            m.append(text::decimal(entry.credits as u128).as_str());
            m.append(" }");
            return Some(m);
        }
        i += 1;
    }
    assert(card@.take(i as int) == card@);
    None
}

fn check_offers(limit: u32, offers: &Vec<CredentialOffer>) -> (r: Option<String>)
    ensures
        match r {
            Some(m) => offers_fault(limit, offers@) == Some(m@),
            None => offers_fault(limit, offers@) is None,
        },
{
    let ghost fault = |offer: CredentialOffer| offer_fault(limit, offer);
    let mut i: usize = 0;
    while i < offers.len()
        invariant
            i <= offers.len(),
            fault == (|offer: CredentialOffer| offer_fault(limit, offer)),
            first_fault(offers@.take(i as int), fault) is None,
        decreases offers.len() - i,
    {
        let offer = offers[i];
        proof {
            assert(offers@.take(i + 1).drop_last() == offers@.take(i as int));
            assert(offers@.take(i + 1).last() == offers@[i as int]);
            assert(fault(offers@.take(i + 1).last()) == offer_fault(limit, offer));
        }
        if offer.credits != limit as u64 || offer.sat == 0 {
            proof {
                fault_in_prefix(offers@, fault, i + 1);
            }
            let mut m = text::joined3(
                "arc credential offer must sell exactly ",
                text::decimal(limit as u128).as_str(),
                " credits for a positive price: CredentialOffer { credits: ",
            );
            m.append(text::decimal(offer.credits as u128).as_str());
            m.append(", sat: ");
            m.append(text::decimal(offer.sat as u128).as_str());
            m.append(" }");
            return Some(m);
        }
        i += 1;
    }
    assert(offers@.take(i as int) == offers@);
    None
}

fn check_arc(arc: &ArcConfig) -> (r: Option<String>)
    ensures
        match r {
            Some(m) => arc_fault(*arc) == Some(m@),
            None => arc_fault(*arc) is None,
        },
{
    if arc.epoch_secs < 86_400 {
        return Some("arc.epoch_secs must be at least one day".to_owned());
    }
    if arc.grace_secs > arc.epoch_secs {
        return Some("arc.grace_secs must not exceed arc.epoch_secs".to_owned());
    }
    if !(2 <= arc.presentation_limit && arc.presentation_limit <= 4096) {
        return Some("arc.presentation_limit must be 2..=4096".to_owned());
    }
    if arc.credential_offers.is_empty() {
        return Some("arc.credential_offers must list at least one pack".to_owned());
    }
    check_offers(arc.presentation_limit, &arc.credential_offers)
}

fn check_origins(origins: &Vec<String>) -> (r: Option<String>)
    ensures
        match r {
            Some(m) => origins_fault(origins@) == Some(m@),
            None => origins_fault(origins@) is None,
        },
{
    let ghost fault = |origin: String| origin_fault(origin@);
    let mut i: usize = 0;
    while i < origins.len()
        invariant
            i <= origins.len(),
            fault == (|origin: String| origin_fault(origin@)),
            first_fault(origins@.take(i as int), fault) is None,
        decreases origins.len() - i,
    {
        let origin = origins[i].as_str();
        proof {
            assert(origins@.take(i + 1).drop_last() == origins@.take(i as int));
            assert(origins@.take(i + 1).last() == origins@[i as int]);
            assert(fault(origins@.take(i + 1).last()) == origin_fault(origin@));
        }
        if !(text::starts_with(origin, "https://") || text::starts_with(
            origin,
            "http://localhost",
        )) {
            proof {
                fault_in_prefix(origins@, fault, i + 1);
            }
            return Some(text::joined("cors origin is not https: ", origin));
        }
        i += 1;
    }
    assert(origins@.take(i as int) == origins@);
    None
}

/// Where the redeem log is kept.
#[derive(Debug, PartialEq, Eq)]
pub enum RedeemStorePath {
    /// At this path.
    Given(String),
    /// In the directory of this file, under this name.
    Beside(String, &'static str),
}

impl Config {
    /// The first rule that the configuration breaks, if any. `gas` is the
    /// verdict on the gas parameters.
    pub open spec fn fault(&self, gas: Result<(), String>) -> Option<Seq<char>> {
        first_of(
            mints_fault(self.mints@),
            first_of(
                match gas {
                    Ok(()) => None,
                    Err(why) => Some("gas: "@ + why@),
                },
                first_of(
                    operators_fault(self.operator_pubkeys@),
                    first_of(
                        if self.redeem_max_skew_secs == 0 || self.redeem_max_skew_secs > 3600 {
                            Some("redeem_max_skew_secs must be 1..=3600"@)
                        } else {
                            None
                        },
                        first_of(
                            rate_card_fault(self.rate_card@),
                            first_of(
                                match self.arc {
                                    Some(arc) => arc_fault(arc),
                                    None => None,
                                },
                                origins_fault(self.cors_origins@),
                            ),
                        ),
                    ),
                ),
            ),
        )
    }

    /// Check every rule; `gas` is the verdict on the gas parameters.
    pub fn validate(&self, gas: &Result<(), String>) -> (r: Result<(), ConfigError>)
        ensures
            match r {
                Ok(()) => self.fault(*gas) is None,
                Err(e) => e matches ConfigError::Invalid(m) && self.fault(*gas) == Some(m@),
            },
    {
        if let Some(m) = check_mints(&self.mints) {
            return Err(ConfigError::Invalid(m));
        }
        if let Err(why) = gas {
            return Err(ConfigError::Invalid(text::joined("gas: ", why.as_str())));
        }
        if let Some(m) = check_operators(&self.operator_pubkeys) {
            return Err(ConfigError::Invalid(m));
        }
        if self.redeem_max_skew_secs == 0 || self.redeem_max_skew_secs > 3600 {
            return Err(ConfigError::Invalid("redeem_max_skew_secs must be 1..=3600".to_owned()));
        }
        if let Some(m) = check_rate_card(&self.rate_card) {
            return Err(ConfigError::Invalid(m));
        }
        if let Some(arc) = &self.arc {
            if let Some(m) = check_arc(arc) {
                return Err(ConfigError::Invalid(m));
            }
        }
        if let Some(m) = check_origins(&self.cors_origins) {
            return Err(ConfigError::Invalid(m));
        }
        Ok(())
    }

    /// Whether tokens of a mint are accepted, with or without trailing
    /// slashes in its URL.
    pub open spec fn serves(&self, mint: Seq<char>) -> bool {
        text::texts(self.mints@).contains(text::without_end_slashes(mint))
    }

    /// The browser origins that may call the service; `None` stands for any.
    pub fn allowed_origins(&self) -> (r: Option<&Vec<String>>)
        ensures
            r is None <==> self.cors_origins@.len() == 0,
            r matches Some(origins) ==> *origins == self.cors_origins,
    {
        if self.cors_origins.len() == 0 {
            None
        } else {
            Some(&self.cors_origins)
        }
    }

    pub fn accepts_mint(&self, mint: &str) -> (r: bool)
        ensures
            r == self.serves(mint@),
    {
        let normalized = text::trim_end_slashes(mint);
        let ghost all = text::texts(self.mints@);
        let mut i: usize = 0;
        while i < self.mints.len()
            invariant
                i <= self.mints.len(),
                all == text::texts(self.mints@),
                normalized@ == text::without_end_slashes(mint@),
                forall|j: int| 0 <= j < i ==> all[j] != normalized@,
            decreases self.mints.len() - i,
        {
            if text::same(self.mints[i].as_str(), normalized) {
                assert(all[i as int] == normalized@);
                return true;
            }
            i += 1;
        }
        false
    }

    /// Parsed `operator_pubkeys`; text that is not a key is left out
    /// ([`Config::validate`] refuses it).
    pub fn operator_keys(&self) -> (r: Vec<[u8; 32]>)
        ensures
            key_bytes(r@) == served_keys(text::texts(self.operator_pubkeys@)),
    {
        let ghost all = text::texts(self.operator_pubkeys@);
        let mut r: Vec<[u8; 32]> = Vec::new();
        let mut i: usize = 0;
        assert(all.take(0) == Seq::<Seq<char>>::empty());
        assert(key_bytes(r@) == Seq::<Seq<u8>>::empty());
        while i < self.operator_pubkeys.len()
            invariant
                i <= self.operator_pubkeys.len(),
                all == text::texts(self.operator_pubkeys@),
                key_bytes(r@) == served_keys(all.take(i as int)),
            decreases self.operator_pubkeys.len() - i,
        {
            let key = self.operator_pubkeys[i].as_str();
            let ghost before = r@;
            proof {
                assert(all.take(i + 1).drop_last() == all.take(i as int));
                assert(all.take(i + 1).last() == key@);
            }
            if let Ok(bytes) = encoding::hex_decode(key) {
                if bytes.len() == 32 {
                    let bytes = encoding::array32(bytes.as_slice());
                    if crypto::is_public_key(&bytes) {
                        r.push(bytes);
                        assert(key_bytes(r@) == key_bytes(before).push(bytes@));
                    }
                }
            }
            i += 1;
        }
        assert(all.take(i as int) == all);
        r
    }

    /// `redeem_store_path`, or `redeem.jsonl` next to `store_path`.
    pub fn redeem_store_path(&self) -> (r: RedeemStorePath)
        ensures
            match self.redeem_store_path {
                Some(path) => r == RedeemStorePath::Given(path),
                None => r matches RedeemStorePath::Beside(file, name) && file@ == self.store_path@
                    && name@ == "redeem.jsonl"@,
            },
    {
        match &self.redeem_store_path {
            Some(path) => RedeemStorePath::Given(path.clone()),
            None => RedeemStorePath::Beside(self.store_path.clone(), "redeem.jsonl"),
        }
    }
}

/// The bytes of a list of keys.
pub open spec fn key_bytes(keys: Seq<[u8; 32]>) -> Seq<Seq<u8>> {
    keys.map_values(|key: [u8; 32]| key@)
}

/// The keys among some texts, in order.
pub open spec fn served_keys(keys: Seq<Seq<char>>) -> Seq<Seq<u8>>
    decreases keys.len(),
{
    if keys.len() == 0 {
        Seq::empty()
    } else if is_operator_key(keys.last()) {
        served_keys(keys.drop_last()).push(encoding::hex_bytes(keys.last()))
    } else {
        served_keys(keys.drop_last())
    }
}

/// A configuration is accepted if and only if: it lists mints, all https URLs
/// without a slash at the end; the gas parameters are accepted; each operator
/// key is the text of an Ed25519 key; the clock tolerance is between a second
/// and an hour; every line of the rate card names a flow and a price; an ARC
/// table sells whole credentials at a positive price for epochs of a day or
/// more with a grace period no longer; and every browser origin is https or
/// local.
pub proof fn accepted_configurations(config: Config, gas: Result<(), String>)
    ensures
        config.fault(gas) is None <==> {
            &&& config.mints@.len() > 0
            &&& forall|i: int|
                0 <= i < config.mints@.len() ==> is_https((#[trigger] config.mints@[i])@)
                    && config.mints@[i]@.last() != '/'
            &&& gas is Ok
            &&& forall|i: int|
                0 <= i < config.operator_pubkeys@.len() ==> is_operator_key(
                    (#[trigger] config.operator_pubkeys@[i])@,
                )
            &&& 1 <= config.redeem_max_skew_secs <= 3600
            &&& forall|i: int|
                0 <= i < config.rate_card@.len() ==> (#[trigger] config.rate_card@[i]).flow@.len()
                    > 0 && config.rate_card@[i].credits > 0
            &&& config.arc matches Some(arc) ==> {
                &&& 86_400 <= arc.epoch_secs
                &&& arc.grace_secs <= arc.epoch_secs
                &&& 2 <= arc.presentation_limit <= 4096
                &&& arc.credential_offers@.len() > 0
                &&& forall|i: int|
                    0 <= i < arc.credential_offers@.len() ==> (
                    #[trigger] arc.credential_offers@[i]).credits == arc.presentation_limit
                        && arc.credential_offers@[i].sat > 0
            }
            &&& forall|i: int|
                0 <= i < config.cors_origins@.len() ==> text::has_prefix(
                    (#[trigger] config.cors_origins@[i])@,
                    "https://"@,
                ) || text::has_prefix(config.cors_origins@[i]@, "http://localhost"@)
        },
{
    faultless_entries(config.mints@, |mint: String| mint_fault(mint@));
    faultless_entries(config.operator_pubkeys@, |key: String| operator_fault(key@));
    faultless_entries(config.rate_card@, |entry: RateCardEntry| entry_fault(entry));
    faultless_entries(config.cors_origins@, |origin: String| origin_fault(origin@));
    if let Some(arc) = config.arc {
        let limit = arc.presentation_limit;
        faultless_entries(
            arc.credential_offers@,
            |offer: CredentialOffer| offer_fault(limit, offer),
        );
    }
}

/// Of an accepted configuration every operator key is served.
pub proof fn accepted_operators_are_served(config: Config, gas: Result<(), String>)
    requires
        config.fault(gas) is None,
    ensures
        served_keys(text::texts(config.operator_pubkeys@)) == text::texts(
            config.operator_pubkeys@,
        ).map_values(|key: Seq<char>| encoding::hex_bytes(key)),
{
    accepted_configurations(config, gas);
    let all = text::texts(config.operator_pubkeys@);
    assert forall|i: int| 0 <= i < all.len() implies is_operator_key(#[trigger] all[i]) by {
        assert(all[i] == config.operator_pubkeys@[i]@);
    }
    all_keys_served(all);
}

proof fn all_keys_served(keys: Seq<Seq<char>>)
    requires
        forall|i: int| 0 <= i < keys.len() ==> is_operator_key(#[trigger] keys[i]),
    ensures
        served_keys(keys) == keys.map_values(|key: Seq<char>| encoding::hex_bytes(key)),
    decreases keys.len(),
{
    let mapped = keys.map_values(|key: Seq<char>| encoding::hex_bytes(key));
    if keys.len() > 0 {
        all_keys_served(keys.drop_last());
        assert(keys.last() == keys[keys.len() - 1]);
        assert(mapped.drop_last() == keys.drop_last().map_values(
            |key: Seq<char>| encoding::hex_bytes(key),
        ));
        assert(mapped == mapped.drop_last().push(encoding::hex_bytes(keys.last())));
    } else {
        assert(mapped == Seq::<Seq<u8>>::empty());
    }
}

/// What a seed file holds: the seed itself, or its hexadecimal text, which
/// white space may surround.
pub open spec fn seed_of(
    path: Seq<char>,
    raw: Result<Seq<u8>, Seq<char>>,
    len: nat,
) -> Result<Seq<u8>, Seq<char>> {
    match raw {
        Err(why) => Err("read "@ + path + ": "@ + why),
        Ok(bytes) => {
            let content = text::trimmed(decode_utf8(bytes));
            if bytes.len() == len {
                Ok(bytes)
            } else if !valid_utf8(bytes) || !encoding::is_hex(content) {
                Err(
                    path + " is neither "@ + text::decimal_text(len) + " raw bytes nor "@
                        + text::decimal_text(2 * len) + " hex characters"@,
                )
            } else if encoding::hex_bytes(content).len() != len {
                Err(
                    path + " decodes to "@ + text::decimal_text(encoding::hex_bytes(content).len())
                        + " bytes, expected "@ + text::decimal_text(len),
                )
            } else {
                Ok(encoding::hex_bytes(content))
            }
        },
    }
}

/// The model of the bytes of a file, or why it cannot be read.
pub open spec fn file_view(r: Result<Vec<u8>, String>) -> Result<Seq<u8>, Seq<char>> {
    match r {
        Ok(bytes) => Ok(bytes@),
        Err(why) => Err(why@),
    }
}

/// How a complaint about the size of a seed file reads.
fn seed_complaint(path: &str, len: usize) -> (r: String)
    ensures
        r@ == path@ + " is neither "@ + text::decimal_text(len as nat) + " raw bytes nor "@
            + text::decimal_text(2 * len as nat) + " hex characters"@,
{
    let mut m = text::joined3(path, " is neither ", text::decimal(len as u128).as_str());
    m.append(" raw bytes nor ");
    m.append(text::decimal(2 * len as u128).as_str());
    m.append(" hex characters");
    m
}

/// Read a secret seed file that holds either `len` raw bytes or `2*len` hex
/// characters (optionally newline-terminated). `raw` is what the file at
/// `path` holds, or why it cannot be read.
pub fn read_seed_file(path: &str, raw: Result<Vec<u8>, String>, len: usize) -> (r: Result<
    Vec<u8>,
    String,
>)
    ensures
        file_view(r) == seed_of(path@, file_view(raw), len as nat),
{
    let bytes = match raw {
        Ok(bytes) => bytes,
        Err(why) => {
            let mut m = text::joined3("read ", path, ": ");
            m.append(why.as_str());
            return Err(m);
        },
    };
    if bytes.len() == len {
        return Ok(bytes);
    }
    let content = match text::utf8(bytes.as_slice()) {
        Some(content) => content,
        None => return Err(seed_complaint(path, len)),
    };
    let decoded = match encoding::hex_decode(text::trim(content)) {
        Ok(decoded) => decoded,
        Err(_) => return Err(seed_complaint(path, len)),
    };
    if decoded.len() != len {
        let mut m = text::joined3(
            path,
            " decodes to ",
            text::decimal(decoded.len() as u128).as_str(),
        );
        m.append(" bytes, expected ");
        m.append(text::decimal(len as u128).as_str());
        return Err(m);
    }
    Ok(decoded)
}

/// The bytes of a text are at least as many as its characters.
proof fn bytes_cover_chars(s: Seq<char>)
    ensures
        encode_utf8(s).len() >= s.len(),
    decreases s.len(),
{
    if s.len() > 0 {
        bytes_cover_chars(s.drop_first());
    }
}

/// The hexadecimal text of a seed has no white space around it.
proof fn hex_text_is_trimmed(seed: Seq<u8>)
    requires
        seed.len() > 0,
    ensures
        text::trimmed(encoding::hex_text(seed)) == encoding::hex_text(seed),
        text::trimmed(encoding::hex_text(seed).push('\n')) == encoding::hex_text(seed),
{
    let hex = encoding::hex_text(seed);
    let line = hex.push('\n');
    let (first, last) = (hex[0], hex[hex.len() - 1]);
    assert(!text::is_white_space(first));
    assert(!text::is_white_space(last));
    assert(text::trimmed_start(hex) == hex);
    assert(text::trimmed_end(hex) == hex);
    assert(line[0] == first);
    assert(text::trimmed_start(line) == line);
    assert(line.last() == '\n');
    assert(line.drop_last() == hex);
}

/// A file whose text is the seed in hexadecimal, but for white space around
/// it, gives the seed.
proof fn seed_text_is_read(path: Seq<char>, seed: Seq<u8>, content: Seq<char>)
    requires
        seed.len() > 0,
        content.len() >= 2 * seed.len(),
        text::trimmed(content) == encoding::hex_text(seed),
    ensures
        seed_of(path, Ok(encode_utf8(content)), seed.len()) == Ok::<Seq<u8>, Seq<char>>(seed),
{
    encoding::hex_round_trip(seed);
    bytes_cover_chars(content);
    encode_utf8_valid_utf8(content);
    encode_utf8_decode_utf8(content);
}

/// A seed is read back from its raw bytes, and from its hexadecimal text with
/// or without a newline behind it.
pub proof fn seeds_are_read_back(path: Seq<char>, seed: Seq<u8>)
    requires
        seed.len() > 0,
    ensures
        seed_of(path, Ok(seed), seed.len()) == Ok::<Seq<u8>, Seq<char>>(seed),
        seed_of(path, Ok(encode_utf8(encoding::hex_text(seed))), seed.len()) == Ok::<
            Seq<u8>,
            Seq<char>,
        >(seed),
        seed_of(path, Ok(encode_utf8(encoding::hex_text(seed).push('\n'))), seed.len()) == Ok::<
            Seq<u8>,
            Seq<char>,
        >(seed),
{
    hex_text_is_trimmed(seed);
    seed_text_is_read(path, seed, encoding::hex_text(seed));
    seed_text_is_read(path, seed, encoding::hex_text(seed).push('\n'));
}

/// A pack of session grants on sale.
#[derive(Debug, PartialEq, Eq)]
pub struct Offer {
    pub credits: u32,
    pub amount: u64,
    pub unit: String,
}

/// The model of an [`Offer`].
pub struct OfferView {
    pub credits: u32,
    pub amount: u64,
    pub unit: Seq<char>,
}

impl View for Offer {
    type V = OfferView;

    open spec fn view(&self) -> OfferView {
        OfferView { credits: self.credits, amount: self.amount, unit: self.unit@ }
    }
}

impl Clone for Offer {
    fn clone(&self) -> (r: Self)
        ensures
            r@ == self@,
    {
        Offer { credits: self.credits, amount: self.amount, unit: self.unit.clone() }
    }
}

/// What the servers charge, in credits: per query-bearing frame, and per
/// HarmonyPIR hint set.
#[derive(Clone, Copy, Debug, PartialEq, Eq)]
pub struct Costs {
    pub frame: u64,
    pub hint_set: u64,
}

/// The terms on which session grants are sold.
#[derive(Debug, PartialEq, Eq)]
pub struct SessionTerms {
    pub offers: Vec<Offer>,
    pub costs: Costs,
}

/// The models of some offers.
pub open spec fn offers_view(offers: Seq<Offer>) -> Seq<OfferView> {
    offers.map_values(|offer: Offer| offer@)
}

impl SessionTerms {
    /// The offer on the list that equals `wanted`.
    pub fn find_offer(&self, wanted: &Offer) -> (r: Option<&Offer>)
        ensures
            match r {
                Some(offer) => offer@ == wanted@ && offers_view(self.offers@).contains(wanted@),
                None => !offers_view(self.offers@).contains(wanted@),
            },
    {
        let ghost all = offers_view(self.offers@);
        let mut i: usize = 0;
        while i < self.offers.len()
            invariant
                i <= self.offers.len(),
                all == offers_view(self.offers@),
                forall|j: int| 0 <= j < i ==> all[j] != wanted@,
            decreases self.offers.len() - i,
        {
            let offer = &self.offers[i];
            assert(all[i as int] == offer@);
            if offer.credits == wanted.credits && offer.amount == wanted.amount && offer.unit
                == wanted.unit {
                return Some(offer);
            }
            i += 1;
        }
        None
    }

    /// The units of the offers.
    pub open spec fn offer_units(&self) -> Seq<Seq<char>> {
        offers_view(self.offers@).map_values(|offer: OfferView| offer.unit)
    }

    /// The units of the offers, in order, each once.
    pub fn units(&self) -> (r: Vec<String>)
        ensures
            text::texts(r@) == cashu::in_order(self.offer_units()),
            cashu::strictly_ordered(text::texts(r@)),
            cashu::same_members(text::texts(r@), self.offer_units()),
    {
        let ghost want = self.offer_units();
        let mut all: Vec<String> = Vec::new();
        let mut i: usize = 0;
        while i < self.offers.len()
            invariant
                i <= self.offers.len(),
                want == self.offer_units(),
                text::texts(all@) == want.take(i as int),
            decreases self.offers.len() - i,
        {
            let ghost before = all@;
            all.push(self.offers[i].unit.clone());
            assert(text::texts(all@) == text::texts(before).push(self.offers@[i as int].unit@));
            assert(want.take(i + 1) == want.take(i as int).push(want[i as int]));
            i += 1;
        }
        assert(want.take(i as int) == want);
        cashu::sorted_distinct(all)
    }

    /// The units that a wallet is needed for: those of the offers, and sats,
    /// in which credits are priced; in order, each once.
    pub fn wallet_units(&self) -> (r: Vec<String>)
        ensures
            cashu::strictly_ordered(text::texts(r@)),
            forall|unit: Seq<char>| #[trigger]
                text::texts(r@).contains(unit) <==> self.offer_units().contains(unit) || unit
                    == "sat"@,
    {
        let mut all = self.units();
        let ghost before = text::texts(all@);
        all.push("sat".to_owned());
        let ghost longer = text::texts(all@);
        let r = cashu::sorted_distinct(all);
        proof {
            broadcast use vstd::seq_lib::lemma_seq_contains_after_push;

            assert(longer == before.push("sat"@));
            assert forall|unit: Seq<char>| #[trigger]
                text::texts(r@).contains(unit) <==> self.offer_units().contains(unit) || unit
                    == "sat"@ by {
                assert(text::texts(r@).contains(unit) <==> longer.contains(unit));
                assert(before.contains(unit) <==> self.offer_units().contains(unit));
            }
        }
        r
    }
}

/// Every mint on the list is served, wherever on the list it stands, and
/// however many slashes are put behind its URL.
pub proof fn listed_mints_are_served(config: Config, i: int, slashes: nat)
    requires
        0 <= i < config.mints@.len(),
        config.mints@[i]@.len() > 0 ==> config.mints@[i]@.last() != '/',
    ensures
        config.serves(config.mints@[i]@ + Seq::new(slashes, |k: int| '/')),
{
    let listed = text::texts(config.mints@);
    text::end_slashes_come_off(config.mints@[i]@, slashes);
    assert(listed[i] == config.mints@[i]@);
}

/// Only mints on the list are served: the URL of one that is served is one of
/// the list with some slashes behind it.
pub proof fn only_listed_mints_are_served(config: Config, mint: Seq<char>)
    requires
        config.serves(mint),
    ensures
        exists|i: int|
            0 <= i < config.mints@.len() && text::differs_in_end_slashes(
                mint,
                (#[trigger] config.mints@[i])@,
            ),
{
    let listed = text::texts(config.mints@);
    let bare = text::without_end_slashes(mint);
    let i = choose|i: int| 0 <= i < listed.len() && listed[i] == bare;
    text::only_end_slashes_come_off(mint);
    assert(config.mints@[i]@ == bare);
}

/// The order of the list of mints, and how often one stands on it, make no
/// difference.
pub proof fn mints_are_served_in_any_order(a: Config, b: Config, mint: Seq<char>)
    requires
        forall|i: int|
            0 <= i < a.mints@.len() ==> exists|j: int|
                0 <= j < b.mints@.len() && (#[trigger] b.mints@[j])@ == (#[trigger] a.mints@[i])@,
    ensures
        a.serves(mint) ==> b.serves(mint),
{
    if a.serves(mint) {
        let (x, y) = (text::texts(a.mints@), text::texts(b.mints@));
        let bare = text::without_end_slashes(mint);
        let i = choose|i: int| 0 <= i < x.len() && x[i] == bare;
        assert(a.mints@[i]@ == bare);
        let j = choose|j: int|
            0 <= j < b.mints@.len() && (#[trigger] b.mints@[j])@ == a.mints@[i]@;
        assert(y[j] == bare);
    }
}

/// An https URL is the scheme with something behind it.
pub proof fn https_urls_name_something(url: Seq<char>)
    ensures
        is_https(url) <==> exists|rest: Seq<char>|
            rest.len() > 0 && url == #[trigger] ("https://"@ + rest),
{
    text::prefixes_are_in_front(url, "https://"@);
    if is_https(url) {
        let rest = choose|rest: Seq<char>| url == #[trigger] ("https://"@ + rest);
        assert(rest.len() > 0);
    }
}

/// An operator key is given as 64 hexadecimal digits, of either case, of the
/// bytes of an Ed25519 key.
pub proof fn operator_keys_are_sixty_four_digits(key: Seq<char>)
    ensures
        is_operator_key(key) <==> {
            &&& key.len() == 64
            &&& forall|i: int|
                0 <= i < 64 ==> '0' <= #[trigger] key[i] <= '9' || 'a' <= key[i] <= 'f' || 'A'
                    <= key[i] <= 'F'
            &&& crypto::ed25519_is_key(
                Seq::new(
                    32,
                    |i: int|
                        (16 * encoding::hex_value(key[2 * i]) + encoding::hex_value(key[2 * i + 1]))
                            as u8,
                ),
            )
        },
{
    let bytes = Seq::new(
        32,
        |i: int|
            (16 * encoding::hex_value(key[2 * i]) + encoding::hex_value(key[2 * i + 1])) as u8,
    );
    if key.len() == 64 {
        assert(encoding::hex_bytes(key) == bytes);
        if encoding::is_hex(key) {
            assert forall|i: int| 0 <= i < 64 implies '0' <= #[trigger] key[i] <= '9' || 'a'
                <= key[i] <= 'f' || 'A' <= key[i] <= 'F' by {
                assert(encoding::hex_value(key[i]) >= 0);
            }
        }
    }
}

/// Every operator key of the configuration that is one is served, and nothing
/// else is.
pub proof fn configured_operators_are_served(keys: Seq<Seq<char>>, bytes: Seq<u8>)
    ensures
        served_keys(keys).contains(bytes) <==> exists|i: int|
            0 <= i < keys.len() && is_operator_key(#[trigger] keys[i]) && encoding::hex_bytes(
                keys[i],
            ) == bytes,
    decreases keys.len(),
{
    broadcast use vstd::seq_lib::lemma_seq_contains_after_push;

    if keys.len() > 0 {
        let shorter = keys.drop_last();
        let last = keys.len() - 1;
        configured_operators_are_served(shorter, bytes);
        if served_keys(shorter).contains(bytes) {
            let i = choose|i: int|
                0 <= i < shorter.len() && is_operator_key(#[trigger] shorter[i])
                    && encoding::hex_bytes(shorter[i]) == bytes;
            assert(keys[i] == shorter[i]);
        }
        if exists|i: int|
            0 <= i < keys.len() && is_operator_key(#[trigger] keys[i]) && encoding::hex_bytes(
                keys[i],
            ) == bytes {
            let i = choose|i: int|
                0 <= i < keys.len() && is_operator_key(#[trigger] keys[i]) && encoding::hex_bytes(
                    keys[i],
                ) == bytes;
            if i < last {
                assert(shorter[i] == keys[i]);
            }
        }
        if is_operator_key(keys.last()) && encoding::hex_bytes(keys.last()) == bytes {
            assert(keys[last] == keys.last());
        }
    }
}

/// The complaint about a configuration is about the first rule that it breaks,
/// in the order mints, gas, operators, clock tolerance, rate card, ARC table,
/// browser origins.
pub proof fn the_first_broken_rule_is_named(config: Config, gas: Result<(), String>)
    ensures
        ({
            let fault = config.fault(gas);
            let mints_kept = config.mints@.len() > 0 && forall|i: int|
                0 <= i < config.mints@.len() ==> mint_fault((#[trigger] config.mints@[i])@) is None;
            let operators_kept = forall|i: int|
                0 <= i < config.operator_pubkeys@.len() ==> is_operator_key(
                    (#[trigger] config.operator_pubkeys@[i])@,
                );
            let clock_kept = 1 <= config.redeem_max_skew_secs <= 3600;
            &&& config.mints@.len() == 0 ==> fault == Some("mints must list at least one mint"@)
            &&& config.mints@.len() > 0 && !mints_kept ==> exists|i: int|
                0 <= i < config.mints@.len() && mint_fault((#[trigger] config.mints@[i])@) is Some
                    && fault == mint_fault(config.mints@[i]@) && forall|j: int|
                    0 <= j < i ==> mint_fault((#[trigger] config.mints@[j])@) is None
            &&& mints_kept && gas is Err ==> fault == Some("gas: "@ + gas->Err_0@)
            &&& mints_kept && gas is Ok && operators_kept && !clock_kept ==> fault == Some(
                "redeem_max_skew_secs must be 1..=3600"@,
            )
        }),
{
    let named = |mint: String| mint_fault(mint@);
    faultless_entries(config.mints@, named);
    faultless_entries(config.operator_pubkeys@, |key: String| operator_fault(key@));
    if first_fault(config.mints@, named) is Some {
        first_entry_at_fault(config.mints@, named);
        let i = choose|i: int|
            0 <= i < config.mints@.len() && named(#[trigger] config.mints@[i]) is Some
                && first_fault(config.mints@, named) == named(config.mints@[i]) && forall|j: int|
                0 <= j < i ==> named(#[trigger] config.mints@[j]) is None;
        assert(mint_fault(config.mints@[i]@) == named(config.mints@[i]));
        assert forall|j: int| 0 <= j < i implies mint_fault(
            (#[trigger] config.mints@[j])@,
        ) is None by {
            assert(named(config.mints@[j]) is None);
        }
    }
}

proof fn first_entry_at_fault<T>(list: Seq<T>, fault: spec_fn(T) -> Option<Seq<char>>)
    requires
        first_fault(list, fault) is Some,
    ensures
        exists|i: int|
            0 <= i < list.len() && fault(#[trigger] list[i]) is Some && first_fault(list, fault)
                == fault(list[i]) && forall|j: int|
                0 <= j < i ==> fault(#[trigger] list[j]) is None,
    decreases list.len(),
{
    let shorter = list.drop_last();
    faultless_entries(shorter, fault);
    if first_fault(shorter, fault) is Some {
        first_entry_at_fault(shorter, fault);
        let i = choose|i: int|
            0 <= i < shorter.len() && fault(#[trigger] shorter[i]) is Some && first_fault(
                shorter,
                fault,
            ) == fault(shorter[i]) && forall|j: int|
                0 <= j < i ==> fault(#[trigger] shorter[j]) is None;
        assert(list[i] == shorter[i]);
        assert forall|j: int| 0 <= j < i implies fault(#[trigger] list[j]) is None by {
            assert(shorter[j] == list[j]);
        }
    } else {
        let last = list.len() - 1;
        assert forall|j: int| 0 <= j < last implies fault(#[trigger] list[j]) is None by {
            assert(shorter[j] == list[j]);
        }
        assert(fault(list[last]) is Some);
    }
}

/// What is read from a seed file is a seed of the wanted length: the bytes of
/// the file, or the bytes that its text stands for in hexadecimal, whatever
/// white space surrounds it. No other file gives a seed.
pub proof fn seed_files_hold_seeds(path: Seq<char>, raw: Seq<u8>, len: nat)
    ensures
        raw.len() == len ==> seed_of(path, Ok(raw), len) == Ok::<Seq<u8>, Seq<char>>(raw),
        seed_of(path, Ok(raw), len) matches Ok(seed) ==> {
            &&& seed.len() == len
            &&& raw == seed || {
                &&& valid_utf8(raw)
                &&& encoding::is_hex(text::trimmed(decode_utf8(raw)))
                &&& encoding::hex_bytes(text::trimmed(decode_utf8(raw))) == seed
            }
        },
{
}

/// A file whose text is twice as many hexadecimal digits as the seed has
/// bytes, of either case and with white space around them, gives the bytes
/// that the digits stand for.
pub proof fn seeds_in_any_hexadecimal_are_read(
    path: Seq<char>,
    front: Seq<char>,
    digits: Seq<char>,
    back: Seq<char>,
)
    requires
        digits.len() > 0,
        encoding::is_hex(digits),
        forall|i: int| 0 <= i < front.len() ==> text::is_white_space(#[trigger] front[i]),
        forall|i: int| 0 <= i < back.len() ==> text::is_white_space(#[trigger] back[i]),
    ensures
        seed_of(path, Ok(encode_utf8(front + digits + back)), digits.len() / 2) == Ok::<
            Seq<u8>,
            Seq<char>,
        >(encoding::hex_bytes(digits)),
{
    let content = front + digits + back;
    assert(encoding::hex_value(digits[0]) >= 0);
    assert(encoding::hex_value(digits[digits.len() - 1]) >= 0);
    text::white_space_comes_off(front, digits, back);
    bytes_cover_chars(content);
    encode_utf8_valid_utf8(content);
    encode_utf8_decode_utf8(content);
}

/// A file that cannot be read gives no seed, and says why.
pub proof fn unreadable_files_give_no_seed(path: Seq<char>, why: Seq<char>, len: nat)
    ensures
        seed_of(path, Err(why), len) == Err::<Seq<u8>, Seq<char>>("read "@ + path + ": "@ + why),
{
}

/// Gas is sold and published by the table of the configuration as it stands.
pub proof fn gas_parameters_are_those_of_the_table(gas: GasConfig)
    ensures
        gas.spec_params().credit_sat == gas.credit_sat,
        gas.spec_params().gas_per_credit == gas.gas_per_credit,
        gas.spec_params().base_gas_per_frame == gas.base_gas_per_frame,
        gas.spec_params().egress_gas_per_mb == gas.egress_gas_per_mb,
{
}

/// What is wrong with the configuration is told in one sentence: the file, or
/// the rule that is broken.
pub proof fn configuration_faults_are_told(path: String, why: String)
    ensures
        ConfigError::Read(path, why).text() == "read "@ + path@ + ": "@ + why@,
        ConfigError::Parse(path, why).text() == "parse "@ + path@ + ": "@ + why@,
        ConfigError::Invalid(why).text() == why@,
{
}

/// The rule that an entry breaks is told with the entry.
pub proof fn entries_at_fault_are_named(
    mint: Seq<char>,
    key: Seq<char>,
    origin: Seq<char>,
    entry: RateCardEntry,
    limit: u32,
    offer: CredentialOffer,
)
    ensures
        mint_fault(mint) matches Some(m) ==> m == "mint is not an https URL: "@ + mint || m
            == "mint URL must not end with a slash (tokens carry it without one): "@ + mint,
        operator_fault(key) matches Some(m) ==> m == "operator_pubkeys: "@ + text::debug_text(key)
            + " is not hex"@ || m == "operator_pubkeys: "@ + text::debug_text(key)
            + " is not 32 bytes"@ || m == "operator_pubkeys: "@ + text::debug_text(key)
            + " is not an Ed25519 key"@,
        origin_fault(origin) matches Some(m) ==> m == "cors origin is not https: "@ + origin,
        entry_fault(entry) matches Some(m) ==> m
            == "rate_card entry has an empty field: RateCardEntry { flow: "@ + text::debug_text(
            entry.flow@,
        ) + ", credits: "@ + text::decimal_text(entry.credits as nat) + " }"@,
        offer_fault(limit, offer) matches Some(m) ==> m == "arc credential offer must sell exactly "@
            + text::decimal_text(limit as nat)
            + " credits for a positive price: CredentialOffer { credits: "@ + text::decimal_text(
            offer.credits as nat,
        ) + ", sat: "@ + text::decimal_text(offer.sat as nat) + " }"@,
{
}

} // verus!
