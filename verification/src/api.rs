//! What the HTTP interface answers: contract error codes and the service
//! descriptions.

use vstd::prelude::*;

use crate::arc;
use crate::arc::{ArcIssuer, ArcKeys};
use crate::config;
use crate::config::{Config, Costs, CredentialOffer, Offer, RateCardEntry, SessionTerms};
use crate::credit;
use crate::credit::{ArcInfoV2, OfferV2, RateCardEntryV2};
use crate::crypto;
use crate::encoding;
use crate::grant::Issuer;
use crate::issuer_key::IssuerKey;
use crate::text;

pub use crate::purchase::GrantRequest;

verus! {

/// What the cashier decides by: the configuration, the key that signs redeem
/// answers, the ARC issuer if there is one, and the operator keys whose
/// certified servers may redeem.
pub struct AppState {
    pub config: Config,
    pub issuer: IssuerKey,
    pub arc: Option<ArcIssuer>,
    pub operator_keys: Vec<[u8; 32]>,
}

impl AppState {
    /// A credit has a price, and an epoch has a length.
    pub open spec fn wf(&self) -> bool {
        &&& self.config.gas.credit_sat > 0
        &&& self.arc matches Some(arc) ==> arc.epoch_length() > 0
    }
}

/// The body of an error answer.
#[derive(Debug, PartialEq, Eq)]
pub struct ErrorBody {
    pub error: &'static str,
    pub message: String,
}

/// An error answer: the HTTP status and the body.
#[derive(Debug, PartialEq, Eq)]
pub struct ApiError {
    pub status: u16,
    pub body: ErrorBody,
}

/// The model of an [`ApiError`].
pub struct ApiErrorView {
    pub status: u16,
    pub error: Seq<char>,
    pub message: Seq<char>,
}

impl View for ApiError {
    type V = ApiErrorView;

    open spec fn view(&self) -> ApiErrorView {
        ApiErrorView {
            status: self.status,
            error: self.body.error@,
            message: self.body.message@,
        }
    }
}

impl ApiErrorView {
    pub open spec fn invalid_request(message: Seq<char>) -> Self {
        ApiErrorView { status: 400, error: "invalid_request"@, message }
    }

    pub open spec fn wrong_amount(message: Seq<char>) -> Self {
        ApiErrorView { status: 400, error: "wrong_amount"@, message }
    }

    pub open spec fn mint_not_accepted(message: Seq<char>) -> Self {
        ApiErrorView { status: 400, error: "mint_not_accepted"@, message }
    }

    pub open spec fn token_rejected(message: Seq<char>) -> Self {
        ApiErrorView { status: 402, error: "token_rejected"@, message }
    }

    pub open spec fn mint_unavailable(message: Seq<char>) -> Self {
        ApiErrorView { status: 503, error: "mint_unavailable"@, message }
    }

    pub open spec fn internal(message: Seq<char>) -> Self {
        ApiErrorView { status: 500, error: "internal"@, message }
    }

    pub open spec fn unauthorized(message: Seq<char>) -> Self {
        ApiErrorView { status: 401, error: "unauthorized"@, message }
    }

    pub open spec fn unsupported_kind(message: Seq<char>) -> Self {
        ApiErrorView { status: 400, error: "unsupported_kind"@, message }
    }

    pub open spec fn already_redeemed(message: Seq<char>) -> Self {
        ApiErrorView { status: 402, error: "already_redeemed"@, message }
    }

    pub open spec fn double_spend(message: Seq<char>) -> Self {
        ApiErrorView { status: 402, error: "double_spend"@, message }
    }

    pub open spec fn expired_epoch(message: Seq<char>) -> Self {
        ApiErrorView { status: 402, error: "expired_epoch"@, message }
    }
}

impl ApiError {
    fn new(status: u16, error: &'static str, message: String) -> (r: Self)
        ensures
            r@ == (ApiErrorView { status, error: error@, message: message@ }),
    {
        ApiError { status, body: ErrorBody { error, message } }
    }

    /// The request cannot be understood or does not fit the contract.
    pub fn invalid_request(message: String) -> (r: Self)
        ensures
            r@ == ApiErrorView::invalid_request(message@),
    {
        ApiError::new(400, "invalid_request", message)
    }

    /// The token is not worth what was asked.
    pub fn wrong_amount(message: String) -> (r: Self)
        ensures
            r@ == ApiErrorView::wrong_amount(message@),
    {
        ApiError::new(400, "wrong_amount", message)
    }

    /// The token's mint is not accepted.
    pub fn mint_not_accepted(message: String) -> (r: Self)
        ensures
            r@ == ApiErrorView::mint_not_accepted(message@),
    {
        ApiError::new(400, "mint_not_accepted", message)
    }

    /// The mint refused the token.
    pub fn token_rejected(message: String) -> (r: Self)
        ensures
            r@ == ApiErrorView::token_rejected(message@),
    {
        ApiError::new(402, "token_rejected", message)
    }

    /// The mint could not be reached, or its answer is unknown.
    pub fn mint_unavailable(message: String) -> (r: Self)
        ensures
            r@ == ApiErrorView::mint_unavailable(message@),
    {
        ApiError::new(503, "mint_unavailable", message)
    }

    /// The cashier itself failed.
    pub fn internal(message: String) -> (r: Self)
        ensures
            r@ == ApiErrorView::internal(message@),
    {
        ApiError::new(500, "internal", message)
    }

    /// The server that asks is not certified to.
    pub fn unauthorized(message: String) -> (r: Self)
        ensures
            r@ == ApiErrorView::unauthorized(message@),
    {
        ApiError::new(401, "unauthorized", message)
    }

    /// The kind of what was presented is not accepted here.
    pub fn unsupported_kind(message: String) -> (r: Self)
        ensures
            r@ == ApiErrorView::unsupported_kind(message@),
    {
        ApiError::new(400, "unsupported_kind", message)
    }

    /// The token was spent here before.
    pub fn already_redeemed(message: String) -> (r: Self)
        ensures
            r@ == ApiErrorView::already_redeemed(message@),
    {
        ApiError::new(402, "already_redeemed", message)
    }

    /// A presentation was spent here before.
    pub fn double_spend(message: String) -> (r: Self)
        ensures
            r@ == ApiErrorView::double_spend(message@),
    {
        ApiError::new(402, "double_spend", message)
    }

    /// The presentations belong to an epoch that does not count now.
    pub fn expired_epoch(message: String) -> (r: Self)
        ensures
            r@ == ApiErrorView::expired_epoch(message@),
    {
        ApiError::new(402, "expired_epoch", message)
    }
}

/// Tokens are a few kilobytes; anything larger is not a purchase.
pub const MAX_BODY_BYTES: usize = 65_536;

/// The answer to a body that cannot be read.
pub fn malformed_body(why: &str) -> (r: ApiError)
    ensures
        r@ == ApiErrorView::invalid_request("body: "@ + why@),
{
    ApiError::invalid_request(text::joined("body: ", why))
}

/// What `GET /v1/info` answers.
#[derive(Debug, PartialEq, Eq)]
pub struct InfoResponse {
    pub service: &'static str,
    pub version: u32,
    pub cashier_pubkey_hex: String,
    pub mints: Vec<String>,
    pub offers: Vec<Offer>,
    pub grant_ttl_secs: u64,
    pub costs: Costs,
}

/// A copy of some offers.
fn copy_offers(offers: &Vec<Offer>) -> (r: Vec<Offer>)
    ensures
        config::offers_view(r@) == config::offers_view(offers@),
{
    let ghost all = config::offers_view(offers@);
    let mut r: Vec<Offer> = Vec::new();
    let mut i: usize = 0;
    while i < offers.len()
        invariant
            i <= offers.len(),
            all == config::offers_view(offers@),
            config::offers_view(r@) == all.take(i as int),
        decreases offers.len() - i,
    {
        let ghost before = r@;
        let offer = offers[i].clone();
        r.push(offer);
        assert(config::offers_view(r@) == config::offers_view(before).push(offer@));
        assert(all.take(i + 1) == all.take(i as int).push(all[i as int]));
        i += 1;
    }
    assert(all.take(i as int) == all);
    r
}

/// `GET /v1/info`: the key to pin, the accepted mints, and the terms on which
/// session grants are sold.
pub fn info(config: &Config, terms: &SessionTerms, issuer: &Issuer) -> (r: InfoResponse)
    ensures
        r.service@ == "bitcoinpir-cashier"@,
        r.version == 1,
        r.cashier_pubkey_hex@ == encoding::hex_text(crypto::ed25519_public_key(issuer.seed())),
        text::texts(r.mints@) == text::texts(config.mints@),
        config::offers_view(r.offers@) == config::offers_view(terms.offers@),
        r.grant_ttl_secs == issuer.ttl(),
        r.costs == terms.costs,
{
    InfoResponse {
        service: "bitcoinpir-cashier",
        version: 1,
        cashier_pubkey_hex: issuer.public_key_hex(),
        mints: text::copy_texts(&config.mints),
        offers: copy_offers(&terms.offers),
        grant_ttl_secs: issuer.ttl_secs(),
        costs: terms.costs,
    }
}

/// What `GET /v2/info` answers.
#[derive(Debug, PartialEq, Eq)]
pub struct IssuerInfoV2 {
    pub service: String,
    pub version: u32,
    pub credit_sat: u64,
    pub gas_per_credit: u64,
    pub base_gas_per_frame: u64,
    pub egress_gas_per_mb: u64,
    pub mints: Vec<String>,
    pub offers: Vec<OfferV2>,
    pub arc: Option<ArcInfoV2>,
    pub rate_card: Vec<RateCardEntryV2>,
}

/// The packs on sale.
pub open spec fn packs(config: Config) -> Seq<OfferV2> {
    match config.arc {
        Some(arc) => arc.credential_offers@.map_values(
            |offer: CredentialOffer| OfferV2 { credits: offer.credits, sat: offer.sat },
        ),
        None => Seq::empty(),
    }
}

/// The model of a published rate card.
pub open spec fn published_card(card: Seq<RateCardEntryV2>) -> Seq<(Seq<char>, u64)> {
    card.map_values(|entry: RateCardEntryV2| (entry.flow@, entry.credits))
}

/// Whether an answer to `GET /v2/info` publishes a configuration: the gas
/// parameters, the mints, the packs on sale and the rate card.
pub open spec fn publishes(r: IssuerInfoV2, config: Config) -> bool {
    &&& r.service@ == "bitcoinpir-cashier"@
    &&& r.version == 2
    &&& r.credit_sat == config.gas.credit_sat
    &&& r.gas_per_credit == config.gas.gas_per_credit
    &&& r.base_gas_per_frame == config.gas.base_gas_per_frame
    &&& r.egress_gas_per_mb == config.gas.egress_gas_per_mb
    &&& text::texts(r.mints@) == text::texts(config.mints@)
    &&& r.offers@ == packs(config)
    &&& published_card(r.rate_card@) == config::rate_card_view(config.rate_card@)
}

/// The packs on sale.
fn list_packs(config: &Config) -> (r: Vec<OfferV2>)
    ensures
        r@ == packs(*config),
{
    let mut r: Vec<OfferV2> = Vec::new();
    if let Some(arc) = &config.arc {
        let mut i: usize = 0;
        while i < arc.credential_offers.len()
            invariant
                i <= arc.credential_offers.len(),
                config.arc == Some(*arc),
                r@ == packs(*config).take(i as int),
            decreases arc.credential_offers.len() - i,
        {
            let offer = arc.credential_offers[i];
            r.push(OfferV2 { credits: offer.credits, sat: offer.sat });
            assert(packs(*config).take(i + 1) == packs(*config).take(i as int).push(
                packs(*config)[i as int],
            ));
            i += 1;
        }
        assert(packs(*config).take(i as int) == packs(*config));
    }
    r
}

/// The rate card as it is published.
fn publish_card(card: &Vec<RateCardEntry>) -> (r: Vec<RateCardEntryV2>)
    ensures
        published_card(r@) == config::rate_card_view(card@),
{
    let ghost all = config::rate_card_view(card@);
    let mut r: Vec<RateCardEntryV2> = Vec::new();
    let mut i: usize = 0;
    while i < card.len()
        invariant
            i <= card.len(),
            all == config::rate_card_view(card@),
            published_card(r@) == all.take(i as int),
        decreases card.len() - i,
    {
        let ghost before = r@;
        let entry = &card[i];
        r.push(RateCardEntryV2 { flow: entry.flow.clone(), credits: entry.credits });
        assert(published_card(r@) == published_card(before).push((entry.flow@, entry.credits)));
        assert(all.take(i + 1) == all.take(i as int).push(all[i as int]));
        i += 1;
    }
    assert(all.take(i as int) == all);
    r
}

/// Publish a configuration, with the description of the current ARC epoch.
pub fn describe(config: &Config, arc: Option<ArcInfoV2>) -> (r: IssuerInfoV2)
    ensures
        publishes(r, *config),
        r.arc == arc,
{
    let gas = config.gas.params();
    IssuerInfoV2 {
        service: "bitcoinpir-cashier".to_owned(),
        version: credit::ISSUER_API_VERSION,
        credit_sat: gas.credit_sat,
        gas_per_credit: gas.gas_per_credit,
        base_gas_per_frame: gas.base_gas_per_frame,
        egress_gas_per_mb: gas.egress_gas_per_mb,
        mints: text::copy_texts(&config.mints),
        offers: list_packs(config),
        arc,
        rate_card: publish_card(&config.rate_card),
    }
}

/// `GET /v2/info`: the credits contract parameters, the packs on sale, the
/// current ARC epoch, and the informational rate card. The functions are
/// those that [`ArcIssuer::info`] takes.
pub fn info_v2<
    F: Fn([u8; 32]) -> Option<[u8; 32]>,
    P: Fn(ArcKeys) -> Vec<u8>,
    C: Fn(u32) -> Vec<u8>,
>(state: &AppState, now: u64, scalar: F, public: P, context: C) -> (r: IssuerInfoV2)
    requires
        state.wf(),
        forall|block: [u8; 32]| scalar.requires((block,)),
        forall|keys: ArcKeys| public.requires((keys,)),
        forall|epoch: u32| context.requires((epoch,)),
    ensures
        publishes(r, state.config),
        match state.arc {
            None => r.arc is None,
            Some(issuer) => match r.arc {
                Some(info) => issuer.info_published(now, scalar, public, context, info),
                None => arc::keyless(
                    scalar,
                    issuer.seed(),
                    credit::epoch_of(now, issuer.epoch_length()),
                ),
            },
        },
{
    let section = match &state.arc {
        Some(issuer) => issuer.info(now, scalar, public, context),
        None => None,
    };
    describe(&state.config, section)
}

/// What is published is what the cashier goes by: every mint that is published
/// is accepted, the gas parameters are those that gas is sold by, and the packs
/// and the rate card are those of the configuration, line for line.
pub proof fn the_configuration_is_published(r: IssuerInfoV2, config: Config, i: int)
    requires
        publishes(r, config),
    ensures
        r.mints@.len() == config.mints@.len(),
        0 <= i < r.mints@.len() ==> r.mints@[i]@ == config.mints@[i]@,
        0 <= i < r.mints@.len() && (r.mints@[i]@.len() > 0 ==> r.mints@[i]@.last() != '/')
            ==> config.serves(r.mints@[i]@),
        r.credit_sat == config.gas.spec_params().credit_sat,
        r.gas_per_credit == config.gas.spec_params().gas_per_credit,
        r.base_gas_per_frame == config.gas.spec_params().base_gas_per_frame,
        r.egress_gas_per_mb == config.gas.spec_params().egress_gas_per_mb,
        config.arc is None ==> r.offers@.len() == 0,
        config.arc matches Some(table) ==> {
            &&& r.offers@.len() == table.credential_offers@.len()
            &&& 0 <= i < r.offers@.len() ==> r.offers@[i].credits
                == table.credential_offers@[i].credits && r.offers@[i].sat
                == table.credential_offers@[i].sat
        },
        r.rate_card@.len() == config.rate_card@.len(),
        0 <= i < r.rate_card@.len() ==> r.rate_card@[i].flow@ == config.rate_card@[i].flow@
            && r.rate_card@[i].credits == config.rate_card@[i].credits,
        r.service@ == "bitcoinpir-cashier"@,
        r.version == 2,
{
    let (a, b) = (text::texts(r.mints@), text::texts(config.mints@));
    assert(a.len() == r.mints@.len() && b.len() == config.mints@.len());
    if 0 <= i < r.mints@.len() {
        assert(a[i] == r.mints@[i]@ && b[i] == config.mints@[i]@);
        if r.mints@[i]@.len() > 0 ==> r.mints@[i]@.last() != '/' {
            config::listed_mints_are_served(config, i, 0);
            assert(config.mints@[i]@ + Seq::new(0, |k: int| '/') == config.mints@[i]@);
        }
    }
    let (x, y) = (published_card(r.rate_card@), config::rate_card_view(config.rate_card@));
    assert(x.len() == r.rate_card@.len() && y.len() == config.rate_card@.len());
    if 0 <= i < r.rate_card@.len() {
        assert(x[i] == (r.rate_card@[i].flow@, r.rate_card@[i].credits));
        assert(y[i] == (config.rate_card@[i].flow@, config.rate_card@[i].credits));
    }
}

/// Each refusal has the HTTP status and the code of the contract, and carries
/// its message.
pub proof fn refusals_have_their_codes(m: Seq<char>)
    ensures
        ApiErrorView::invalid_request(m) == (ApiErrorView {
            status: 400,
            error: "invalid_request"@,
            message: m,
        }),
        ApiErrorView::wrong_amount(m) == (ApiErrorView {
            status: 400,
            error: "wrong_amount"@,
            message: m,
        }),
        ApiErrorView::mint_not_accepted(m) == (ApiErrorView {
            status: 400,
            error: "mint_not_accepted"@,
            message: m,
        }),
        ApiErrorView::unsupported_kind(m) == (ApiErrorView {
            status: 400,
            error: "unsupported_kind"@,
            message: m,
        }),
        ApiErrorView::unauthorized(m) == (ApiErrorView {
            status: 401,
            error: "unauthorized"@,
            message: m,
        }),
        ApiErrorView::token_rejected(m) == (ApiErrorView {
            status: 402,
            error: "token_rejected"@,
            message: m,
        }),
        ApiErrorView::already_redeemed(m) == (ApiErrorView {
            status: 402,
            error: "already_redeemed"@,
            message: m,
        }),
        ApiErrorView::double_spend(m) == (ApiErrorView {
            status: 402,
            error: "double_spend"@,
            message: m,
        }),
        ApiErrorView::expired_epoch(m) == (ApiErrorView {
            status: 402,
            error: "expired_epoch"@,
            message: m,
        }),
        ApiErrorView::internal(m) == (ApiErrorView {
            status: 500,
            error: "internal"@,
            message: m,
        }),
        ApiErrorView::mint_unavailable(m) == (ApiErrorView {
            status: 503,
            error: "mint_unavailable"@,
            message: m,
        }),
{
}

} // verus!
