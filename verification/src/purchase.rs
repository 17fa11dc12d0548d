//! Selling for a token: session grants (`POST /v1/grants`) and ARC
//! credentials (`POST /v2/credentials`).
//!
//! A purchase takes the token, has the goods made once the mint credited it,
//! records what the token bought, and only then hands the goods out. A token
//! that bought the same goods before is given them again, without the mint.

use vstd::prelude::*;

use crate::api::{ApiError, ApiErrorView, AppState};
use crate::arc::{ArcError, ArcErrorView};
use crate::cashu;
use crate::cashu::{
    SwapError, SwapErrorView, TokenParseError, TokenParseErrorView, TokenSummary, TokenSummaryView,
};
use crate::config;
use crate::config::{Config, CredentialOffer, Offer, OfferView, SessionTerms};
use crate::credit;
use crate::credit::{CredentialRequestV2, CredentialResponseV2, CredentialResponseView};
use crate::encoding;
use crate::grant;
use crate::grant::{GrantTerms, GrantTermsView, IssuedGrant, IssuedGrantView};
use crate::payment;
use crate::payment::{
    Payment, PaymentAction, PaymentActionView, PaymentReply, PaymentReplyView, PaymentView, Refusal,
    RefusalView, StageView,
};
use crate::settlement;
use crate::store::{Event, EventView, State, StateView, Store};
use crate::text;

verus! {

/// What `POST /v1/grants` takes: an offer, and a token that pays for it.
#[derive(Debug, PartialEq, Eq)]
pub struct GrantRequest {
    pub offer: Offer,
    pub token: String,
}

/// What a token buys.
#[derive(Debug, PartialEq, Eq)]
pub enum Goods {
    /// A session grant on these terms.
    Grant(GrantTerms),
    /// An ARC credential under an epoch, with so many presentations, for a
    /// blinded request.
    Credential { epoch: u32, limit: u32, request: Vec<u8> },
}

/// The model of [`Goods`].
pub enum GoodsView {
    Grant(GrantTermsView),
    Credential { epoch: u32, limit: u32, request: Seq<u8> },
}

impl View for Goods {
    type V = GoodsView;

    open spec fn view(&self) -> GoodsView {
        match self {
            Goods::Grant(terms) => GoodsView::Grant(terms@),
            Goods::Credential { epoch, limit, request } => GoodsView::Credential {
                epoch: *epoch,
                limit: *limit,
                request: request@,
            },
        }
    }
}

/// How far a purchase is.
#[derive(Debug, PartialEq, Eq)]
pub enum PurchasePhase {
    /// The token is being taken.
    Paying(Payment, Goods),
    /// The token was taken, and the goods are being made.
    Making { key_hex: String, received: u64, mint: String, unit: String, goods: Goods },
    /// What the token bought is being appended to the token log.
    Booking { key_hex: String, state: State },
    /// Nothing more is asked for.
    Done,
}

/// The model of a [`Purchase`].
pub enum PurchaseView {
    Paying(PaymentView, GoodsView),
    Making {
        key_hex: Seq<char>,
        received: u64,
        mint: Seq<char>,
        unit: Seq<char>,
        goods: GoodsView,
    },
    Booking { key_hex: Seq<char>, state: StateView },
    Done,
}

/// A purchase under way.
pub struct Purchase {
    phase: PurchasePhase,
}

impl View for Purchase {
    type V = PurchaseView;

    closed spec fn view(&self) -> PurchaseView {
        match self.phase {
            PurchasePhase::Paying(payment, goods) => PurchaseView::Paying(payment@, goods@),
            PurchasePhase::Making { key_hex, received, mint, unit, goods } => {
                PurchaseView::Making {
                    key_hex: key_hex@,
                    received,
                    mint: mint@,
                    unit: unit@,
                    goods: goods@,
                }
            },
            PurchasePhase::Booking { key_hex, state } => PurchaseView::Booking {
                key_hex: key_hex@,
                state: state@,
            },
            PurchasePhase::Done => PurchaseView::Done,
        }
    }
}

/// What a purchase asks for.
#[derive(Debug, PartialEq, Eq)]
pub enum PurchaseAction {
    /// Append this event to the token log.
    Record(Event),
    /// Swap the token: its summary, and its text.
    Swap(TokenSummary, String),
    /// Encode and sign a grant on these terms.
    Sign(GrantTerms),
    /// Answer a blinded credential request under an epoch.
    Issue(u32, Vec<u8>),
    /// Hand out a grant.
    AnswerGrant(IssuedGrant),
    /// Hand out a credential.
    AnswerCredential(CredentialResponseV2),
    /// Refuse the request.
    Refuse(Refusal),
}

/// The model of a [`PurchaseAction`].
pub enum PurchaseActionView {
    Record(EventView),
    Swap(TokenSummaryView, Seq<char>),
    Sign(GrantTermsView),
    Issue(u32, Seq<u8>),
    AnswerGrant(IssuedGrantView),
    AnswerCredential(CredentialResponseView),
    Refuse(RefusalView),
}

impl View for PurchaseAction {
    type V = PurchaseActionView;

    open spec fn view(&self) -> PurchaseActionView {
        match self {
            PurchaseAction::Record(event) => PurchaseActionView::Record(event@),
            PurchaseAction::Swap(summary, encoded) => PurchaseActionView::Swap(summary@, encoded@),
            PurchaseAction::Sign(terms) => PurchaseActionView::Sign(terms@),
            PurchaseAction::Issue(epoch, request) => PurchaseActionView::Issue(*epoch, request@),
            PurchaseAction::AnswerGrant(grant) => PurchaseActionView::AnswerGrant(grant@),
            PurchaseAction::AnswerCredential(response) => PurchaseActionView::AnswerCredential(
                response@,
            ),
            PurchaseAction::Refuse(refusal) => PurchaseActionView::Refuse(refusal@),
        }
    }
}

/// How what a purchase asked for went.
#[derive(Debug, PartialEq, Eq)]
pub enum PurchaseReply {
    /// The event was appended, or why it was not.
    Recorded(Result<(), String>),
    /// The mint credited an amount, or why it did not.
    Swapped(Result<u64, SwapError>),
    /// The encoded, signed grant, or why there is none.
    Signed(Result<[u8; 133], String>),
    /// The epoch's public key in hexadecimal with the answer to the
    /// credential request, or why there is none.
    Issued(Result<(String, Vec<u8>), ArcError>),
}

/// The model of a [`PurchaseReply`].
pub enum PurchaseReplyView {
    Recorded(Result<(), Seq<char>>),
    Swapped(Result<u64, SwapErrorView>),
    Signed(Result<Seq<u8>, Seq<char>>),
    Issued(Result<(Seq<char>, Seq<u8>), ArcErrorView>),
}

impl View for PurchaseReply {
    type V = PurchaseReplyView;

    open spec fn view(&self) -> PurchaseReplyView {
        match self {
            PurchaseReply::Recorded(r) => PurchaseReplyView::Recorded(payment::recorded_view(*r)),
            PurchaseReply::Swapped(r) => PurchaseReplyView::Swapped(cashu::swap_view(*r)),
            PurchaseReply::Signed(r) => PurchaseReplyView::Signed(
                match r {
                    Ok(bytes) => Ok(bytes@),
                    Err(why) => Err(why@),
                },
            ),
            PurchaseReply::Issued(r) => PurchaseReplyView::Issued(
                match r {
                    Ok((public_key_hex, response)) => Ok((public_key_hex@, response@)),
                    Err(e) => Err(e@),
                },
            ),
        }
    }
}

/// The request is refused.
pub open spec fn turned_down(error: ApiErrorView) -> (PurchaseView, PurchaseActionView) {
    (PurchaseView::Done, PurchaseActionView::Refuse(RefusalView::plain(error)))
}

/// How a token that does not cost what was asked is turned down.
pub open spec fn wrong_price(
    summary: TokenSummaryView,
    amount: u64,
    unit: Seq<char>,
) -> ApiErrorView {
    ApiErrorView::wrong_amount(
        "token is worth "@ + text::decimal_text(summary.amount as nat) + " "@ + summary.unit
            + ", offer costs "@ + text::decimal_text(amount as nat) + " "@ + unit,
    )
}

/// How a token is taken for some goods. Where an earlier attempt left its
/// outcome unknown, its marker is in the log already.
pub open spec fn taken_for(
    states: Map<Seq<char>, StateView>,
    summary: TokenSummaryView,
    encoded: Seq<char>,
    now: u64,
    goods: GoodsView,
) -> (PurchaseView, PurchaseActionView) {
    let key_hex = payment::log_key(summary.secrets);
    let payment = PaymentView {
        key_hex,
        summary,
        encoded,
        now,
        stage: if states.contains_key(key_hex) && states[key_hex] is Pending {
            StageView::Swapping { unknown_before: true }
        } else {
            StageView::Marking
        },
    };
    PurchaseView::Paying(payment, goods).passed_on(payment.first_action())
}

/// What an order for a listed pack of session grants leads to, given what the
/// token's text parses to. A token whose grant is still valid is given that
/// grant again; any other is taken, and the mint says whether it is good.
pub open spec fn grant_ordered(
    config: Config,
    states: Map<Seq<char>, StateView>,
    offer: OfferView,
    ttl_secs: u64,
    encoded: Seq<char>,
    parsed: Result<TokenSummaryView, TokenParseErrorView>,
    now: u64,
) -> (PurchaseView, PurchaseActionView) {
    match payment::token_accepted(config, parsed) {
        Err(e) => turned_down(e),
        Ok(summary) => {
            let key_hex = payment::log_key(summary.secrets);
            if summary.unit != offer.unit || summary.amount != offer.amount {
                turned_down(wrong_price(summary, offer.amount, offer.unit))
            } else if states.contains_key(key_hex) && states[key_hex] is Issued
                && states[key_hex]->grant.expires_at > now {
                let grant = states[key_hex]->grant;
                if grant.credits == offer.credits {
                    (PurchaseView::Done, PurchaseActionView::AnswerGrant(grant))
                } else {
                    turned_down(
                        ApiErrorView::invalid_request(
                            "this token already bought a different pack; the original grant stands"@,
                        ),
                    )
                }
            } else {
                taken_for(
                    states,
                    summary,
                    encoded,
                    now,
                    GoodsView::Grant(
                        grant::terms_of(
                            cashu::key_of(summary.secrets),
                            offer.credits,
                            now,
                            ttl_secs,
                        ),
                    ),
                )
            }
        },
    }
}

/// How a purchase of session grants begins.
pub open spec fn grant_begun(
    config: Config,
    terms: SessionTerms,
    states: Map<Seq<char>, StateView>,
    ttl_secs: u64,
    request: GrantRequest,
    now: u64,
) -> (PurchaseView, PurchaseActionView) {
    let encoded = text::trimmed(request.token@);
    if !config::offers_view(terms.offers@).contains(request.offer@) {
        turned_down(ApiErrorView::invalid_request("unknown offer"@))
    } else {
        grant_ordered(
            config,
            states,
            request.offer@,
            ttl_secs,
            encoded,
            cashu::summarized(cashu::cashu_token(text::trimmed(encoded))),
            now,
        )
    }
}

/// What an order for a listed pack of credits leads to, given what the
/// token's text parses to. A token that bought a credential for the same
/// blinded request is given it again.
pub open spec fn credential_ordered(
    config: Config,
    states: Map<Seq<char>, StateView>,
    sat: u64,
    epoch: u32,
    limit: u32,
    blinded: Seq<u8>,
    encoded: Seq<char>,
    parsed: Result<TokenSummaryView, TokenParseErrorView>,
    now: u64,
) -> (PurchaseView, PurchaseActionView) {
    match payment::token_accepted(config, parsed) {
        Err(e) => turned_down(e),
        Ok(summary) => {
            let key_hex = payment::log_key(summary.secrets);
            if summary.unit != "sat"@ || summary.amount != sat {
                turned_down(wrong_price(summary, sat, "sat"@))
            } else if states.contains_key(key_hex) && states[key_hex] is Credential {
                if states[key_hex]->request_hex == encoding::hex_text(blinded) {
                    (
                        PurchaseView::Done,
                        PurchaseActionView::AnswerCredential(states[key_hex]->response),
                    )
                } else {
                    turned_down(
                        ApiErrorView::invalid_request(
                            "this token already bought a credential for another request"@,
                        ),
                    )
                }
            } else if states.contains_key(key_hex) && (states[key_hex] is Issued
                || states[key_hex] is Redeemed) {
                (
                    PurchaseView::Done,
                    PurchaseActionView::Refuse(
                        settlement::taken_before(key_hex, states[key_hex]),
                    ),
                )
            } else {
                taken_for(
                    states,
                    summary,
                    encoded,
                    now,
                    GoodsView::Credential { epoch, limit, request: blinded },
                )
            }
        },
    }
}

/// Whether a pack is on sale.
pub open spec fn on_sale(config: Config, credits: u64, sat: u64) -> bool {
    config.arc matches Some(arc) && arc.credential_offers@.contains(
        CredentialOffer { credits, sat },
    )
}

/// How a purchase of a credential begins.
pub open spec fn credential_begun(
    state: AppState,
    states: Map<Seq<char>, StateView>,
    request: CredentialRequestV2,
    now: u64,
) -> (PurchaseView, PurchaseActionView) {
    let encoded = text::trimmed(request.token@);
    match state.arc {
        None => turned_down(
            ApiErrorView::unsupported_kind("this cashier issues no ARC credentials"@),
        ),
        Some(arc) => if !on_sale(state.config, request.credits, request.sat) {
            turned_down(ApiErrorView::invalid_request("unknown pack"@))
        } else if !encoding::is_hex(request.request_hex@) {
            turned_down(ApiErrorView::invalid_request("request_hex is not hex"@))
        } else {
            credential_ordered(
                state.config,
                states,
                request.sat,
                credit::epoch_of(now, arc.epoch_length()),
                arc.limit(),
                encoding::hex_bytes(request.request_hex@),
                encoded,
                cashu::summarized(cashu::cashu_token(text::trimmed(encoded))),
                now,
            )
        },
    }
}

impl PurchaseView {
    /// What the steps of a payment lead to: once the token is paid, the goods
    /// are asked for.
    pub open spec fn passed_on(self, action: PaymentActionView) -> (Self, PurchaseActionView) {
        match (self, action) {
            (_, PaymentActionView::Record(event)) => (self, PurchaseActionView::Record(event)),
            (_, PaymentActionView::Swap(summary, encoded)) => (
                self,
                PurchaseActionView::Swap(summary, encoded),
            ),
            (PurchaseView::Paying(payment, goods), PaymentActionView::Paid(received)) => (
                PurchaseView::Making {
                    key_hex: payment.key_hex,
                    received,
                    mint: payment.summary.mint,
                    unit: payment.summary.unit,
                    goods,
                },
                match goods {
                    GoodsView::Grant(terms) => PurchaseActionView::Sign(terms),
                    GoodsView::Credential { epoch, request, .. } => PurchaseActionView::Issue(
                        epoch,
                        request,
                    ),
                },
            ),
            (_, PaymentActionView::Refuse(refusal)) => (
                PurchaseView::Done,
                PurchaseActionView::Refuse(refusal),
            ),
            _ => (PurchaseView::Done, PurchaseActionView::Refuse(RefusalView::unexpected())),
        }
    }

    /// The goods that a paid token bought are recorded before they are handed
    /// out.
    pub open spec fn bought(key_hex: Seq<char>, state: StateView) -> (Self, PurchaseActionView) {
        (
            PurchaseView::Booking { key_hex, state },
            PurchaseActionView::Record(EventView { token_key_hex: key_hex, state }),
        )
    }

    /// What follows a reply: the purchase, the token states, and what is
    /// asked for next.
    pub open spec fn after(self, states: Map<Seq<char>, StateView>, reply: PurchaseReplyView) -> (
        Self,
        Map<Seq<char>, StateView>,
        PurchaseActionView,
    ) {
        match (self, reply) {
            (PurchaseView::Paying(payment, goods), PurchaseReplyView::Recorded(r)) => {
                let (next, after, action) = payment.after(states, PaymentReplyView::Recorded(r));
                let (purchase, asked) = PurchaseView::Paying(next, goods).passed_on(action);
                (purchase, after, asked)
            },
            (PurchaseView::Paying(payment, goods), PurchaseReplyView::Swapped(r)) => {
                let (next, after, action) = payment.after(states, PaymentReplyView::Swapped(r));
                let (purchase, asked) = PurchaseView::Paying(next, goods).passed_on(action);
                (purchase, after, asked)
            },
            (
                PurchaseView::Making {
                    key_hex,
                    received,
                    mint,
                    unit,
                    goods: GoodsView::Grant(terms),
                },
                PurchaseReplyView::Signed(Ok(signed)),
            ) => {
                let grant = grant::grant_of(terms, signed);
                let (purchase, asked) = PurchaseView::bought(
                    key_hex,
                    StateView::Issued { grant, received, mint, unit },
                );
                (purchase, states, asked)
            },
            (
                PurchaseView::Making { goods: GoodsView::Grant(_), .. },
                PurchaseReplyView::Signed(Err(why)),
            ) => {
                let (purchase, asked) = turned_down(ApiErrorView::internal("sign: "@ + why));
                (purchase, states, asked)
            },
            (
                PurchaseView::Making {
                    key_hex,
                    received,
                    mint,
                    unit,
                    goods: GoodsView::Credential { epoch, limit, request },
                },
                PurchaseReplyView::Issued(Ok((issuer_public_key_hex, response))),
            ) => {
                let (purchase, asked) = PurchaseView::bought(
                    key_hex,
                    StateView::Credential {
                        request_hex: encoding::hex_text(request),
                        response: CredentialResponseView {
                            epoch,
                            presentation_limit: limit,
                            issuer_public_key_hex,
                            response_hex: encoding::hex_text(response),
                        },
                        received,
                        mint,
                        unit,
                    },
                );
                (purchase, states, asked)
            },
            (
                PurchaseView::Making { key_hex, goods: GoodsView::Credential { .. }, .. },
                PurchaseReplyView::Issued(Err(e)),
            ) => (
                PurchaseView::Done,
                states,
                PurchaseActionView::Refuse(
                    RefusalView {
                        error: ApiErrorView::invalid_request(e.message()),
                        reconcile: Some(key_hex),
                    },
                ),
            ),
            (PurchaseView::Booking { key_hex, state }, PurchaseReplyView::Recorded(Ok(()))) => (
                PurchaseView::Done,
                states.insert(key_hex, state),
                match state {
                    StateView::Issued { grant, .. } => PurchaseActionView::AnswerGrant(grant),
                    StateView::Credential { response, .. } => {
                        PurchaseActionView::AnswerCredential(response)
                    },
                    _ => PurchaseActionView::Refuse(RefusalView::unexpected()),
                },
            ),
            (PurchaseView::Booking { .. }, PurchaseReplyView::Recorded(Err(why))) => (
                PurchaseView::Done,
                states,
                PurchaseActionView::Refuse(RefusalView::unrecorded(why)),
            ),
            _ => (
                PurchaseView::Done,
                states,
                PurchaseActionView::Refuse(RefusalView::unexpected()),
            ),
        }
    }
}

/// Turn a request down.
fn turn_down(error: ApiError) -> (r: (Purchase, PurchaseAction))
    ensures
        (r.0@, r.1@) == turned_down(error@),
{
    (
        Purchase { phase: PurchasePhase::Done },
        PurchaseAction::Refuse(Refusal::plain(error)),
    )
}

/// How a token that does not cost what was asked is turned down.
fn price_error(summary: &TokenSummary, amount: u64, unit: &str) -> (r: ApiError)
    ensures
        r@ == wrong_price(summary@, amount, unit@),
{
    let mut m = text::joined3(
        "token is worth ",
        text::decimal(summary.amount as u128).as_str(),
        " ",
    );
    m.append(summary.unit.as_str());
    m.append(", offer costs ");
    m.append(text::decimal(amount as u128).as_str());
    m.append(" ");
    m.append(unit);
    ApiError::wrong_amount(m)
}

/// Whether a pack is on sale.
fn is_on_sale(config: &Config, credits: u64, sat: u64) -> (r: bool)
    ensures
        r == on_sale(*config, credits, sat),
{
    let arc = match &config.arc {
        Some(arc) => arc,
        None => return false,
    };
    let ghost all = arc.credential_offers@;
    let ghost wanted = CredentialOffer { credits, sat };
    let mut i: usize = 0;
    while i < arc.credential_offers.len()
        invariant
            i <= arc.credential_offers.len(),
            config.arc == Some(*arc),
            all == arc.credential_offers@,
            wanted == (CredentialOffer { credits, sat }),
            forall|j: int| 0 <= j < i ==> all[j] != wanted,
        decreases arc.credential_offers.len() - i,
    {
        let offer = arc.credential_offers[i];
        if offer.credits == credits && offer.sat == sat {
            assert(all[i as int] == wanted);
            return true;
        }
        i += 1;
    }
    false
}

impl Purchase {
    /// Pass on what a payment asks for, and ask for the goods once the token
    /// is paid.
    fn pass_on(payment: Payment, goods: Goods, action: PaymentAction) -> (r: (
        Purchase,
        PurchaseAction,
    ))
        ensures
            (r.0@, r.1@) == PurchaseView::Paying(payment@, goods@).passed_on(action@),
    {
        match action {
            PaymentAction::Record(event) => (
                Purchase { phase: PurchasePhase::Paying(payment, goods) },
                PurchaseAction::Record(event),
            ),
            PaymentAction::Swap(summary, encoded) => (
                Purchase { phase: PurchasePhase::Paying(payment, goods) },
                PurchaseAction::Swap(summary, encoded),
            ),
            PaymentAction::Paid(received) => {
                let asked = match &goods {
                    Goods::Grant(terms) => PurchaseAction::Sign(*terms),
                    Goods::Credential { epoch, request, .. } => PurchaseAction::Issue(
                        *epoch,
                        encoding::copy_bytes(request.as_slice()),
                    ),
                };
                (
                    Purchase {
                        phase: PurchasePhase::Making {
                            key_hex: payment.key_hex,
                            received,
                            mint: payment.summary.mint,
                            unit: payment.summary.unit,
                            goods,
                        },
                    },
                    asked,
                )
            },
            PaymentAction::Refuse(refusal) => (
                Purchase { phase: PurchasePhase::Done },
                PurchaseAction::Refuse(refusal),
            ),
        }
    }

    /// Order a listed pack of session grants, given what the token's text
    /// parses to.
    pub fn order_grant(
        config: &Config,
        store: &Store,
        offer: &Offer,
        ttl_secs: u64,
        encoded: &str,
        parsed: Result<TokenSummary, TokenParseError>,
        now: u64,
    ) -> (r: (Purchase, PurchaseAction))
        ensures
            (r.0@, r.1@) == grant_ordered(
                *config,
                store@,
                offer@,
                ttl_secs,
                encoded@,
                cashu::summary_view(parsed),
                now,
            ),
    {
        let summary = match payment::accept_token(config, parsed) {
            Ok(summary) => summary,
            Err(e) => return turn_down(e),
        };
        if summary.unit != offer.unit || summary.amount != offer.amount {
            return turn_down(price_error(&summary, offer.amount, offer.unit.as_str()));
        }
        let key = cashu::token_key(summary.secrets.as_slice());
        let key_hex = encoding::hex_encode(&key);
        let mut unknown_before = false;
        match store.get(key_hex.as_str()) {
            Some(State::Issued { grant, .. }) => {
                if grant.expires_at > now {
                    if grant.credits != offer.credits {
                        return turn_down(
                            ApiError::invalid_request(
                                "this token already bought a different pack; the original grant stands".to_owned(),
                            ),
                        );
                    }
                    return (
                        Purchase { phase: PurchasePhase::Done },
                        PurchaseAction::AnswerGrant(grant.clone()),
                    );
                }
            },
            Some(State::Pending { .. }) => {
                unknown_before = true;
            },
            _ => {},
        }
        let terms = grant::grant_terms(&key, offer.credits, now, ttl_secs);
        let (payment, action) = Payment::begin(
            key_hex,
            summary,
            encoded.to_owned(),
            now,
            unknown_before,
        );
        Purchase::pass_on(payment, Goods::Grant(terms), action)
    }

    /// Begin to sell session grants: a listed offer, a token of an accepted
    /// mint, worth exactly the offer's price.
    pub fn begin_grant(
        config: &Config,
        terms: &SessionTerms,
        store: &Store,
        ttl_secs: u64,
        request: &GrantRequest,
        now: u64,
    ) -> (r: (Purchase, PurchaseAction))
        ensures
            (r.0@, r.1@) == grant_begun(*config, *terms, store@, ttl_secs, *request, now),
    {
        match terms.find_offer(&request.offer) {
            None => turn_down(ApiError::invalid_request("unknown offer".to_owned())),
            Some(offer) => {
                let encoded = text::trim(request.token.as_str());
                Purchase::order_grant(
                    config,
                    store,
                    offer,
                    ttl_secs,
                    encoded,
                    TokenSummary::parse(encoded),
                    now,
                )
            },
        }
    }

    /// Order a listed pack of credits, given what the token's text parses to.
    pub fn order_credential(
        config: &Config,
        store: &Store,
        sat: u64,
        epoch: u32,
        limit: u32,
        blinded: Vec<u8>,
        encoded: &str,
        parsed: Result<TokenSummary, TokenParseError>,
        now: u64,
    ) -> (r: (Purchase, PurchaseAction))
        ensures
            (r.0@, r.1@) == credential_ordered(
                *config,
                store@,
                sat,
                epoch,
                limit,
                blinded@,
                encoded@,
                cashu::summary_view(parsed),
                now,
            ),
    {
        let summary = match payment::accept_token(config, parsed) {
            Ok(summary) => summary,
            Err(e) => return turn_down(e),
        };
        if !text::same(summary.unit.as_str(), "sat") || summary.amount != sat {
            return turn_down(price_error(&summary, sat, "sat"));
        }
        let key = cashu::token_key(summary.secrets.as_slice());
        let key_hex = encoding::hex_encode(&key);
        let mut unknown_before = false;
        match store.get(key_hex.as_str()) {
            Some(State::Credential { request_hex, response, .. }) => {
                let wanted = encoding::hex_encode(blinded.as_slice());
                if text::same(request_hex.as_str(), wanted.as_str()) {
                    return (
                        Purchase { phase: PurchasePhase::Done },
                        PurchaseAction::AnswerCredential(response.clone()),
                    );
                }
                return turn_down(
                    ApiError::invalid_request(
                        "this token already bought a credential for another request".to_owned(),
                    ),
                );
            },
            Some(State::Pending { .. }) => {
                unknown_before = true;
            },
            Some(State::Failed { .. }) | None => {},
            Some(taken) => return (
                Purchase { phase: PurchasePhase::Done },
                PurchaseAction::Refuse(settlement::refuse_taken(&key_hex, taken)),
            ),
        }
        let (payment, action) = Payment::begin(
            key_hex,
            summary,
            encoded.to_owned(),
            now,
            unknown_before,
        );
        Purchase::pass_on(payment, Goods::Credential { epoch, limit, request: blinded }, action)
    }

    /// Begin to sell a credential under the current epoch: a listed pack, a
    /// blinded request, and a token of an accepted mint worth exactly the
    /// pack's price in sats.
    pub fn begin_credential(
        state: &AppState,
        store: &Store,
        request: &CredentialRequestV2,
        now: u64,
    ) -> (r: (Purchase, PurchaseAction))
        requires
            state.wf(),
        ensures
            (r.0@, r.1@) == credential_begun(*state, store@, *request, now),
    {
        let arc = match &state.arc {
            Some(arc) => arc,
            None => return turn_down(
                ApiError::unsupported_kind("this cashier issues no ARC credentials".to_owned()),
            ),
        };
        if !is_on_sale(&state.config, request.credits, request.sat) {
            return turn_down(ApiError::invalid_request("unknown pack".to_owned()));
        }
        let blinded = match encoding::hex_decode(request.request_hex.as_str()) {
            Ok(blinded) => blinded,
            Err(_) => return turn_down(
                ApiError::invalid_request("request_hex is not hex".to_owned()),
            ),
        };
        let encoded = text::trim(request.token.as_str());
        Purchase::order_credential(
            &state.config,
            store,
            request.sat,
            arc.current_epoch(now),
            arc.presentation_limit(),
            blinded,
            encoded,
            TokenSummary::parse(encoded),
            now,
        )
    }

    /// Record what a token bought.
    fn book(&mut self, key_hex: String, state: State) -> (r: PurchaseAction)
        ensures
            (final(self)@, r@) == PurchaseView::bought(key_hex@, state@),
    {
        let event = Event { token_key_hex: key_hex.clone(), state: state.clone() };
        self.phase = PurchasePhase::Booking { key_hex, state };
        PurchaseAction::Record(event)
    }

    /// Take in how what was asked for went, and say what comes next.
    pub fn step(&mut self, store: &mut Store, reply: PurchaseReply) -> (r: PurchaseAction)
        requires
            old(store).wf(),
        ensures
            final(store).wf(),
            final(store).location() == old(store).location(),
            (final(self)@, final(store)@, r@) == old(self)@.after(old(store)@, reply@),
    {
        let mut phase = PurchasePhase::Done;
        std::mem::swap(&mut phase, &mut self.phase);
        match (phase, reply) {
            (PurchasePhase::Paying(mut payment, goods), PurchaseReply::Recorded(r)) => {
                let action = payment.step(store, PaymentReply::Recorded(r));
                let (next, asked) = Purchase::pass_on(payment, goods, action);
                *self = next;
                asked
            },
            (PurchasePhase::Paying(mut payment, goods), PurchaseReply::Swapped(r)) => {
                let action = payment.step(store, PaymentReply::Swapped(r));
                let (next, asked) = Purchase::pass_on(payment, goods, action);
                *self = next;
                asked
            },
            (
                PurchasePhase::Making {
                    key_hex,
                    received,
                    mint,
                    unit,
                    goods: Goods::Grant(terms),
                },
                PurchaseReply::Signed(Ok(signed)),
            ) => {
                let grant = grant::issued_grant(&terms, &signed);
                self.book(key_hex, State::Issued { grant, received, mint, unit })
            },
            (
                PurchasePhase::Making { goods: Goods::Grant(_), .. },
                PurchaseReply::Signed(Err(why)),
            ) => PurchaseAction::Refuse(
                Refusal::plain(ApiError::internal(text::joined("sign: ", why.as_str()))),
            ),
            (
                PurchasePhase::Making {
                    key_hex,
                    received,
                    mint,
                    unit,
                    goods: Goods::Credential { epoch, limit, request },
                },
                PurchaseReply::Issued(Ok((issuer_public_key_hex, response))),
            ) => {
                let response = CredentialResponseV2 {
                    epoch,
                    presentation_limit: limit,
                    issuer_public_key_hex,
                    response_hex: encoding::hex_encode(response.as_slice()),
                };
                let request_hex = encoding::hex_encode(request.as_slice());
                self.book(
                    key_hex,
                    State::Credential { request_hex, response, received, mint, unit },
                )
            },
            (
                PurchasePhase::Making { key_hex, goods: Goods::Credential { .. }, .. },
                PurchaseReply::Issued(Err(e)),
            ) => PurchaseAction::Refuse(
                Refusal {
                    error: ApiError::invalid_request(e.message()),
                    reconcile: Some(key_hex),
                },
            ),
            (PurchasePhase::Booking { key_hex, state }, PurchaseReply::Recorded(Ok(()))) => {
                let asked = match &state {
                    State::Issued { grant, .. } => PurchaseAction::AnswerGrant(grant.clone()),
                    State::Credential { response, .. } => PurchaseAction::AnswerCredential(
                        response.clone(),
                    ),
                    _ => PurchaseAction::Refuse(Refusal::unexpected()),
                };
                store.record(key_hex.as_str(), state);
                asked
            },
            (PurchasePhase::Booking { .. }, PurchaseReply::Recorded(Err(why))) => {
                PurchaseAction::Refuse(Refusal::unrecorded(why.as_str()))
            },
            _ => PurchaseAction::Refuse(Refusal::unexpected()),
        }
    }
}

} // verus!
