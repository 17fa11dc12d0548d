//! Settling a redeem request, item by item.
//!
//! A settlement asks for one thing at a time (append to a log, swap a token
//! at the mint, decode or verify ARC presentations, lay out the answer for
//! signing) and is told how that went. All or nothing: an item that is
//! refused refuses the whole request, and nothing is booked to the server.

use vstd::prelude::*;
use vstd::utf8::*;

use crate::api::{ApiError, ApiErrorView, AppState};
use crate::arc::{ArcError, ArcErrorView};
use crate::cashu;
use crate::cashu::{
    SwapError, SwapErrorView, TokenParseError, TokenParseErrorView, TokenSummary, TokenSummaryView,
};
use crate::credit;
use crate::credit::{
    GasParams, RedeemResponseV1, RedeemResponseView, CREDIT_PRESENT_KIND_ARC,
    CREDIT_PRESENT_KIND_CASHU,
};
use crate::crypto;
use crate::encoding;
use crate::ledger::{LedgerView, RedeemEvent, RedeemEventView, RedeemStore};
use crate::payment;
use crate::payment::{
    Payment, PaymentAction, PaymentActionView, PaymentReply, PaymentReplyView, PaymentView, Refusal,
    RefusalView, StageView,
};
use crate::redeem::{VerifiedRedeem, VerifiedView};
use crate::store::{Event, EventView, State, StateView, Store};
use crate::text;

verus! {

/// An item that was settled.
#[derive(Debug, PartialEq, Eq)]
pub enum Settled {
    /// A token for which the mint credited an amount.
    Cashu { key_hex: String, received: u64 },
    /// Some ARC presentations.
    Arc { presentations: usize },
}

/// The model of a [`Settled`] item.
pub enum SettledView {
    Cashu { key_hex: Seq<char>, received: u64 },
    Arc { presentations: nat },
}

impl View for Settled {
    type V = SettledView;

    open spec fn view(&self) -> SettledView {
        match self {
            Settled::Cashu { key_hex, received } => SettledView::Cashu {
                key_hex: key_hex@,
                received: *received,
            },
            Settled::Arc { presentations } => SettledView::Arc {
                presentations: *presentations as nat,
            },
        }
    }
}

impl SettledView {
    /// The gas an item is worth: what its sats buy, or a credit's gas for
    /// each presentation.
    pub open spec fn gas(self, params: GasParams) -> int {
        match self {
            SettledView::Cashu { received, .. } => params.gas_for(received),
            SettledView::Arc { presentations } => presentations * params.gas_per_credit,
        }
    }

    /// The sats an item is worth: what the mint credited, or a credit's price
    /// for each presentation.
    pub open spec fn sat(self, params: GasParams) -> int {
        match self {
            SettledView::Cashu { received, .. } => received as int,
            SettledView::Arc { presentations } => presentations * params.credit_sat,
        }
    }
}

/// The gas of some items, at most the largest 64-bit number.
pub open spec fn total_gas(settled: Seq<SettledView>, params: GasParams) -> int
    decreases settled.len(),
{
    if settled.len() == 0 {
        0
    } else {
        credit::capped_sum(total_gas(settled.drop_last(), params), settled.last().gas(params))
    }
}

/// The sats of some items, at most the largest 64-bit number.
pub open spec fn total_sat(settled: Seq<SettledView>, params: GasParams) -> int
    decreases settled.len(),
{
    if settled.len() == 0 {
        0
    } else {
        credit::capped_sum(total_sat(settled.drop_last(), params), settled.last().sat(params))
    }
}

/// The number of some items, at most the largest 32-bit number.
pub open spec fn total_items(settled: Seq<SettledView>) -> u32 {
    if settled.len() <= u32::MAX {
        settled.len() as u32
    } else {
        u32::MAX
    }
}

/// How far a settlement is.
#[derive(Debug, PartialEq, Eq)]
pub enum Phase {
    /// A token is being taken.
    Paying(Payment),
    /// A token that was taken is being booked to the server.
    Booking { key_hex: String, received: u64, mint: String, unit: String },
    /// ARC presentations are being decoded.
    Decoding,
    /// So many ARC presentations are being verified under an epoch.
    Verifying { epoch: u32, count: usize },
    /// The answer is being laid out for signing.
    Sealing,
    /// The redemption is being appended to the redeem log.
    Logging(RedeemEvent),
    /// Nothing more is asked for.
    Done,
}

/// The model of a [`Phase`].
pub enum PhaseView {
    Paying(PaymentView),
    Booking { key_hex: Seq<char>, received: u64, mint: Seq<char>, unit: Seq<char> },
    Decoding,
    Verifying { epoch: u32, count: nat },
    Sealing,
    Logging(RedeemEventView),
    Done,
}

impl View for Phase {
    type V = PhaseView;

    open spec fn view(&self) -> PhaseView {
        match self {
            Phase::Paying(payment) => PhaseView::Paying(payment@),
            Phase::Booking { key_hex, received, mint, unit } => PhaseView::Booking {
                key_hex: key_hex@,
                received: *received,
                mint: mint@,
                unit: unit@,
            },
            Phase::Decoding => PhaseView::Decoding,
            Phase::Verifying { epoch, count } => PhaseView::Verifying {
                epoch: *epoch,
                count: *count as nat,
            },
            Phase::Sealing => PhaseView::Sealing,
            Phase::Logging(event) => PhaseView::Logging(event@),
            Phase::Done => PhaseView::Done,
        }
    }
}

/// What a settlement asks for.
#[derive(Debug, PartialEq, Eq)]
pub enum SettlementAction {
    /// Append this event to the token log.
    Record(Event),
    /// Swap a token: its summary, and its text.
    Swap(TokenSummary, String),
    /// Decode an ARC payload: its epoch and its presentations.
    Decode(Vec<u8>),
    /// Verify presentations under an epoch: their tags, in order.
    Verify(u32, Vec<Vec<u8>>),
    /// Lay out the answer for signing.
    Preimage { nonce: [u8; 16], gas_added: u64, sat_value: u64, items_accepted: u32 },
    /// Append this redemption to the redeem log.
    Log(RedeemEvent),
    /// Answer the server.
    Answer(RedeemResponseV1),
    /// Refuse the request.
    Refuse(Refusal),
}

/// The model of a [`SettlementAction`].
pub enum SettlementActionView {
    Record(EventView),
    Swap(TokenSummaryView, Seq<char>),
    Decode(Seq<u8>),
    Verify(u32, Seq<Seq<u8>>),
    Preimage { nonce: Seq<u8>, gas_added: u64, sat_value: u64, items_accepted: u32 },
    Log(RedeemEventView),
    Answer(RedeemResponseView),
    Refuse(RefusalView),
}

/// The model of a list of byte strings.
pub open spec fn byte_lists(v: Seq<Vec<u8>>) -> Seq<Seq<u8>> {
    v.map_values(|bytes: Vec<u8>| bytes@)
}

impl View for SettlementAction {
    type V = SettlementActionView;

    open spec fn view(&self) -> SettlementActionView {
        match self {
            SettlementAction::Record(event) => SettlementActionView::Record(event@),
            SettlementAction::Swap(summary, encoded) => SettlementActionView::Swap(
                summary@,
                encoded@,
            ),
            SettlementAction::Decode(payload) => SettlementActionView::Decode(payload@),
            SettlementAction::Verify(epoch, presentations) => SettlementActionView::Verify(
                *epoch,
                byte_lists(presentations@),
            ),
            SettlementAction::Preimage { nonce, gas_added, sat_value, items_accepted } => {
                SettlementActionView::Preimage {
                    nonce: nonce@,
                    gas_added: *gas_added,
                    sat_value: *sat_value,
                    items_accepted: *items_accepted,
                }
            },
            SettlementAction::Log(event) => SettlementActionView::Log(event@),
            SettlementAction::Answer(answer) => SettlementActionView::Answer(answer@),
            SettlementAction::Refuse(refusal) => SettlementActionView::Refuse(refusal@),
        }
    }
}

/// How what a settlement asked for went.
#[derive(Debug, PartialEq, Eq)]
pub enum SettlementReply {
    /// The event was appended to the token log, or why it was not.
    Recorded(Result<(), String>),
    /// The mint credited an amount, or why it did not.
    Swapped(Result<u64, SwapError>),
    /// The epoch and the presentations of an ARC payload, or what is wrong
    /// with it.
    Decoded(Result<(u32, Vec<Vec<u8>>), String>),
    /// The tags of the presentations, in order, or what is wrong with one.
    Verified(Result<Vec<String>, ArcError>),
    /// The bytes to sign.
    Preimage(Vec<u8>),
    /// The redemption was appended to the redeem log, or why it was not.
    Logged(Result<(), String>),
}

/// The model of a [`SettlementReply`].
pub enum SettlementReplyView {
    Recorded(Result<(), Seq<char>>),
    Swapped(Result<u64, SwapErrorView>),
    Decoded(Result<(u32, Seq<Seq<u8>>), Seq<char>>),
    Verified(Result<Seq<Seq<char>>, ArcErrorView>),
    Preimage(Seq<u8>),
    Logged(Result<(), Seq<char>>),
}

impl View for SettlementReply {
    type V = SettlementReplyView;

    open spec fn view(&self) -> SettlementReplyView {
        match self {
            SettlementReply::Recorded(r) => SettlementReplyView::Recorded(
                payment::recorded_view(*r),
            ),
            SettlementReply::Swapped(r) => SettlementReplyView::Swapped(cashu::swap_view(*r)),
            SettlementReply::Decoded(r) => SettlementReplyView::Decoded(
                match r {
                    Ok((epoch, presentations)) => Ok((*epoch, byte_lists(presentations@))),
                    Err(why) => Err(why@),
                },
            ),
            SettlementReply::Verified(r) => SettlementReplyView::Verified(
                match r {
                    Ok(tags) => Ok(text::texts(tags@)),
                    Err(e) => Err(e@),
                },
            ),
            SettlementReply::Preimage(bytes) => SettlementReplyView::Preimage(bytes@),
            SettlementReply::Logged(r) => SettlementReplyView::Logged(payment::recorded_view(*r)),
        }
    }
}

/// A redeem request that is being settled.
pub struct Settlement {
    request: VerifiedRedeem,
    now: u64,
    /// The items settled so far, in the order of the request.
    settled: Vec<Settled>,
    /// The epoch of the presentations among them, and their tags.
    epoch: Option<u32>,
    tags: Vec<String>,
    phase: Phase,
}

/// The model of a [`Settlement`].
pub struct SettlementView {
    pub request: VerifiedView,
    pub now: u64,
    pub settled: Seq<SettledView>,
    pub epoch: Option<u32>,
    pub tags: Seq<Seq<char>>,
    pub phase: PhaseView,
}

/// The models of some settled items.
pub open spec fn settled_views(v: Seq<Settled>) -> Seq<SettledView> {
    v.map_values(|item: Settled| item@)
}

impl View for Settlement {
    type V = SettlementView;

    closed spec fn view(&self) -> SettlementView {
        SettlementView {
            request: self.request@,
            now: self.now,
            settled: settled_views(self.settled@),
            epoch: self.epoch,
            tags: text::texts(self.tags@),
            phase: self.phase@,
        }
    }
}

/// Whether tags are new: none was spent under their epoch before, and none
/// occurs twice among them and those in use.
pub open spec fn unspent(
    spent: Set<(u32, Seq<char>)>,
    epoch: u32,
    used: Seq<Seq<char>>,
    tags: Seq<Seq<char>>,
) -> bool {
    forall|i: int|
        0 <= i < tags.len() ==> !spent.contains((epoch, #[trigger] tags[i])) && !(used + tags.take(
            i,
        )).contains(tags[i])
}

impl SettlementView {
    pub open spec fn at(self, phase: PhaseView) -> Self {
        SettlementView { phase, ..self }
    }

    /// The settlement with one more item settled.
    pub open spec fn with(self, item: SettledView) -> Self {
        SettlementView { settled: self.settled.push(item), ..self }
    }

    /// The request is refused.
    pub open spec fn refused(self, refusal: RefusalView) -> (Self, SettlementActionView) {
        (self.at(PhaseView::Done), SettlementActionView::Refuse(refusal))
    }

    /// What a token in hand leads to, given what its text parses to: it is
    /// taken unless it was spent here before or its outcome is unknown.
    pub open spec fn token_presented(
        self,
        state: AppState,
        states: Map<Seq<char>, StateView>,
        encoded: Seq<char>,
        parsed: Result<TokenSummaryView, TokenParseErrorView>,
    ) -> (Self, SettlementActionView) {
        match payment::token_accepted(state.config, parsed) {
            Err(e) => self.refused(RefusalView::plain(e)),
            Ok(summary) => {
                let key_hex = payment::log_key(summary.secrets);
                if summary.unit != "sat"@ {
                    self.refused(
                        RefusalView::plain(
                            ApiErrorView::wrong_amount(
                                "token unit "@ + summary.unit + " is not sat"@,
                            ),
                        ),
                    )
                } else if states.contains_key(key_hex) && !(states[key_hex] is Failed) {
                    self.refused(taken_before(key_hex, states[key_hex]))
                } else {
                    let payment = PaymentView {
                        key_hex,
                        summary,
                        encoded,
                        now: self.now,
                        stage: StageView::Marking,
                    };
                    (
                        self.at(PhaseView::Paying(payment)),
                        SettlementActionView::Record(payment.event(payment.marker())),
                    )
                }
            },
        }
    }

    /// The next item in hand, or the answer once every item is settled.
    pub open spec fn next(self, state: AppState, states: Map<Seq<char>, StateView>) -> (
        Self,
        SettlementActionView,
    ) {
        let params = state.config.gas.spec_params();
        if self.settled.len() >= self.request.items.len() {
            (
                self.at(PhaseView::Sealing),
                SettlementActionView::Preimage {
                    nonce: self.request.nonce,
                    gas_added: total_gas(self.settled, params) as u64,
                    sat_value: total_sat(self.settled, params) as u64,
                    items_accepted: total_items(self.settled),
                },
            )
        } else {
            let (kind, payload) = self.request.items[self.settled.len() as int];
            if kind == CREDIT_PRESENT_KIND_CASHU {
                if valid_utf8(payload) {
                    let encoded = text::trimmed(decode_utf8(payload));
                    self.token_presented(
                        state,
                        states,
                        encoded,
                        cashu::summarized(cashu::cashu_token(text::trimmed(encoded))),
                    )
                } else {
                    self.refused(
                        RefusalView::plain(
                            ApiErrorView::invalid_request("Cashu token is not UTF-8"@),
                        ),
                    )
                }
            } else if kind == CREDIT_PRESENT_KIND_ARC {
                if state.arc is Some {
                    (self.at(PhaseView::Decoding), SettlementActionView::Decode(payload))
                } else {
                    self.refused(
                        RefusalView::plain(
                            ApiErrorView::unsupported_kind(
                                "ARC presentations are not accepted by this cashier yet"@,
                            ),
                        ),
                    )
                }
            } else {
                self.refused(
                    RefusalView::plain(
                        ApiErrorView::invalid_request(
                            "unknown presentation kind "@ + text::decimal_text(kind as nat),
                        ),
                    ),
                )
            }
        }
    }

    /// What decoded presentations lead to: they are verified if their epoch
    /// counts now and is that of the presentations before them.
    pub open spec fn decoded(self, state: AppState, epoch: u32, presentations: Seq<Seq<u8>>) -> (
        Self,
        SettlementActionView,
    ) {
        if !(state.arc matches Some(arc) && credit::epoch_counts(
            epoch,
            self.now,
            arc.epoch_length(),
            arc.grace(),
        )) {
            self.refused(
                RefusalView::plain(
                    ApiErrorView::expired_epoch(
                        "ARC epoch "@ + text::decimal_text(epoch as nat) + " is not accepted now"@,
                    ),
                ),
            )
        } else if self.epoch matches Some(other) && other != epoch {
            self.refused(
                RefusalView::plain(
                    ApiErrorView::invalid_request("ARC presentations of several epochs"@),
                ),
            )
        } else {
            (
                self.at(PhaseView::Verifying { epoch, count: presentations.len() }),
                SettlementActionView::Verify(epoch, presentations),
            )
        }
    }

    /// What the tags of verified presentations lead to: they are spent if
    /// they are new.
    pub open spec fn presented(
        self,
        state: AppState,
        states: Map<Seq<char>, StateView>,
        spent: Set<(u32, Seq<char>)>,
        epoch: u32,
        tags: Seq<Seq<char>>,
    ) -> (Self, SettlementActionView) {
        if !unspent(spent, epoch, self.tags, tags) {
            self.refused(
                RefusalView::plain(
                    ApiErrorView::double_spend("an ARC presentation was already spent"@),
                ),
            )
        } else {
            (SettlementView { epoch: Some(epoch), tags: self.tags + tags, ..self }).with(
                SettledView::Arc { presentations: tags.len() },
            ).next(state, states)
        }
    }

    /// The state of a token that was booked to the server.
    pub open spec fn booked(self, received: u64, mint: Seq<char>, unit: Seq<char>) -> StateView {
        StateView::Redeemed { server_id: self.request.server_id, received, mint, unit }
    }

    /// The redemption, with the issuer's signature on `preimage`.
    pub open spec fn redemption(self, state: AppState, preimage: Seq<u8>) -> RedeemEventView {
        let params = state.config.gas.spec_params();
        RedeemEventView {
            server_id: self.request.server_id,
            nonce_hex: self.request.nonce_hex,
            unix_time: self.now,
            gas_added: total_gas(self.settled, params) as u64,
            sat_value: total_sat(self.settled, params) as u64,
            items_accepted: total_items(self.settled),
            issuer_signature_hex: encoding::hex_text(
                crypto::ed25519_signature(state.issuer.seed(), preimage),
            ),
            epoch: self.epoch,
            tags_hex: self.tags,
        }
    }

    /// What the steps of a payment lead to.
    pub open spec fn paying(self, payment: PaymentView, action: PaymentActionView) -> (
        Self,
        SettlementActionView,
    ) {
        match action {
            PaymentActionView::Record(event) => (
                self.at(PhaseView::Paying(payment)),
                SettlementActionView::Record(event),
            ),
            PaymentActionView::Swap(summary, encoded) => (
                self.at(PhaseView::Paying(payment)),
                SettlementActionView::Swap(summary, encoded),
            ),
            PaymentActionView::Refuse(refusal) => self.refused(refusal),
            PaymentActionView::Paid(received) => if received == 0 {
                self.refused(
                    RefusalView::plain(
                        ApiErrorView::token_rejected("the mint credited nothing for this token"@),
                    ),
                )
            } else {
                let (mint, unit) = (payment.summary.mint, payment.summary.unit);
                (
                    self.at(
                        PhaseView::Booking { key_hex: payment.key_hex, received, mint, unit },
                    ),
                    SettlementActionView::Record(
                        EventView {
                            token_key_hex: payment.key_hex,
                            state: self.booked(received, mint, unit),
                        },
                    ),
                )
            },
        }
    }

    /// What follows a reply: the settlement, the token states, the ledger,
    /// and what is asked for next.
    pub open spec fn after(
        self,
        state: AppState,
        states: Map<Seq<char>, StateView>,
        ledger: LedgerView,
        reply: SettlementReplyView,
    ) -> (Self, Map<Seq<char>, StateView>, LedgerView, SettlementActionView) {
        match (self.phase, reply) {
            (PhaseView::Paying(payment), SettlementReplyView::Recorded(r)) => {
                let (next, after, action) = payment.after(states, PaymentReplyView::Recorded(r));
                let (settlement, asked) = self.paying(next, action);
                (settlement, after, ledger, asked)
            },
            (PhaseView::Paying(payment), SettlementReplyView::Swapped(r)) => {
                let (next, after, action) = payment.after(states, PaymentReplyView::Swapped(r));
                let (settlement, asked) = self.paying(next, action);
                (settlement, after, ledger, asked)
            },
            (
                PhaseView::Booking { key_hex, received, mint, unit },
                SettlementReplyView::Recorded(Ok(())),
            ) => {
                let after = states.insert(key_hex, self.booked(received, mint, unit));
                let (settlement, asked) = self.with(SettledView::Cashu { key_hex, received }).next(
                    state,
                    after,
                );
                (settlement, after, ledger, asked)
            },
            (PhaseView::Booking { .. }, SettlementReplyView::Recorded(Err(why))) => {
                let (settlement, asked) = self.refused(RefusalView::unrecorded(why));
                (settlement, states, ledger, asked)
            },
            (PhaseView::Decoding, SettlementReplyView::Decoded(Ok((epoch, presentations)))) => {
                let (settlement, asked) = self.decoded(state, epoch, presentations);
                (settlement, states, ledger, asked)
            },
            (PhaseView::Decoding, SettlementReplyView::Decoded(Err(why))) => {
                let (settlement, asked) = self.refused(
                    RefusalView::plain(ApiErrorView::invalid_request("ARC payload: "@ + why)),
                );
                (settlement, states, ledger, asked)
            },
            (
                PhaseView::Verifying { epoch, count },
                SettlementReplyView::Verified(Ok(tags)),
            ) => {
                let (settlement, asked) = if tags.len() == count {
                    self.presented(state, states, ledger.tags, epoch, tags)
                } else {
                    self.refused(RefusalView::unexpected())
                };
                (settlement, states, ledger, asked)
            },
            (PhaseView::Verifying { .. }, SettlementReplyView::Verified(Err(e))) => {
                let (settlement, asked) = self.refused(
                    RefusalView::plain(
                        match e {
                            ArcErrorView::Malformed(_, _) => ApiErrorView::invalid_request(
                                e.message(),
                            ),
                            ArcErrorView::Invalid(_) => ApiErrorView::token_rejected(e.message()),
                        },
                    ),
                );
                (settlement, states, ledger, asked)
            },
            (PhaseView::Sealing, SettlementReplyView::Preimage(preimage)) => {
                let event = self.redemption(state, preimage);
                (
                    self.at(PhaseView::Logging(event)),
                    states,
                    ledger,
                    SettlementActionView::Log(event),
                )
            },
            (PhaseView::Logging(event), SettlementReplyView::Logged(Ok(()))) => (
                self.at(PhaseView::Done),
                states,
                ledger.plus(event),
                SettlementActionView::Answer(event.response()),
            ),
            (PhaseView::Logging(_), SettlementReplyView::Logged(Err(why))) => {
                let (settlement, asked) = self.refused(
                    RefusalView::plain(ApiErrorView::internal("redeem store: append: "@ + why)),
                );
                (settlement, states, ledger, asked)
            },
            _ => {
                let (settlement, asked) = self.refused(RefusalView::unexpected());
                (settlement, states, ledger, asked)
            },
        }
    }
}

/// The refusal of a token that was spent here before, or whose outcome at the
/// mint is unknown.
pub open spec fn taken_before(key_hex: Seq<char>, state: StateView) -> RefusalView {
    match state {
        StateView::Issued { .. } => RefusalView::plain(
            ApiErrorView::already_redeemed("this token already bought a session grant"@),
        ),
        StateView::Redeemed { server_id, .. } => RefusalView::plain(
            ApiErrorView::already_redeemed("this token was already redeemed through "@ + server_id),
        ),
        StateView::Credential { .. } => RefusalView::plain(
            ApiErrorView::already_redeemed("this token already bought an ARC credential"@),
        ),
        _ => RefusalView {
            error: ApiErrorView::token_rejected(
                "an earlier attempt with this token has an unknown outcome (key "@ + key_hex
                    + "); contact the operator"@,
            ),
            reconcile: Some(key_hex),
        },
    }
}

/// A settlement before its first item.
pub open spec fn opening(request: VerifiedView, now: u64) -> SettlementView {
    SettlementView {
        request,
        now,
        settled: Seq::empty(),
        epoch: None,
        tags: Seq::empty(),
        phase: PhaseView::Done,
    }
}

/// How a settlement begins: with the answer that was given before for the
/// server and the nonce, or with the first item.
pub open spec fn begun(
    state: AppState,
    states: Map<Seq<char>, StateView>,
    ledger: LedgerView,
    request: VerifiedView,
    now: u64,
) -> (SettlementView, SettlementActionView) {
    let id = (request.server_id, request.nonce_hex);
    if ledger.answers.contains_key(id) {
        (
            opening(request, now),
            SettlementActionView::Answer(ledger.answers[id].response()),
        )
    } else {
        opening(request, now).next(state, states)
    }
}

/// A product of two numbers, at most the largest 64-bit number.
fn capped_product(a: usize, b: u64) -> (r: u64)
    ensures
        r == credit::capped_sum(0, a * b),
{
    let (x, y): (u128, u128) = (a as u128, b as u128);
    assert(x * y <= 0xffff_ffff_ffff_ffff * 0xffff_ffff_ffff_ffff) by (nonlinear_arith)
        requires
            x <= 0xffff_ffff_ffff_ffff,
            y <= 0xffff_ffff_ffff_ffff,
    ;
    let product: u128 = x * y;
    if product <= u64::MAX as u128 {
        product as u64
    } else {
        u64::MAX
    }
}

/// A sum of two numbers that were capped before stays what it is.
proof fn capped_twice(a: int, b: int)
    requires
        0 <= a <= u64::MAX,
        0 <= b,
    ensures
        credit::capped_sum(a, credit::capped_sum(0, b)) == credit::capped_sum(a, b),
{
}

impl Settled {
    /// The gas an item is worth, at most the largest 64-bit number.
    fn gas(&self, params: &GasParams) -> (r: u64)
        requires
            params.credit_sat > 0,
        ensures
            r == credit::capped_sum(0, self@.gas(*params)),
            self@.gas(*params) >= 0,
    {
        match self {
            Settled::Cashu { received, .. } => params.sats_to_gas(*received),
            Settled::Arc { presentations } => {
                assert(*presentations * params.gas_per_credit >= 0) by (nonlinear_arith);
                capped_product(*presentations, params.gas_per_credit)
            },
        }
    }

    /// The sats an item is worth, at most the largest 64-bit number.
    fn sat(&self, params: &GasParams) -> (r: u64)
        ensures
            r == credit::capped_sum(0, self@.sat(*params)),
            self@.sat(*params) >= 0,
    {
        match self {
            Settled::Cashu { received, .. } => *received,
            Settled::Arc { presentations } => {
                assert(*presentations * params.credit_sat >= 0) by (nonlinear_arith);
                capped_product(*presentations, params.credit_sat)
            },
        }
    }
}

/// The gas and the sats of some items.
fn totals_of(settled: &Vec<Settled>, params: &GasParams) -> (r: (u64, u64))
    requires
        params.credit_sat > 0,
    ensures
        r.0 == total_gas(settled_views(settled@), *params),
        r.1 == total_sat(settled_views(settled@), *params),
{
    let ghost all = settled_views(settled@);
    let mut gas: u64 = 0;
    let mut sat: u64 = 0;
    let mut i: usize = 0;
    assert(all.take(0) == Seq::<SettledView>::empty());
    while i < settled.len()
        invariant
            i <= settled.len(),
            params.credit_sat > 0,
            all == settled_views(settled@),
            gas == total_gas(all.take(i as int), *params),
            sat == total_sat(all.take(i as int), *params),
        decreases settled.len() - i,
    {
        let item = &settled[i];
        proof {
            assert(all.take(i + 1).drop_last() == all.take(i as int));
            assert(all.take(i + 1).last() == item@);
        }
        let more_gas = item.gas(params);
        let more_sat = item.sat(params);
        proof {
            capped_twice(gas as int, item@.gas(*params));
            capped_twice(sat as int, item@.sat(*params));
        }
        gas = gas.saturating_add(more_gas);
        sat = sat.saturating_add(more_sat);
        i += 1;
    }
    assert(all.take(i as int) == all);
    (gas, sat)
}

/// The number of some items.
fn count_of(settled: &Vec<Settled>) -> (r: u32)
    ensures
        r == total_items(settled_views(settled@)),
{
    let n = settled.len() as u64;
    if n <= u32::MAX as u64 {
        n as u32
    } else {
        u32::MAX
    }
}

/// Whether a text is in a list.
fn holds(list: &Vec<String>, wanted: &str) -> (r: bool)
    ensures
        r == text::texts(list@).contains(wanted@),
{
    let ghost all = text::texts(list@);
    let mut i: usize = 0;
    while i < list.len()
        invariant
            i <= list.len(),
            all == text::texts(list@),
            forall|j: int| 0 <= j < i ==> all[j] != wanted@,
        decreases list.len() - i,
    {
        if text::same(list[i].as_str(), wanted) {
            assert(all[i as int] == wanted@);
            return true;
        }
        i += 1;
    }
    false
}

/// The refusal of a token that was spent here before, or whose outcome at the
/// mint is unknown.
pub(crate) fn refuse_taken(key_hex: &String, state: &State) -> (r: Refusal)
    ensures
        r@ == taken_before(key_hex@, state@),
{
    match state {
        State::Issued { .. } => Refusal::plain(
            ApiError::already_redeemed("this token already bought a session grant".to_owned()),
        ),
        State::Redeemed { server_id, .. } => Refusal::plain(
            ApiError::already_redeemed(
                text::joined("this token was already redeemed through ", server_id.as_str()),
            ),
        ),
        State::Credential { .. } => Refusal::plain(
            ApiError::already_redeemed("this token already bought an ARC credential".to_owned()),
        ),
        _ => Refusal {
            error: ApiError::token_rejected(
                text::joined3(
                    "an earlier attempt with this token has an unknown outcome (key ",
                    key_hex.as_str(),
                    "); contact the operator",
                ),
            ),
            reconcile: Some(key_hex.clone()),
        },
    }
}

impl Settlement {
    /// Begin to settle a verified request.
    pub fn begin(
        state: &AppState,
        store: &Store,
        ledger: &RedeemStore,
        request: VerifiedRedeem,
        now: u64,
    ) -> (r: (Settlement, SettlementAction))
        requires
            state.wf(),
        ensures
            (r.0@, r.1@) == begun(*state, store@, ledger@, request@, now),
    {
        let given = ledger.answer(request.server_id.as_str(), request.nonce_hex.as_str());
        let mut settlement = Settlement {
            request,
            now,
            settled: Vec::new(),
            epoch: None,
            tags: Vec::new(),
            phase: Phase::Done,
        };
        assert(settled_views(settlement.settled@) == Seq::<SettledView>::empty());
        assert(text::texts(settlement.tags@) == Seq::<Seq<char>>::empty());
        match given {
            Some(answer) => (settlement, SettlementAction::Answer(answer)),
            None => {
                let action = settlement.advance(state, store);
                (settlement, action)
            },
        }
    }

    /// Take a token in hand, given what its text parses to.
    pub fn present_token(
        &mut self,
        state: &AppState,
        store: &Store,
        encoded: &str,
        parsed: Result<TokenSummary, TokenParseError>,
    ) -> (r: SettlementAction)
        ensures
            (final(self)@, r@) == old(self)@.token_presented(
                *state,
                store@,
                encoded@,
                cashu::summary_view(parsed),
            ),
    {
        self.phase = Phase::Done;
        let summary = match payment::accept_token(&state.config, parsed) {
            Ok(summary) => summary,
            Err(e) => return SettlementAction::Refuse(Refusal::plain(e)),
        };
        if !text::same(summary.unit.as_str(), "sat") {
            return SettlementAction::Refuse(
                Refusal::plain(
                    ApiError::wrong_amount(
                        text::joined3("token unit ", summary.unit.as_str(), " is not sat"),
                    ),
                ),
            );
        }
        let key = cashu::token_key(summary.secrets.as_slice());
        let key_hex = encoding::hex_encode(&key);
        match store.get(key_hex.as_str()) {
            None | Some(State::Failed { .. }) => {},
            Some(taken) => return SettlementAction::Refuse(refuse_taken(&key_hex, taken)),
        }
        let (payment, action) = Payment::begin(
            key_hex,
            summary,
            encoded.to_owned(),
            self.now,
            false,
        );
        self.pay(payment, action)
    }

    /// Take the next item in hand, or ask for the answer to be laid out once
    /// every item is settled.
    fn advance(&mut self, state: &AppState, store: &Store) -> (r: SettlementAction)
        requires
            state.wf(),
        ensures
            (final(self)@, r@) == old(self)@.next(*state, store@),
    {
        let at = self.settled.len();
        if at >= self.request.items.len() {
            let (gas_added, sat_value) = totals_of(&self.settled, &state.config.gas.params());
            self.phase = Phase::Sealing;
            return SettlementAction::Preimage {
                nonce: self.request.nonce,
                gas_added,
                sat_value,
                items_accepted: count_of(&self.settled),
            };
        }
        let kind: u8 = self.request.items[at].0;
        let payload = encoding::copy_bytes(self.request.items[at].1.as_slice());
        if kind == CREDIT_PRESENT_KIND_CASHU {
            match text::utf8(payload.as_slice()) {
                Some(content) => {
                    let encoded = text::trim(content);
                    self.present_token(state, store, encoded, TokenSummary::parse(encoded))
                },
                None => {
                    self.phase = Phase::Done;
                    SettlementAction::Refuse(
                        Refusal::plain(
                            ApiError::invalid_request("Cashu token is not UTF-8".to_owned()),
                        ),
                    )
                },
            }
        } else if kind == CREDIT_PRESENT_KIND_ARC {
            if state.arc.is_some() {
                self.phase = Phase::Decoding;
                SettlementAction::Decode(payload)
            } else {
                self.phase = Phase::Done;
                SettlementAction::Refuse(
                    Refusal::plain(
                        ApiError::unsupported_kind(
                            "ARC presentations are not accepted by this cashier yet".to_owned(),
                        ),
                    ),
                )
            }
        } else {
            self.phase = Phase::Done;
            SettlementAction::Refuse(
                Refusal::plain(
                    ApiError::invalid_request(
                        text::joined(
                            "unknown presentation kind ",
                            text::decimal(kind as u128).as_str(),
                        ),
                    ),
                ),
            )
        }
    }

    /// Pass on what a payment asks for, and book the token once it is paid.
    fn pay(&mut self, payment: Payment, action: PaymentAction) -> (r: SettlementAction)
        ensures
            (final(self)@, r@) == old(self)@.paying(payment@, action@),
    {
        match action {
            PaymentAction::Record(event) => {
                self.phase = Phase::Paying(payment);
                SettlementAction::Record(event)
            },
            PaymentAction::Swap(summary, encoded) => {
                self.phase = Phase::Paying(payment);
                SettlementAction::Swap(summary, encoded)
            },
            PaymentAction::Refuse(refusal) => {
                self.phase = Phase::Done;
                SettlementAction::Refuse(refusal)
            },
            PaymentAction::Paid(received) => {
                if received == 0 {
                    self.phase = Phase::Done;
                    return SettlementAction::Refuse(
                        Refusal::plain(
                            ApiError::token_rejected(
                                "the mint credited nothing for this token".to_owned(),
                            ),
                        ),
                    );
                }
                let event = Event {
                    token_key_hex: payment.key_hex.clone(),
                    state: State::Redeemed {
                        server_id: self.request.server_id.clone(),
                        received,
                        mint: payment.summary.mint.clone(),
                        unit: payment.summary.unit.clone(),
                    },
                };
                self.phase = Phase::Booking {
                    key_hex: payment.key_hex,
                    received,
                    mint: payment.summary.mint,
                    unit: payment.summary.unit,
                };
                SettlementAction::Record(event)
            },
        }
    }

    /// Send decoded presentations to be verified.
    fn decode(&mut self, state: &AppState, epoch: u32, presentations: Vec<Vec<u8>>) -> (r:
        SettlementAction)
        ensures
            (final(self)@, r@) == old(self)@.decoded(*state, epoch, byte_lists(presentations@)),
    {
        let counts = match &state.arc {
            Some(arc) => arc.accepts(epoch, self.now),
            None => false,
        };
        if !counts {
            self.phase = Phase::Done;
            return SettlementAction::Refuse(
                Refusal::plain(
                    ApiError::expired_epoch(
                        text::joined3(
                            "ARC epoch ",
                            text::decimal(epoch as u128).as_str(),
                            " is not accepted now",
                        ),
                    ),
                ),
            );
        }
        if let Some(other) = self.epoch {
            if other != epoch {
                self.phase = Phase::Done;
                return SettlementAction::Refuse(
                    Refusal::plain(
                        ApiError::invalid_request("ARC presentations of several epochs".to_owned()),
                    ),
                );
            }
        }
        self.phase = Phase::Verifying { epoch, count: presentations.len() };
        SettlementAction::Verify(epoch, presentations)
    }

    /// Spend verified presentations.
    fn present_tags(
        &mut self,
        state: &AppState,
        store: &Store,
        ledger: &RedeemStore,
        epoch: u32,
        tags: Vec<String>,
    ) -> (r: SettlementAction)
        requires
            state.wf(),
        ensures
            (final(self)@, r@) == old(self)@.presented(
                *state,
                store@,
                ledger@.tags,
                epoch,
                text::texts(tags@),
            ),
    {
        let ghost used = text::texts(self.tags@);
        let ghost all = text::texts(tags@);
        let count = tags.len();
        let mut merged = text::copy_texts(&self.tags);
        let mut i: usize = 0;
        assert(used + all.take(0) == used);
        while i < tags.len()
            invariant
                i <= tags.len(),
                all == text::texts(tags@),
                used == text::texts(self.tags@),
                self.settled == old(self).settled,
                self.request == old(self).request,
                self.now == old(self).now,
                self.epoch == old(self).epoch,
                self.tags == old(self).tags,
                self.phase == old(self).phase,
                text::texts(merged@) == used + all.take(i as int),
                unspent(ledger@.tags, epoch, used, all.take(i as int)),
            decreases tags.len() - i,
        {
            let tag = tags[i].as_str();
            assert(all[i as int] == tag@);
            assert(all.take(i as int) == all.take(i + 1).take(i as int));
            if ledger.has_tag(epoch, tag) || holds(&merged, tag) {
                assert(!unspent(ledger@.tags, epoch, used, all));
                self.phase = Phase::Done;
                return SettlementAction::Refuse(
                    Refusal::plain(
                        ApiError::double_spend("an ARC presentation was already spent".to_owned()),
                    ),
                );
            }
            let ghost before = merged@;
            merged.push(tags[i].clone());
            proof {
                assert(text::texts(merged@) == text::texts(before).push(tag@));
                assert(all.take(i + 1) == all.take(i as int).push(tag@));
                assert(text::texts(merged@) == used + all.take(i + 1));
                let longer = all.take(i + 1);
                assert forall|j: int| 0 <= j < longer.len() implies !ledger@.tags.contains(
                    (epoch, #[trigger] longer[j]),
                ) && !(used + longer.take(j)).contains(longer[j]) by {
                    assert(longer.take(j) == all.take(i as int).take(j));
                    if j < i {
                        assert(longer[j] == all.take(i as int)[j]);
                    }
                }
            }
            i += 1;
        }
        assert(all.take(i as int) == all);
        self.tags = merged;
        self.epoch = Some(epoch);
        let ghost before = self.settled@;
        self.settled.push(Settled::Arc { presentations: count });
        assert(settled_views(self.settled@) == settled_views(before).push(
            SettledView::Arc { presentations: all.len() },
        ));
        self.advance(state, store)
    }

    /// Sign the answer.
    fn seal(&mut self, state: &AppState, preimage: &Vec<u8>) -> (r: SettlementAction)
        requires
            state.wf(),
        ensures
            final(self)@ == old(self)@.at(
                PhaseView::Logging(old(self)@.redemption(*state, preimage@)),
            ),
            r@ == SettlementActionView::Log(old(self)@.redemption(*state, preimage@)),
            crypto::ed25519_verifies(
                crypto::ed25519_public_key(state.issuer.seed()),
                preimage@,
                crypto::ed25519_signature(state.issuer.seed(), preimage@),
            ),
    {
        let (gas_added, sat_value) = totals_of(&self.settled, &state.config.gas.params());
        let signature = state.issuer.sign(preimage.as_slice());
        let event = RedeemEvent {
            server_id: self.request.server_id.clone(),
            nonce_hex: self.request.nonce_hex.clone(),
            unix_time: self.now,
            gas_added,
            sat_value,
            items_accepted: count_of(&self.settled),
            issuer_signature_hex: encoding::hex_encode(&signature),
            epoch: self.epoch,
            tags_hex: text::copy_texts(&self.tags),
        };
        self.phase = Phase::Logging(event.clone());
        SettlementAction::Log(event)
    }

    /// Take in how what was asked for went, and say what comes next. The
    /// signature of a redemption verifies under the published key.
    pub fn step(
        &mut self,
        state: &AppState,
        store: &mut Store,
        ledger: &mut RedeemStore,
        reply: SettlementReply,
    ) -> (r: SettlementAction)
        requires
            state.wf(),
            old(store).wf(),
            old(ledger).wf(),
        ensures
            final(store).wf(),
            final(store).location() == old(store).location(),
            final(ledger).wf(),
            final(ledger).location() == old(ledger).location(),
            (final(self)@, final(store)@, final(ledger)@, r@) == old(self)@.after(
                *state,
                old(store)@,
                old(ledger)@,
                reply@,
            ),
            r@ matches SettlementActionView::Log(event) ==> crypto::ed25519_verifies(
                crypto::ed25519_public_key(state.issuer.seed()),
                reply@->Preimage_0,
                encoding::hex_bytes(event.issuer_signature_hex),
            ),
    {
        let mut phase = Phase::Done;
        std::mem::swap(&mut phase, &mut self.phase);
        match (phase, reply) {
            (Phase::Paying(mut payment), SettlementReply::Recorded(r)) => {
                let action = payment.step(store, PaymentReply::Recorded(r));
                self.pay(payment, action)
            },
            (Phase::Paying(mut payment), SettlementReply::Swapped(r)) => {
                let action = payment.step(store, PaymentReply::Swapped(r));
                self.pay(payment, action)
            },
            (
                Phase::Booking { key_hex, received, mint, unit },
                SettlementReply::Recorded(Ok(())),
            ) => {
                store.record(
                    key_hex.as_str(),
                    State::Redeemed {
                        server_id: self.request.server_id.clone(),
                        received,
                        mint,
                        unit,
                    },
                );
                let ghost before = self.settled@;
                self.settled.push(Settled::Cashu { key_hex, received });
                assert(settled_views(self.settled@) == settled_views(before).push(
                    SettledView::Cashu { key_hex: key_hex@, received },
                ));
                self.advance(state, store)
            },
            (Phase::Booking { .. }, SettlementReply::Recorded(Err(why))) => {
                SettlementAction::Refuse(Refusal::unrecorded(why.as_str()))
            },
            (Phase::Decoding, SettlementReply::Decoded(Ok((epoch, presentations)))) => {
                self.decode(state, epoch, presentations)
            },
            (Phase::Decoding, SettlementReply::Decoded(Err(why))) => SettlementAction::Refuse(
                Refusal::plain(
                    ApiError::invalid_request(text::joined("ARC payload: ", why.as_str())),
                ),
            ),
            (Phase::Verifying { epoch, count }, SettlementReply::Verified(Ok(tags))) => {
                if tags.len() == count {
                    self.present_tags(state, store, ledger, epoch, tags)
                } else {
                    SettlementAction::Refuse(Refusal::unexpected())
                }
            },
            (Phase::Verifying { .. }, SettlementReply::Verified(Err(e))) => {
                let message = e.message();
                let error = match e {
                    ArcError::Malformed(_, _) => ApiError::invalid_request(message),
                    ArcError::Invalid(_) => ApiError::token_rejected(message),
                };
                SettlementAction::Refuse(Refusal::plain(error))
            },
            (Phase::Sealing, SettlementReply::Preimage(preimage)) => {
                proof {
                    encoding::hex_round_trip(
                        crypto::ed25519_signature(state.issuer.seed(), preimage@),
                    );
                }
                self.seal(state, &preimage)
            },
            (Phase::Logging(event), SettlementReply::Logged(Ok(()))) => {
                let answer = event.response();
                ledger.record(event);
                SettlementAction::Answer(answer)
            },
            (Phase::Logging(_), SettlementReply::Logged(Err(why))) => SettlementAction::Refuse(
                Refusal::plain(
                    ApiError::internal(text::joined("redeem store: append: ", why.as_str())),
                ),
            ),
            _ => SettlementAction::Refuse(Refusal::unexpected()),
        }
    }
}

} // verus!
