//! Taking a token: the steps from a token that was accepted offline to money
//! in the cashier's wallet.
//!
//! A payment asks for one thing at a time (append an event to the token log,
//! swap the token at the mint) and is told how that went. The `pending`
//! marker is in the log before the swap is asked for, so that no swap is ever
//! attempted of which the log knows nothing.

use vstd::prelude::*;

use crate::api::{ApiError, ApiErrorView};
use crate::cashu;
use crate::cashu::{
    SwapError, SwapErrorView, TokenParseError, TokenParseErrorView, TokenSummary, TokenSummaryView,
};
use crate::config;
use crate::config::Config;
use crate::encoding;
use crate::store::{Event, EventView, State, StateView, Store};
use crate::text;

verus! {

/// An error answer. `reconcile` is the key of a token whose outcome at the
/// mint is unknown, which the operator has to look into.
#[derive(Debug, PartialEq, Eq)]
pub struct Refusal {
    pub error: ApiError,
    pub reconcile: Option<String>,
}

/// The model of a [`Refusal`].
pub struct RefusalView {
    pub error: ApiErrorView,
    pub reconcile: Option<Seq<char>>,
}

impl View for Refusal {
    type V = RefusalView;

    open spec fn view(&self) -> RefusalView {
        RefusalView {
            error: self.error@,
            reconcile: match self.reconcile {
                Some(key) => Some(key@),
                None => None,
            },
        }
    }
}

impl RefusalView {
    /// A refusal that leaves nothing to look into.
    pub open spec fn plain(error: ApiErrorView) -> Self {
        RefusalView { error, reconcile: None }
    }

    /// A refusal because an event could not be appended to the token log.
    pub open spec fn unrecorded(why: Seq<char>) -> Self {
        RefusalView::plain(ApiErrorView::internal("store: append: "@ + why))
    }

    /// A refusal because a reply does not fit what was asked.
    pub open spec fn unexpected() -> Self {
        RefusalView::plain(ApiErrorView::internal("unexpected reply"@))
    }
}

impl Refusal {
    /// A refusal that leaves nothing to look into.
    pub fn plain(error: ApiError) -> (r: Self)
        ensures
            r@ == RefusalView::plain(error@),
    {
        Refusal { error, reconcile: None }
    }

    /// A refusal because an event could not be appended to the token log.
    pub fn unrecorded(why: &str) -> (r: Self)
        ensures
            r@ == RefusalView::unrecorded(why@),
    {
        Refusal::plain(ApiError::internal(text::joined("store: append: ", why)))
    }

    /// A refusal because a reply does not fit what was asked.
    pub fn unexpected() -> (r: Self)
        ensures
            r@ == RefusalView::unexpected(),
    {
        Refusal::plain(ApiError::internal("unexpected reply".to_owned()))
    }
}

/// The token that was offered, if it can be read and its mint is accepted.
pub open spec fn token_accepted(
    config: Config,
    parsed: Result<TokenSummaryView, TokenParseErrorView>,
) -> Result<TokenSummaryView, ApiErrorView> {
    match parsed {
        Err(e) => Err(ApiErrorView::invalid_request(e.message())),
        Ok(summary) => if config.serves(summary.mint) {
            Ok(summary)
        } else {
            Err(ApiErrorView::mint_not_accepted(summary.mint + " is not an accepted mint"@))
        },
    }
}

/// The token that was offered, if it can be read and its mint is accepted.
pub fn accept_token(config: &Config, parsed: Result<TokenSummary, TokenParseError>) -> (r: Result<
    TokenSummary,
    ApiError,
>)
    ensures
        match r {
            Ok(summary) => token_accepted(*config, cashu::summary_view(parsed)) == Ok::<
                TokenSummaryView,
                ApiErrorView,
            >(summary@),
            Err(e) => token_accepted(*config, cashu::summary_view(parsed)) == Err::<
                TokenSummaryView,
                ApiErrorView,
            >(e@),
        },
{
    match parsed {
        Err(e) => Err(ApiError::invalid_request(e.message())),
        Ok(summary) => if config.accepts_mint(summary.mint.as_str()) {
            Ok(summary)
        } else {
            Err(
                ApiError::mint_not_accepted(
                    text::joined(summary.mint.as_str(), " is not an accepted mint"),
                ),
            )
        },
    }
}

/// The key of a token in the token log.
pub open spec fn log_key(secrets: Seq<Seq<char>>) -> Seq<char> {
    encoding::hex_text(cashu::key_of(secrets))
}

/// How far a payment is.
#[derive(Debug, PartialEq, Eq)]
pub enum Stage {
    /// The `pending` marker is being appended to the log.
    Marking,
    /// The token is being swapped. An earlier attempt may have left its
    /// outcome unknown.
    Swapping { unknown_before: bool },
    /// The failure is being appended to the log.
    Failing { reason: String, refusal: Refusal },
    /// Nothing more is asked for.
    Over,
}

/// The model of a [`Stage`].
pub enum StageView {
    Marking,
    Swapping { unknown_before: bool },
    Failing { reason: Seq<char>, refusal: RefusalView },
    Over,
}

impl View for Stage {
    type V = StageView;

    open spec fn view(&self) -> StageView {
        match self {
            Stage::Marking => StageView::Marking,
            Stage::Swapping { unknown_before } => StageView::Swapping {
                unknown_before: *unknown_before,
            },
            Stage::Failing { reason, refusal } => StageView::Failing {
                reason: reason@,
                refusal: refusal@,
            },
            Stage::Over => StageView::Over,
        }
    }
}

/// A token on its way into the cashier's wallet.
#[derive(Debug, PartialEq, Eq)]
pub struct Payment {
    pub key_hex: String,
    pub summary: TokenSummary,
    pub encoded: String,
    pub now: u64,
    pub stage: Stage,
}

/// The model of a [`Payment`].
pub struct PaymentView {
    pub key_hex: Seq<char>,
    pub summary: TokenSummaryView,
    pub encoded: Seq<char>,
    pub now: u64,
    pub stage: StageView,
}

impl View for Payment {
    type V = PaymentView;

    open spec fn view(&self) -> PaymentView {
        PaymentView {
            key_hex: self.key_hex@,
            summary: self.summary@,
            encoded: self.encoded@,
            now: self.now,
            stage: self.stage@,
        }
    }
}

/// What a payment asks for.
#[derive(Debug, PartialEq, Eq)]
pub enum PaymentAction {
    /// Append this event to the token log.
    Record(Event),
    /// Swap the token: its summary, and its text.
    Swap(TokenSummary, String),
    /// The mint credited this amount.
    Paid(u64),
    /// There is no money.
    Refuse(Refusal),
}

/// The model of a [`PaymentAction`].
pub enum PaymentActionView {
    Record(EventView),
    Swap(TokenSummaryView, Seq<char>),
    Paid(u64),
    Refuse(RefusalView),
}

impl View for PaymentAction {
    type V = PaymentActionView;

    open spec fn view(&self) -> PaymentActionView {
        match self {
            PaymentAction::Record(event) => PaymentActionView::Record(event@),
            PaymentAction::Swap(summary, encoded) => PaymentActionView::Swap(summary@, encoded@),
            PaymentAction::Paid(received) => PaymentActionView::Paid(*received),
            PaymentAction::Refuse(refusal) => PaymentActionView::Refuse(refusal@),
        }
    }
}

/// How what a payment asked for went.
#[derive(Debug, PartialEq, Eq)]
pub enum PaymentReply {
    /// The event was appended, or why it was not.
    Recorded(Result<(), String>),
    /// The mint credited an amount, or why it did not.
    Swapped(Result<u64, SwapError>),
}

/// The model of a [`PaymentReply`].
pub enum PaymentReplyView {
    Recorded(Result<(), Seq<char>>),
    Swapped(Result<u64, SwapErrorView>),
}

/// The model of the outcome of appending to a log.
pub open spec fn recorded_view(r: Result<(), String>) -> Result<(), Seq<char>> {
    match r {
        Ok(()) => Ok(()),
        Err(why) => Err(why@),
    }
}

impl View for PaymentReply {
    type V = PaymentReplyView;

    open spec fn view(&self) -> PaymentReplyView {
        match self {
            PaymentReply::Recorded(r) => PaymentReplyView::Recorded(recorded_view(*r)),
            PaymentReply::Swapped(r) => PaymentReplyView::Swapped(cashu::swap_view(*r)),
        }
    }
}

impl PaymentView {
    /// The payment at another stage.
    pub open spec fn at(self, stage: StageView) -> Self {
        PaymentView { stage, ..self }
    }

    /// The token's state while the swap is under way.
    pub open spec fn marker(self) -> StateView {
        StateView::Pending { first_seen: self.now }
    }

    /// The token's state after a swap that failed.
    pub open spec fn failure(self, reason: Seq<char>) -> StateView {
        StateView::Failed { at: self.now, reason }
    }

    /// The event that gives the token a new state.
    pub open spec fn event(self, state: StateView) -> EventView {
        EventView { token_key_hex: self.key_hex, state }
    }

    /// The refusal after an earlier attempt of unknown outcome.
    pub open spec fn irreconcilable(self) -> RefusalView {
        RefusalView {
            error: ApiErrorView::token_rejected(
                "the mint rejects this token and an earlier attempt's outcome is unknown (key "@
                    + self.key_hex + "); contact the operator"@,
            ),
            reconcile: Some(self.key_hex),
        }
    }

    /// The first thing a payment asks for.
    pub open spec fn first_action(self) -> PaymentActionView {
        match self.stage {
            StageView::Marking => PaymentActionView::Record(self.event(self.marker())),
            StageView::Swapping { .. } => PaymentActionView::Swap(self.summary, self.encoded),
            _ => PaymentActionView::Refuse(RefusalView::unexpected()),
        }
    }

    /// What follows a reply: the payment, the token states, and what is asked
    /// for next.
    pub open spec fn after(self, states: Map<Seq<char>, StateView>, reply: PaymentReplyView) -> (
        PaymentView,
        Map<Seq<char>, StateView>,
        PaymentActionView,
    ) {
        match (self.stage, reply) {
            (StageView::Marking, PaymentReplyView::Recorded(Ok(()))) => (
                self.at(StageView::Swapping { unknown_before: false }),
                states.insert(self.key_hex, self.marker()),
                PaymentActionView::Swap(self.summary, self.encoded),
            ),
            (StageView::Marking, PaymentReplyView::Recorded(Err(why))) => (
                self.at(StageView::Over),
                states,
                PaymentActionView::Refuse(RefusalView::unrecorded(why)),
            ),
            (StageView::Swapping { .. }, PaymentReplyView::Swapped(Ok(received))) => (
                self.at(StageView::Over),
                states,
                PaymentActionView::Paid(received),
            ),
            (
                StageView::Swapping { unknown_before },
                PaymentReplyView::Swapped(Err(SwapErrorView::Rejected(reason))),
            ) => if unknown_before {
                (
                    self.at(StageView::Over),
                    states,
                    PaymentActionView::Refuse(self.irreconcilable()),
                )
            } else {
                (
                    self.at(
                        StageView::Failing {
                            reason,
                            refusal: RefusalView::plain(ApiErrorView::token_rejected(reason)),
                        },
                    ),
                    states,
                    PaymentActionView::Record(self.event(self.failure(reason))),
                )
            },
            (
                StageView::Swapping { unknown_before },
                PaymentReplyView::Swapped(Err(SwapErrorView::Unavailable(reason))),
            ) => {
                let refusal = RefusalView::plain(ApiErrorView::mint_unavailable(reason));
                if unknown_before {
                    (self.at(StageView::Over), states, PaymentActionView::Refuse(refusal))
                } else {
                    (
                        self.at(StageView::Failing { reason, refusal }),
                        states,
                        PaymentActionView::Record(self.event(self.failure(reason))),
                    )
                }
            },
            (
                StageView::Swapping { .. },
                PaymentReplyView::Swapped(Err(SwapErrorView::Unknown(reason))),
            ) => (
                self.at(StageView::Over),
                states,
                PaymentActionView::Refuse(
                    RefusalView {
                        error: ApiErrorView::mint_unavailable(reason),
                        reconcile: Some(self.key_hex),
                    },
                ),
            ),
            (StageView::Failing { reason, refusal }, PaymentReplyView::Recorded(Ok(()))) => (
                self.at(StageView::Over),
                states.insert(self.key_hex, self.failure(reason)),
                PaymentActionView::Refuse(refusal),
            ),
            (StageView::Failing { .. }, PaymentReplyView::Recorded(Err(why))) => (
                self.at(StageView::Over),
                states,
                PaymentActionView::Refuse(RefusalView::unrecorded(why)),
            ),
            _ => (
                self.at(StageView::Over),
                states,
                PaymentActionView::Refuse(RefusalView::unexpected()),
            ),
        }
    }

    /// What holds at every stage: the log has the marker from before the swap
    /// until its outcome is known.
    pub open spec fn marked(self, states: Map<Seq<char>, StateView>) -> bool {
        self.stage is Swapping || self.stage is Failing ==> states.contains_key(self.key_hex)
            && states[self.key_hex] is Pending
    }
}

impl Payment {
    /// Begin to take a token. Where an earlier attempt left its outcome
    /// unknown, its marker is in the log already and the swap comes first.
    pub fn begin(
        key_hex: String,
        summary: TokenSummary,
        encoded: String,
        now: u64,
        unknown_before: bool,
    ) -> (r: (Payment, PaymentAction))
        ensures
            r.0@ == (PaymentView {
                key_hex: key_hex@,
                summary: summary@,
                encoded: encoded@,
                now,
                stage: if unknown_before {
                    StageView::Swapping { unknown_before }
                } else {
                    StageView::Marking
                },
            }),
            r.1@ == r.0@.first_action(),
    {
        if unknown_before {
            let action = PaymentAction::Swap(summary.clone(), encoded.clone());
            (
                Payment { key_hex, summary, encoded, now, stage: Stage::Swapping { unknown_before } },
                action,
            )
        } else {
            let action = PaymentAction::Record(
                Event { token_key_hex: key_hex.clone(), state: State::Pending { first_seen: now } },
            );
            (Payment { key_hex, summary, encoded, now, stage: Stage::Marking }, action)
        }
    }

    /// The event that records a failed swap.
    fn failure_event(&self, reason: &String) -> (r: Event)
        ensures
            r@ == self@.event(self@.failure(reason@)),
    {
        Event {
            token_key_hex: self.key_hex.clone(),
            state: State::Failed { at: self.now, reason: reason.clone() },
        }
    }

    /// Take in how what was asked for went, and say what comes next.
    pub fn step(&mut self, store: &mut Store, reply: PaymentReply) -> (r: PaymentAction)
        requires
            old(store).wf(),
        ensures
            final(store).wf(),
            final(store).location() == old(store).location(),
            (final(self)@, final(store)@, r@) == old(self)@.after(old(store)@, reply@),
    {
        let mut stage = Stage::Over;
        std::mem::swap(&mut stage, &mut self.stage);
        match (stage, reply) {
            (Stage::Marking, PaymentReply::Recorded(Ok(()))) => {
                store.record(self.key_hex.as_str(), State::Pending { first_seen: self.now });
                self.stage = Stage::Swapping { unknown_before: false };
                PaymentAction::Swap(self.summary.clone(), self.encoded.clone())
            },
            (Stage::Marking, PaymentReply::Recorded(Err(why))) => PaymentAction::Refuse(
                Refusal::unrecorded(why.as_str()),
            ),
            (Stage::Swapping { .. }, PaymentReply::Swapped(Ok(received))) => PaymentAction::Paid(
                received,
            ),
            (
                Stage::Swapping { unknown_before },
                PaymentReply::Swapped(Err(SwapError::Rejected(reason))),
            ) => if unknown_before {
                let message = text::joined3(
                    "the mint rejects this token and an earlier attempt's outcome is unknown (key ",
                    self.key_hex.as_str(),
                    "); contact the operator",
                );
                PaymentAction::Refuse(
                    Refusal {
                        error: ApiError::token_rejected(message),
                        reconcile: Some(self.key_hex.clone()),
                    },
                )
            } else {
                let event = self.failure_event(&reason);
                let refusal = Refusal::plain(ApiError::token_rejected(reason.clone()));
                self.stage = Stage::Failing { reason, refusal };
                PaymentAction::Record(event)
            },
            (
                Stage::Swapping { unknown_before },
                PaymentReply::Swapped(Err(SwapError::Unavailable(reason))),
            ) => {
                let refusal = Refusal::plain(ApiError::mint_unavailable(reason.clone()));
                if unknown_before {
                    PaymentAction::Refuse(refusal)
                } else {
                    let event = self.failure_event(&reason);
                    self.stage = Stage::Failing { reason, refusal };
                    PaymentAction::Record(event)
                }
            },
            (Stage::Swapping { .. }, PaymentReply::Swapped(Err(SwapError::Unknown(reason)))) => {
                PaymentAction::Refuse(
                    Refusal {
                        error: ApiError::mint_unavailable(reason),
                        reconcile: Some(self.key_hex.clone()),
                    },
                )
            },
            (Stage::Failing { reason, refusal }, PaymentReply::Recorded(Ok(()))) => {
                store.record(self.key_hex.as_str(), State::Failed { at: self.now, reason });
                PaymentAction::Refuse(refusal)
            },
            (Stage::Failing { .. }, PaymentReply::Recorded(Err(why))) => PaymentAction::Refuse(
                Refusal::unrecorded(why.as_str()),
            ),
            _ => PaymentAction::Refuse(Refusal::unexpected()),
        }
    }
}

/// Every step keeps the marker in the log from before the swap until its
/// outcome is known.
pub proof fn payment_stays_marked(
    payment: PaymentView,
    states: Map<Seq<char>, StateView>,
    reply: PaymentReplyView,
)
    requires
        payment.marked(states),
    ensures
        payment.after(states, reply).0.marked(payment.after(states, reply).1),
{
}

/// A swap is asked for only when the log has the marker; and a payment is
/// paid only by the mint's own word, with the marker still in the log.
pub proof fn no_swap_without_marker(
    payment: PaymentView,
    states: Map<Seq<char>, StateView>,
    reply: PaymentReplyView,
)
    requires
        payment.marked(states),
    ensures
        ({
            let (next, after, action) = payment.after(states, reply);
            &&& action is Swap ==> after.contains_key(payment.key_hex) && after[payment.key_hex]
                == payment.marker()
            &&& action matches PaymentActionView::Paid(received) ==> {
                &&& reply == PaymentReplyView::Swapped(Ok(received))
                &&& after.contains_key(payment.key_hex)
                &&& after[payment.key_hex] is Pending
            }
        }),
{
}

/// A payment touches no token but its own, and gives that one no state but
/// `pending` and `failed`.
pub proof fn payment_touches_its_token(
    payment: PaymentView,
    states: Map<Seq<char>, StateView>,
    reply: PaymentReplyView,
    key: Seq<char>,
)
    ensures
        ({
            let after = payment.after(states, reply).1;
            let same = states.contains_key(key) == after.contains_key(key) && (states.contains_key(
                key,
            ) ==> states[key] == after[key]);
            same || (key == payment.key_hex && after.contains_key(key) && (after[key] is Pending
                || after[key] is Failed))
        }),
{
}

/// A swap of unknown outcome, and a rejection after one, leave the marker in
/// the log and name the token to the operator.
pub proof fn unknown_outcomes_stay_pending(
    payment: PaymentView,
    states: Map<Seq<char>, StateView>,
    reply: PaymentReplyView,
)
    requires
        payment.marked(states),
        payment.stage is Swapping,
        reply matches PaymentReplyView::Swapped(Err(e)) && (e is Unknown || (e is Rejected
            && payment.stage->unknown_before)),
    ensures
        ({
            let (next, after, action) = payment.after(states, reply);
            &&& after == states
            &&& after[payment.key_hex] is Pending
            &&& action matches PaymentActionView::Refuse(refusal) && refusal.reconcile == Some(
                payment.key_hex,
            )
        }),
{
}

/// A token that can be read is accepted, as it is, if its mint is one of the
/// list, wherever on the list that one stands and whatever slashes follow its
/// URL.
pub proof fn tokens_of_listed_mints_are_accepted(
    config: Config,
    summary: TokenSummaryView,
    i: int,
    slashes: nat,
)
    requires
        0 <= i < config.mints@.len(),
        config.mints@[i]@.len() > 0 ==> config.mints@[i]@.last() != '/',
        summary.mint == config.mints@[i]@ + Seq::new(slashes, |k: int| '/'),
    ensures
        token_accepted(config, Ok(summary)) == Ok::<TokenSummaryView, ApiErrorView>(summary),
{
    config::listed_mints_are_served(config, i, slashes);
}

/// A token that cannot be read is turned down as an invalid request, and one
/// of a mint that is not on the list as such; no other is.
pub proof fn other_tokens_are_turned_down(
    config: Config,
    parsed: Result<TokenSummaryView, TokenParseErrorView>,
)
    ensures
        parsed is Err ==> (token_accepted(config, parsed) matches Err(e) && e.status == 400
            && e.error == "invalid_request"@),
        parsed matches Ok(summary) && !(exists|i: int|
            0 <= i < config.mints@.len() && text::differs_in_end_slashes(
                summary.mint,
                (#[trigger] config.mints@[i])@,
            )) ==> (token_accepted(config, parsed) matches Err(e) && e.status == 400 && e.error
            == "mint_not_accepted"@),
        token_accepted(config, parsed) matches Ok(summary) ==> parsed == Ok::<
            TokenSummaryView,
            TokenParseErrorView,
        >(summary),
{
    if let Ok(summary) = parsed {
        if config.serves(summary.mint) {
            config::only_listed_mints_are_served(config, summary.mint);
        }
    }
}

/// What becomes of a token whose swap is under way. Money is what the mint
/// credited. A mint that refuses the token, or cannot be reached, has the
/// failure recorded, with the moment and the mint's words, and only then is
/// the client told: 402 and 503. Where the token's outcome was unknown before,
/// nothing is recorded over the marker.
pub proof fn swaps_have_their_consequences(
    payment: PaymentView,
    states: Map<Seq<char>, StateView>,
    unknown_before: bool,
    received: u64,
    why: Seq<char>,
)
    requires
        payment.stage == (StageView::Swapping { unknown_before }),
    ensures
        ({
            let paid = payment.after(states, PaymentReplyView::Swapped(Ok(received)));
            paid.1 == states && paid.2 == PaymentActionView::Paid(received)
        }),
        ({
            let rejected = payment.after(
                states,
                PaymentReplyView::Swapped(Err(SwapErrorView::Rejected(why))),
            );
            let down = payment.after(
                states,
                PaymentReplyView::Swapped(Err(SwapErrorView::Unavailable(why))),
            );
            let failed = EventView {
                token_key_hex: payment.key_hex,
                state: StateView::Failed { at: payment.now, reason: why },
            };
            &&& rejected.1 == states
            &&& down.1 == states
            &&& !unknown_before ==> {
                &&& rejected.2 == PaymentActionView::Record(failed)
                &&& down.2 == PaymentActionView::Record(failed)
                &&& failure_is_told(rejected.0, states, failed, 402, "token_rejected"@, why)
                &&& failure_is_told(down.0, states, failed, 503, "mint_unavailable"@, why)
            }
            &&& unknown_before ==> {
                &&& rejected.2 matches PaymentActionView::Refuse(refusal) && refusal.error.status
                    == 402 && refusal.error.error == "token_rejected"@ && refusal.reconcile == Some(
                    payment.key_hex,
                )
                &&& down.2 matches PaymentActionView::Refuse(refusal) && refusal.error.status == 503
                    && refusal.error.error == "mint_unavailable"@
            }
        }),
        ({
            let silent = payment.after(
                states,
                PaymentReplyView::Swapped(Err(SwapErrorView::Unknown(why))),
            );
            &&& silent.1 == states
            &&& silent.2 matches PaymentActionView::Refuse(refusal) && refusal.error.status == 503
                && refusal.error.error == "mint_unavailable"@ && refusal.reconcile == Some(
                payment.key_hex,
            )
        }),
{
}

/// Whether a payment, once its failure is recorded, has the failure in the
/// log and tells the client.
pub open spec fn failure_is_told(
    payment: PaymentView,
    states: Map<Seq<char>, StateView>,
    failed: EventView,
    status: u16,
    error: Seq<char>,
    why: Seq<char>,
) -> bool {
    let told = payment.after(states, PaymentReplyView::Recorded(Ok(())));
    &&& told.1 == states.insert(failed.token_key_hex, failed.state)
    &&& told.2 matches PaymentActionView::Refuse(refusal) && refusal.error.status == status
        && refusal.error.error == error && refusal.error.message == why && refusal.reconcile is None
}

/// A payment begins with its marker, and goes on to the swap of the token's
/// own text only when the marker is in the log. A marker or a failure that
/// cannot be recorded ends it with 500, and leaves the log as it is.
pub proof fn markers_come_first(
    payment: PaymentView,
    states: Map<Seq<char>, StateView>,
    why: Seq<char>,
)
    requires
        payment.stage is Marking,
    ensures
        payment.first_action() == PaymentActionView::Record(
            EventView {
                token_key_hex: payment.key_hex,
                state: StateView::Pending { first_seen: payment.now },
            },
        ),
        ({
            let marked = payment.after(states, PaymentReplyView::Recorded(Ok(())));
            &&& marked.1 == states.insert(
                payment.key_hex,
                StateView::Pending { first_seen: payment.now },
            )
            &&& marked.2 == PaymentActionView::Swap(payment.summary, payment.encoded)
            &&& marked.0.stage == (StageView::Swapping { unknown_before: false })
            &&& marked.0.key_hex == payment.key_hex
            &&& marked.0.now == payment.now
        }),
        ({
            let unmarked = payment.after(states, PaymentReplyView::Recorded(Err(why)));
            &&& unmarked.1 == states
            &&& unmarked.2 matches PaymentActionView::Refuse(refusal) && refusal.error.status == 500
                && refusal.error.error == "internal"@
        }),
{
}

} // verus!
