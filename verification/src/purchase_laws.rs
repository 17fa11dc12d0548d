//! What holds of every purchase: no goods without money, whatever is replied to
//! it, and the goods that were paid for where all goes well.

use vstd::prelude::*;

use crate::api;
use crate::api::{ApiErrorView, AppState};
use crate::arc::{ArcErrorView, ArcKeys};
use crate::cashu;
use crate::cashu::{SwapErrorView, TokenParseErrorView, TokenSummaryView};
use crate::config;
use crate::config::{Config, CredentialOffer, OfferView, SessionTerms};
use crate::credit;
use crate::credit::{ArcInfoV2, CredentialRequestV2, CredentialResponseView, OfferV2};
use crate::encoding;
use crate::grant;
use crate::payment;
use crate::payment::{PaymentReplyView, PaymentView, RefusalView, StageView};
use crate::purchase;
use crate::purchase::{
    GoodsView, GrantRequest, PurchaseActionView, PurchaseReplyView, PurchaseView,
};
use crate::settlement_laws;
use crate::store::{EventView, StateView};
use crate::text;

verus! {

/// A purchase with the token log it works on, and what it asks for.
pub struct Sale {
    pub purchase: PurchaseView,
    pub states: Map<Seq<char>, StateView>,
    pub action: PurchaseActionView,
}

/// Where a purchase stands after some replies.
pub open spec fn sold(start: Sale, replies: Seq<PurchaseReplyView>) -> Sale
    decreases replies.len(),
{
    if replies.len() == 0 {
        start
    } else {
        let before = sold(start, replies.drop_last());
        let (purchase, states, action) = before.purchase.after(before.states, replies.last());
        Sale { purchase, states, action }
    }
}

/// A purchase as it begins.
pub open spec fn begins(
    begun: (PurchaseView, PurchaseActionView),
    states: Map<Seq<char>, StateView>,
) -> Sale {
    Sale { purchase: begun.0, states, action: begun.1 }
}

/// Whether a mint credited an amount in one of some replies.
pub open spec fn was_credited(replies: Seq<PurchaseReplyView>, received: u64) -> bool {
    exists|i: int|
        0 <= i < replies.len() && #[trigger] replies[i] == PurchaseReplyView::Swapped(Ok(received))
}

/// Whether goods were made of what one of some replies brought.
pub open spec fn made_of(replies: Seq<PurchaseReplyView>, goods: GoodsView, state: StateView) -> bool {
    match (goods, state) {
        (GoodsView::Grant(terms), StateView::Issued { grant, .. }) => exists|i: int|
            0 <= i < replies.len() && replies[i] is Signed && replies[i]->Signed_0 is Ok && grant
                == grant::grant_of(terms, (#[trigger] replies[i])->Signed_0->Ok_0),
        (
            GoodsView::Credential { epoch, limit, request },
            StateView::Credential { request_hex, response, .. },
        ) => {
            &&& request_hex == encoding::hex_text(request)
            &&& response.epoch == epoch
            &&& response.presentation_limit == limit
            &&& exists|i: int|
                0 <= i < replies.len() && replies[i] is Issued && replies[i]->Issued_0 is Ok
                    && response.issuer_public_key_hex == (
                #[trigger] replies[i])->Issued_0->Ok_0.0 && response.response_hex
                    == encoding::hex_text(replies[i]->Issued_0->Ok_0.1)
        },
        _ => false,
    }
}

/// The amount that the mint credited for a token.
pub open spec fn received_for(state: StateView) -> u64 {
    match state {
        StateView::Issued { received, .. } => received,
        StateView::Redeemed { received, .. } => received,
        StateView::Credential { received, .. } => received,
        _ => 0,
    }
}

/// Whether a token paid for goods: the mint credited it, and the goods were
/// made as ordered.
pub open spec fn paid_for(
    replies: Seq<PurchaseReplyView>,
    goods: GoodsView,
    state: StateView,
) -> bool {
    was_credited(replies, received_for(state)) && made_of(replies, goods, state)
}

/// What holds of a purchase of `goods` with the token `key_hex` after any
/// replies.
spec fn fair(
    sale: Sale,
    key_hex: Seq<char>,
    goods: GoodsView,
    replies: Seq<PurchaseReplyView>,
) -> bool {
    &&& match sale.purchase {
        PurchaseView::Paying(payment, wanted) => {
            &&& payment.key_hex == key_hex
            &&& wanted == goods
            &&& payment.marked(sale.states)
        },
        PurchaseView::Making { key_hex: key, received, goods: wanted, .. } => {
            &&& key == key_hex
            &&& wanted == goods
            &&& was_credited(replies, received)
        },
        PurchaseView::Booking { key_hex: key, state } => {
            &&& key == key_hex
            &&& paid_for(replies, goods, state)
        },
        PurchaseView::Done => true,
    }
    &&& sale.action matches PurchaseActionView::AnswerGrant(grant) ==> {
        &&& sale.states.contains_key(key_hex)
        &&& sale.states[key_hex] matches StateView::Issued { grant: g, .. } && g == grant
        &&& paid_for(replies, goods, sale.states[key_hex])
    }
    &&& sale.action matches PurchaseActionView::AnswerCredential(response) ==> {
        &&& sale.states.contains_key(key_hex)
        &&& sale.states[key_hex] matches StateView::Credential { response: r, .. } && r == response
        &&& paid_for(replies, goods, sale.states[key_hex])
    }
}

/// What earlier replies brought is still there after one more.
proof fn earlier_replies_count(
    replies: Seq<PurchaseReplyView>,
    reply: PurchaseReplyView,
    goods: GoodsView,
    state: StateView,
    received: u64,
)
    ensures
        was_credited(replies, received) ==> was_credited(replies.push(reply), received),
        made_of(replies, goods, state) ==> made_of(replies.push(reply), goods, state),
{
    let all = replies.push(reply);
    if was_credited(replies, received) {
        let i = choose|i: int|
            0 <= i < replies.len() && #[trigger] replies[i] == PurchaseReplyView::Swapped(
                Ok(received),
            );
        assert(all[i] == replies[i]);
    }
    assert forall|i: int| 0 <= i < replies.len() implies #[trigger] replies[i] == all[i] by {}
}

proof fn step_is_fair(
    sale: Sale,
    key_hex: Seq<char>,
    goods: GoodsView,
    replies: Seq<PurchaseReplyView>,
    reply: PurchaseReplyView,
)
    requires
        fair(sale, key_hex, goods, replies),
    ensures
        ({
            let (purchase, states, action) = sale.purchase.after(sale.states, reply);
            fair(Sale { purchase, states, action }, key_hex, goods, replies.push(reply))
        }),
{
    let all = replies.push(reply);
    let (purchase, states, action) = sale.purchase.after(sale.states, reply);
    assert(all[all.len() - 1] == reply);
    match (sale.purchase, reply) {
        (PurchaseView::Paying(payment, wanted), PurchaseReplyView::Recorded(r)) => {
            payment::payment_stays_marked(payment, sale.states, PaymentReplyView::Recorded(r));
        },
        (PurchaseView::Paying(payment, wanted), PurchaseReplyView::Swapped(r)) => {
            payment::payment_stays_marked(payment, sale.states, PaymentReplyView::Swapped(r));
            payment::no_swap_without_marker(payment, sale.states, PaymentReplyView::Swapped(r));
        },
        (PurchaseView::Making { received, goods: wanted, .. }, _) => {
            earlier_replies_count(
                replies,
                reply,
                goods,
                StateView::Pending { first_seen: 0 },
                received,
            );
        },
        (PurchaseView::Booking { state, .. }, _) => {
            earlier_replies_count(replies, reply, goods, state, received_for(state));
        },
        _ => {},
    }
}

proof fn sale_is_fair(
    start: Sale,
    key_hex: Seq<char>,
    goods: GoodsView,
    replies: Seq<PurchaseReplyView>,
)
    requires
        fair(start, key_hex, goods, Seq::empty()),
    ensures
        fair(sold(start, replies), key_hex, goods, replies),
    decreases replies.len(),
{
    if replies.len() > 0 {
        let earlier = replies.drop_last();
        sale_is_fair(start, key_hex, goods, earlier);
        step_is_fair(sold(start, earlier), key_hex, goods, earlier, replies.last());
        assert(earlier.push(replies.last()) == replies);
    } else {
        assert(replies == Seq::<PurchaseReplyView>::empty());
    }
}

/// Whether a purchase of some goods begins with taking a token: the token is
/// pending in the log, or its marker is the first thing asked for.
pub open spec fn takes(
    start: Sale,
    key_hex: Seq<char>,
    goods: GoodsView,
) -> bool {
    start.purchase matches PurchaseView::Paying(payment, wanted) && {
        &&& payment.key_hex == key_hex
        &&& wanted == goods
        &&& payment.marked(start.states)
        &&& start.action is Record || start.action is Swap
    }
}

/// Never goods without money. When a purchase that began with taking a token
/// hands out goods, the mint credited the token, the goods are the ones that
/// were ordered, and the log has what the token bought.
pub proof fn no_goods_without_money(
    start: Sale,
    key_hex: Seq<char>,
    goods: GoodsView,
    replies: Seq<PurchaseReplyView>,
)
    requires
        takes(start, key_hex, goods),
    ensures
        ({
            let sale = sold(start, replies);
            &&& sale.action matches PurchaseActionView::AnswerGrant(grant) ==> {
                &&& sale.states.contains_key(key_hex)
                &&& sale.states[key_hex] matches StateView::Issued { grant: g, .. } && g == grant
                &&& paid_for(replies, goods, sale.states[key_hex])
            }
            &&& sale.action matches PurchaseActionView::AnswerCredential(response) ==> {
                &&& sale.states.contains_key(key_hex)
                &&& sale.states[key_hex] matches StateView::Credential { response: r, .. } && r
                    == response
                &&& paid_for(replies, goods, sale.states[key_hex])
            }
        }),
{
    sale_is_fair(start, key_hex, goods, replies);
}

/// An order for session grants hands out a grant at once only if the log has
/// it for that token, or else begins with taking the token.
pub proof fn grant_orders_take_or_replay(
    config: Config,
    states: Map<Seq<char>, StateView>,
    offer: OfferView,
    ttl_secs: u64,
    encoded: Seq<char>,
    summary: TokenSummaryView,
    now: u64,
)
    ensures
        ({
            let begun = purchase::grant_ordered(
                config,
                states,
                offer,
                ttl_secs,
                encoded,
                Ok(summary),
                now,
            );
            let key_hex = payment::log_key(summary.secrets);
            let terms = grant::terms_of(
                cashu::key_of(summary.secrets),
                offer.credits,
                now,
                ttl_secs,
            );
            ||| begun.1 is Refuse
            ||| takes(begins(begun, states), key_hex, GoodsView::Grant(terms))
            ||| begun.1 matches PurchaseActionView::AnswerGrant(grant) && states.contains_key(
                key_hex,
            ) && states[key_hex] is Issued && states[key_hex]->grant == grant && grant.expires_at
                > now && begun.0 is Done
        }),
{
}

/// An order for a credential hands one out at once only if the log has it for
/// that token and that blinded request, or else begins with taking the token.
pub proof fn credential_orders_take_or_replay(
    config: Config,
    states: Map<Seq<char>, StateView>,
    sat: u64,
    epoch: u32,
    limit: u32,
    blinded: Seq<u8>,
    encoded: Seq<char>,
    summary: TokenSummaryView,
    now: u64,
)
    ensures
        ({
            let begun = purchase::credential_ordered(
                config,
                states,
                sat,
                epoch,
                limit,
                blinded,
                encoded,
                Ok(summary),
                now,
            );
            let key_hex = payment::log_key(summary.secrets);
            let goods = GoodsView::Credential { epoch, limit, request: blinded };
            ||| begun.1 is Refuse
            ||| takes(begins(begun, states), key_hex, goods)
            ||| begun.1 matches PurchaseActionView::AnswerCredential(response)
                && states.contains_key(key_hex) && states[key_hex] is Credential
                && states[key_hex]->response == response && states[key_hex]->request_hex
                == encoding::hex_text(blinded) && begun.0 is Done
        }),
{
}

/// A mint that refuses the token, or cannot be reached, leaves the purchase
/// refused with 402 or 503, and the token on record as failed: it can be
/// tried again.
pub proof fn failed_swaps_leave_the_token_spendable(
    payment: PaymentView,
    goods: GoodsView,
    states: Map<Seq<char>, StateView>,
    fault: SwapErrorView,
)
    requires
        payment.stage == (StageView::Swapping { unknown_before: false }),
        fault is Rejected || fault is Unavailable,
    ensures
        ({
            let start = Sale {
                purchase: PurchaseView::Paying(payment, goods),
                states,
                action: PurchaseActionView::Swap(payment.summary, payment.encoded),
            };
            let sale = sold(
                start,
                seq![
                    PurchaseReplyView::Swapped(Err(fault)),
                    PurchaseReplyView::Recorded(Ok(())),
                ],
            );
            &&& sale.action == PurchaseActionView::Refuse(
                RefusalView::plain(
                    match fault {
                        SwapErrorView::Rejected(m) => ApiErrorView::token_rejected(m),
                        SwapErrorView::Unavailable(m) => ApiErrorView::mint_unavailable(m),
                        SwapErrorView::Unknown(m) => ApiErrorView::mint_unavailable(m),
                    },
                ),
            )
            &&& settlement_laws::takeable(sale.states, payment.key_hex)
        }),
{
    let replies = seq![
        PurchaseReplyView::Swapped(Err(fault)),
        PurchaseReplyView::Recorded(Ok(())),
    ];
    reveal_with_fuel(sold, 3);
    assert(replies.drop_last() == seq![PurchaseReplyView::Swapped(Err(fault))]);
    assert(replies.drop_last().drop_last() == Seq::<PurchaseReplyView>::empty());
}

/// A purchase changes the record of its own token, and of no other.
pub proof fn purchases_touch_their_token(
    start: Sale,
    key_hex: Seq<char>,
    goods: GoodsView,
    replies: Seq<PurchaseReplyView>,
    other: Seq<char>,
)
    requires
        takes(start, key_hex, goods),
        other != key_hex,
    ensures
        settlement_laws::agree(start.states, sold(start, replies).states, other),
    decreases replies.len(),
{
    if replies.len() > 0 {
        let earlier = replies.drop_last();
        purchases_touch_their_token(start, key_hex, goods, earlier, other);
        sale_is_fair(start, key_hex, goods, earlier);
    }
}

/// An order for a credential takes no token that bought a session grant or a
/// credential, or was redeemed.
pub proof fn spent_tokens_buy_no_credential(
    config: Config,
    states: Map<Seq<char>, StateView>,
    sat: u64,
    epoch: u32,
    limit: u32,
    blinded: Seq<u8>,
    encoded: Seq<char>,
    summary: TokenSummaryView,
    now: u64,
)
    requires
        states.contains_key(payment::log_key(summary.secrets)),
    ensures
        ({
            let spent = states[payment::log_key(summary.secrets)];
            spent is Redeemed || spent is Credential || spent is Issued
                ==> purchase::credential_ordered(
                config,
                states,
                sat,
                epoch,
                limit,
                blinded,
                encoded,
                Ok(summary),
                now,
            ).0 is Done
        }),
{
}

/// Whether a token that costs what a pack costs is to be taken for it: it is
/// accepted, and has no grant that is still valid.
pub open spec fn to_be_taken(
    config: Config,
    states: Map<Seq<char>, StateView>,
    offer: OfferView,
    summary: TokenSummaryView,
    now: u64,
) -> bool {
    let key_hex = payment::log_key(summary.secrets);
    &&& payment::token_accepted(config, Ok(summary)) is Ok
    &&& summary.unit == offer.unit
    &&& summary.amount == offer.amount
    &&& !(states.contains_key(key_hex) && states[key_hex] is Issued
        && states[key_hex]->grant.expires_at > now)
}

/// Only a grant that is still valid is given again without the mint. Any other
/// token of the right price is taken, whatever else the log has of it: the
/// marker is asked for, or the swap at once where a marker stands already.
pub proof fn grant_orders_ask_the_mint(
    config: Config,
    states: Map<Seq<char>, StateView>,
    offer: OfferView,
    ttl_secs: u64,
    encoded: Seq<char>,
    summary: TokenSummaryView,
    now: u64,
)
    requires
        to_be_taken(config, states, offer, summary, now),
    ensures
        ({
            let begun = purchase::grant_ordered(
                config,
                states,
                offer,
                ttl_secs,
                encoded,
                Ok(summary),
                now,
            );
            let key_hex = payment::log_key(summary.secrets);
            let terms = grant::terms_of(
                cashu::key_of(summary.secrets),
                offer.credits,
                now,
                ttl_secs,
            );
            &&& takes(begins(begun, states), key_hex, GoodsView::Grant(terms))
            &&& begun.1 == if states.contains_key(key_hex) && states[key_hex] is Pending {
                PurchaseActionView::Swap(summary, encoded)
            } else {
                PurchaseActionView::Record(
                    EventView {
                        token_key_hex: key_hex,
                        state: StateView::Pending { first_seen: now },
                    },
                )
            }
        }),
{
}

/// A purchase that is over changes nothing more.
pub proof fn over_is_over(start: Sale, replies: Seq<PurchaseReplyView>)
    requires
        start.purchase is Done,
    ensures
        sold(start, replies).purchase is Done,
        sold(start, replies).states == start.states,
    decreases replies.len(),
{
    if replies.len() > 0 {
        over_is_over(start, replies.drop_last());
    }
}

/// One more reply.
proof fn sold_step(start: Sale, replies: Seq<PurchaseReplyView>, reply: PurchaseReplyView)
    ensures
        ({
            let before = sold(start, replies);
            let after = sold(start, replies.push(reply));
            (after.purchase, after.states, after.action) == before.purchase.after(
                before.states,
                reply,
            )
        }),
{
    assert(replies.push(reply).drop_last() == replies);
}

/// The replies to a purchase of a grant in which all goes well.
pub open spec fn paid_and_signed(marked: bool, received: u64, signed: Seq<u8>) -> Seq<
    PurchaseReplyView,
> {
    (if marked {
        Seq::empty()
    } else {
        seq![PurchaseReplyView::Recorded(Ok(()))]
    }) + seq![
        PurchaseReplyView::Swapped(Ok(received)),
        PurchaseReplyView::Signed(Ok(signed)),
        PurchaseReplyView::Recorded(Ok(())),
    ]
}

/// A paid order is delivered. Where the mint credits a token that is to be
/// taken, be it less than the pack's price, and the grant is signed and the
/// events are recorded, the answer is the grant of the pack, valid from now,
/// and the log has it with the amount that was credited.
pub proof fn paid_grants_are_delivered(
    config: Config,
    states: Map<Seq<char>, StateView>,
    offer: OfferView,
    ttl_secs: u64,
    encoded: Seq<char>,
    summary: TokenSummaryView,
    now: u64,
    received: u64,
    signed: Seq<u8>,
)
    requires
        to_be_taken(config, states, offer, summary, now),
    ensures
        ({
            let begun = purchase::grant_ordered(
                config,
                states,
                offer,
                ttl_secs,
                encoded,
                Ok(summary),
                now,
            );
            let key_hex = payment::log_key(summary.secrets);
            let marked = states.contains_key(key_hex) && states[key_hex] is Pending;
            let sale = sold(begins(begun, states), paid_and_signed(marked, received, signed));
            let grant = grant::grant_of(
                grant::terms_of(cashu::key_of(summary.secrets), offer.credits, now, ttl_secs),
                signed,
            );
            &&& sale.action == PurchaseActionView::AnswerGrant(grant)
            &&& sale.states.contains_key(key_hex)
            &&& sale.states[key_hex] == (StateView::Issued {
                grant,
                received,
                mint: summary.mint,
                unit: summary.unit,
            })
        }),
{
    let begun = purchase::grant_ordered(
        config,
        states,
        offer,
        ttl_secs,
        encoded,
        Ok(summary),
        now,
    );
    let key_hex = payment::log_key(summary.secrets);
    let marked = states.contains_key(key_hex) && states[key_hex] is Pending;
    let start = begins(begun, states);
    let r0 = Seq::<PurchaseReplyView>::empty();
    let r1 = if marked {
        r0
    } else {
        r0.push(PurchaseReplyView::Recorded(Ok(())))
    };
    let r2 = r1.push(PurchaseReplyView::Swapped(Ok(received)));
    let r3 = r2.push(PurchaseReplyView::Signed(Ok(signed)));
    let r4 = r3.push(PurchaseReplyView::Recorded(Ok(())));
    if !marked {
        sold_step(start, r0, r1.last());
    }
    sold_step(start, r1, r2.last());
    sold_step(start, r2, r3.last());
    sold_step(start, r3, r4.last());
    assert(r4 == paid_and_signed(marked, received, signed));
}

/// A paid order is delivered. Where the marker is recorded, the mint credits
/// the token, the blinded request is answered and what the token bought is
/// recorded, the answer is the credential.
pub proof fn paid_credentials_are_delivered(
    payment: PaymentView,
    epoch: u32,
    limit: u32,
    request: Seq<u8>,
    states: Map<Seq<char>, StateView>,
    received: u64,
    issuer_public_key_hex: Seq<char>,
    response: Seq<u8>,
)
    requires
        payment.stage is Marking,
    ensures
        ({
            let goods = GoodsView::Credential { epoch, limit, request };
            let start = begins(
                PurchaseView::Paying(payment, goods).passed_on(payment.first_action()),
                states,
            );
            let sale = sold(
                start,
                seq![
                    PurchaseReplyView::Recorded(Ok(())),
                    PurchaseReplyView::Swapped(Ok(received)),
                    PurchaseReplyView::Issued(Ok((issuer_public_key_hex, response))),
                    PurchaseReplyView::Recorded(Ok(())),
                ],
            );
            let answer = CredentialResponseView {
                epoch,
                presentation_limit: limit,
                issuer_public_key_hex,
                response_hex: encoding::hex_text(response),
            };
            &&& sale.action == PurchaseActionView::AnswerCredential(answer)
            &&& sale.states[payment.key_hex] == (StateView::Credential {
                request_hex: encoding::hex_text(request),
                response: answer,
                received,
                mint: payment.summary.mint,
                unit: payment.summary.unit,
            })
        }),
{
    let goods = GoodsView::Credential { epoch, limit, request };
    let start = begins(
        PurchaseView::Paying(payment, goods).passed_on(payment.first_action()),
        states,
    );
    let r0 = Seq::<PurchaseReplyView>::empty();
    let r1 = r0.push(PurchaseReplyView::Recorded(Ok(())));
    let r2 = r1.push(PurchaseReplyView::Swapped(Ok(received)));
    let r3 = r2.push(PurchaseReplyView::Issued(Ok((issuer_public_key_hex, response))));
    let r4 = r3.push(PurchaseReplyView::Recorded(Ok(())));
    sold_step(start, r0, r1.last());
    sold_step(start, r1, r2.last());
    sold_step(start, r2, r3.last());
    sold_step(start, r3, r4.last());
    assert(r4 == seq![
        PurchaseReplyView::Recorded(Ok(())),
        PurchaseReplyView::Swapped(Ok(received)),
        PurchaseReplyView::Issued(Ok((issuer_public_key_hex, response))),
        PurchaseReplyView::Recorded(Ok(())),
    ]);
}

/// Whether a mint is one of the list, but for slashes behind its URL.
pub open spec fn is_listed(config: Config, mint: Seq<char>) -> bool {
    exists|i: int|
        0 <= i < config.mints@.len() && text::differs_in_end_slashes(
            mint,
            (#[trigger] config.mints@[i])@,
        )
}

/// A token whose unit or face value differs from the price of the pack is
/// refused with 400, be it worth more or less: no session grant is sold for
/// it, no swap is asked for, and no record changes, whatever is replied.
pub proof fn grants_are_sold_at_their_exact_price(
    config: Config,
    states: Map<Seq<char>, StateView>,
    offer: OfferView,
    ttl_secs: u64,
    encoded: Seq<char>,
    summary: TokenSummaryView,
    now: u64,
    replies: Seq<PurchaseReplyView>,
)
    requires
        summary.unit != offer.unit || summary.amount < offer.amount || summary.amount
            > offer.amount,
    ensures
        ({
            let begun = purchase::grant_ordered(
                config,
                states,
                offer,
                ttl_secs,
                encoded,
                Ok(summary),
                now,
            );
            &&& begun.0 is Done
            &&& begun.1 matches PurchaseActionView::Refuse(refusal) && refusal.error.status == 400
            &&& config.serves(summary.mint) ==> begun.1->Refuse_0.error.error == "wrong_amount"@
            &&& sold(begins(begun, states), replies).states == states
        }),
{
    let begun = purchase::grant_ordered(
        config,
        states,
        offer,
        ttl_secs,
        encoded,
        Ok(summary),
        now,
    );
    over_is_over(begins(begun, states), replies);
}

/// The same of credentials, which are priced in sats.
pub proof fn credentials_are_sold_at_their_exact_price(
    config: Config,
    states: Map<Seq<char>, StateView>,
    sat: u64,
    epoch: u32,
    limit: u32,
    blinded: Seq<u8>,
    encoded: Seq<char>,
    summary: TokenSummaryView,
    now: u64,
    replies: Seq<PurchaseReplyView>,
)
    requires
        summary.unit != "sat"@ || summary.amount < sat || summary.amount > sat,
    ensures
        ({
            let begun = purchase::credential_ordered(
                config,
                states,
                sat,
                epoch,
                limit,
                blinded,
                encoded,
                Ok(summary),
                now,
            );
            &&& begun.0 is Done
            &&& begun.1 matches PurchaseActionView::Refuse(refusal) && refusal.error.status == 400
            &&& config.serves(summary.mint) ==> begun.1->Refuse_0.error.error == "wrong_amount"@
            &&& sold(begins(begun, states), replies).states == states
        }),
{
    let begun = purchase::credential_ordered(
        config,
        states,
        sat,
        epoch,
        limit,
        blinded,
        encoded,
        Ok(summary),
        now,
    );
    over_is_over(begins(begun, states), replies);
}

/// A purchase of session grants that is under way is what was asked for: the
/// offer is on the list, the token that was sent is of a listed mint, in the
/// offer's unit and worth exactly its price, and the grant to be signed is of
/// the offer's credits, from now, under the token's own id.
pub proof fn grant_purchases_are_what_was_asked_for(
    config: Config,
    terms: SessionTerms,
    states: Map<Seq<char>, StateView>,
    ttl_secs: u64,
    request: GrantRequest,
    now: u64,
)
    requires
        purchase::grant_begun(config, terms, states, ttl_secs, request, now).0 is Paying,
    ensures
        ({
            let (begun, action) = purchase::grant_begun(
                config,
                terms,
                states,
                ttl_secs,
                request,
                now,
            );
            let payment = begun->Paying_0;
            let summary = payment.summary;
            &&& exists|i: int|
                0 <= i < terms.offers@.len() && (#[trigger] terms.offers@[i]).credits
                    == request.offer.credits && terms.offers@[i].amount == request.offer.amount
                    && terms.offers@[i].unit@ == request.offer.unit@
            &&& is_listed(config, summary.mint)
            &&& summary.unit == request.offer.unit@
            &&& summary.amount == request.offer.amount
            &&& cashu::summarized(cashu::cashu_token(text::trimmed(payment.encoded))) == Ok::<
                TokenSummaryView,
                TokenParseErrorView,
            >(summary)
            &&& payment.encoded == text::trimmed(request.token@)
            &&& payment.key_hex == encoding::hex_text(cashu::key_of(summary.secrets))
            &&& payment.now == now
            &&& begun->Paying_1 matches GoodsView::Grant(goods) && {
                &&& goods.credits == request.offer.credits
                &&& goods.issued_at == now
                &&& goods.expires_at < u64::MAX ==> goods.expires_at == now + ttl_secs
                &&& goods.grant_id == cashu::key_of(summary.secrets).take(16)
            }
            &&& action is Record || action is Swap
        }),
{
    let (begun, _) = purchase::grant_begun(config, terms, states, ttl_secs, request, now);
    let offers = config::offers_view(terms.offers@);
    let i = choose|i: int| 0 <= i < offers.len() && offers[i] == request.offer@;
    assert(terms.offers@[i]@ == request.offer@);
    config::only_listed_mints_are_served(config, begun->Paying_0.summary.mint);
}

/// Whoever sends a listed offer with a token of a listed mint at the exact
/// price, whose grant is not valid any more or never was, has the token taken;
/// one with a valid grant for the same credits is given that grant, and one
/// with a valid grant for others is told so with 400. An offer that is not on
/// the list is refused with 400.
pub proof fn listed_offers_are_sold(
    config: Config,
    terms: SessionTerms,
    states: Map<Seq<char>, StateView>,
    ttl_secs: u64,
    request: GrantRequest,
    summary: TokenSummaryView,
    now: u64,
    i: int,
    j: int,
)
    requires
        0 <= i < terms.offers@.len(),
        terms.offers@[i]@ == request.offer@,
        cashu::summarized(
            cashu::cashu_token(text::trimmed(text::trimmed(request.token@))),
        ) == Ok::<TokenSummaryView, TokenParseErrorView>(summary),
        0 <= j < config.mints@.len(),
        config.mints@[j]@ == summary.mint,
        summary.mint.len() > 0 ==> summary.mint.last() != '/',
        summary.unit == request.offer.unit@,
        summary.amount == request.offer.amount,
    ensures
        ({
            let (begun, action) = purchase::grant_begun(
                config,
                terms,
                states,
                ttl_secs,
                request,
                now,
            );
            let key_hex = encoding::hex_text(cashu::key_of(summary.secrets));
            let valid = states.contains_key(key_hex) && states[key_hex] is Issued
                && states[key_hex]->grant.expires_at > now;
            &&& !valid ==> begun is Paying && begun->Paying_0.summary == summary
            &&& valid ==> begun is Done
            &&& valid && states[key_hex]->grant.credits == request.offer.credits ==> action
                == PurchaseActionView::AnswerGrant(states[key_hex]->grant)
            &&& valid && states[key_hex]->grant.credits != request.offer.credits ==> (
            action matches PurchaseActionView::Refuse(refusal) && refusal.error.status == 400
                && refusal.error.error == "invalid_request"@)
        }),
{
    let offers = config::offers_view(terms.offers@);
    assert(offers[i] == request.offer@);
    config::listed_mints_are_served(config, j, 0);
    assert(summary.mint + Seq::new(0, |k: int| '/') == summary.mint);
}

/// An offer that is not on the list is refused with 400, whatever token comes
/// with it.
pub proof fn unlisted_offers_are_refused(
    config: Config,
    terms: SessionTerms,
    states: Map<Seq<char>, StateView>,
    ttl_secs: u64,
    request: GrantRequest,
    now: u64,
)
    requires
        forall|i: int|
            0 <= i < terms.offers@.len() ==> (#[trigger] terms.offers@[i]).credits
                != request.offer.credits || terms.offers@[i].amount != request.offer.amount
                || terms.offers@[i].unit@ != request.offer.unit@,
    ensures
        ({
            let (begun, action) = purchase::grant_begun(
                config,
                terms,
                states,
                ttl_secs,
                request,
                now,
            );
            &&& begun is Done
            &&& action matches PurchaseActionView::Refuse(refusal) && refusal.error.status == 400
                && refusal.error.error == "invalid_request"@
        }),
{
    let offers = config::offers_view(terms.offers@);
    if offers.contains(request.offer@) {
        let i = choose|i: int| 0 <= i < offers.len() && offers[i] == request.offer@;
        assert(terms.offers@[i]@ == request.offer@);
    }
}

/// A purchase of a credential that is under way is what was asked for: the
/// pack is on the list, the token that was sent is of a listed mint and worth
/// exactly the pack's price in sats, and the blinded request that was sent is
/// to be answered under the epoch that holds `now`. That epoch counts at
/// `now`, and it is the one that the service publishes at `now`.
pub proof fn credential_purchases_are_what_was_asked_for<
    F: Fn([u8; 32]) -> Option<[u8; 32]>,
    P: Fn(ArcKeys) -> Vec<u8>,
    C: Fn(u32) -> Vec<u8>,
>(
    state: AppState,
    states: Map<Seq<char>, StateView>,
    request: CredentialRequestV2,
    now: u64,
    scalar: F,
    public: P,
    context: C,
    info: ArcInfoV2,
)
    requires
        state.wf(),
        purchase::credential_begun(state, states, request, now).0 is Paying,
    ensures
        ({
            let (begun, action) = purchase::credential_begun(state, states, request, now);
            let payment = begun->Paying_0;
            let summary = payment.summary;
            &&& state.config.arc matches Some(table) && exists|i: int|
                0 <= i < table.credential_offers@.len() && (
                #[trigger] table.credential_offers@[i]).credits == request.credits
                    && table.credential_offers@[i].sat == request.sat
            &&& is_listed(state.config, summary.mint)
            &&& summary.unit == "sat"@
            &&& summary.amount == request.sat
            &&& cashu::summarized(cashu::cashu_token(text::trimmed(payment.encoded))) == Ok::<
                TokenSummaryView,
                TokenParseErrorView,
            >(summary)
            &&& payment.encoded == text::trimmed(request.token@)
            &&& payment.key_hex == encoding::hex_text(cashu::key_of(summary.secrets))
            &&& payment.now == now
            &&& state.arc matches Some(arc) && begun->Paying_1 matches GoodsView::Credential {
                epoch,
                limit,
                request: blinded,
            } && {
                &&& epoch * arc.epoch_length() <= now
                &&& epoch < u32::MAX ==> now < (epoch + 1) * arc.epoch_length()
                &&& epoch < u32::MAX ==> credit::epoch_counts(
                    epoch,
                    now,
                    arc.epoch_length(),
                    arc.grace(),
                )
                &&& limit == arc.limit()
                &&& encoding::is_hex(request.request_hex@)
                &&& blinded == encoding::hex_bytes(request.request_hex@)
                &&& arc.info_published(now, scalar, public, context, info) ==> info.epoch == epoch
                    && info.presentation_limit == limit
            }
            &&& action is Record || action is Swap
        }),
{
    let (begun, _) = purchase::credential_begun(state, states, request, now);
    let table = state.config.arc->0;
    let arc = state.arc->0;
    let wanted = CredentialOffer { credits: request.credits, sat: request.sat };
    let i = choose|i: int|
        0 <= i < table.credential_offers@.len() && table.credential_offers@[i] == wanted;
    assert(table.credential_offers@[i] == wanted);
    config::only_listed_mints_are_served(state.config, begun->Paying_0.summary.mint);
    let epoch = begun->Paying_1->Credential_epoch;
    credit::epochs_hold_their_seconds(now, arc.epoch_length());
    credit::epochs_count_through_their_grace(epoch, now, arc.epoch_length(), arc.grace());
    assert((epoch + 1) * arc.epoch_length() == epoch * arc.epoch_length() + arc.epoch_length())
        by (nonlinear_arith);
}

/// Whoever sends a listed pack with a token of a listed mint at the exact
/// price, and a blinded request in hexadecimal, has the token taken if the log
/// never saw it, if its last swap failed, or if its outcome is unknown; is
/// given the credential again that the token bought for that request; and is
/// refused with 402 if the token bought a session grant or was redeemed, and
/// with 400 if it bought a credential for another request.
pub proof fn listed_packs_are_sold(
    state: AppState,
    states: Map<Seq<char>, StateView>,
    request: CredentialRequestV2,
    summary: TokenSummaryView,
    now: u64,
    i: int,
    j: int,
)
    requires
        state.arc is Some,
        state.config.arc is Some,
        0 <= i < state.config.arc->0.credential_offers@.len(),
        state.config.arc->0.credential_offers@[i].credits == request.credits,
        state.config.arc->0.credential_offers@[i].sat == request.sat,
        encoding::is_hex(request.request_hex@),
        cashu::summarized(
            cashu::cashu_token(text::trimmed(text::trimmed(request.token@))),
        ) == Ok::<TokenSummaryView, TokenParseErrorView>(summary),
        0 <= j < state.config.mints@.len(),
        state.config.mints@[j]@ == summary.mint,
        summary.mint.len() > 0 ==> summary.mint.last() != '/',
        summary.unit == "sat"@,
        summary.amount == request.sat,
    ensures
        ({
            let (begun, action) = purchase::credential_begun(state, states, request, now);
            let key_hex = encoding::hex_text(cashu::key_of(summary.secrets));
            let known = states.contains_key(key_hex);
            &&& !known || states[key_hex] is Failed ==> begun is Paying && action
                == PurchaseActionView::Record(
                EventView {
                    token_key_hex: key_hex,
                    state: StateView::Pending { first_seen: now },
                },
            )
            &&& known && states[key_hex] is Pending ==> begun is Paying && action
                == PurchaseActionView::Swap(summary, text::trimmed(request.token@))
            &&& known && states[key_hex] is Credential ==> begun is Done && if encoding::hex_text(
                encoding::hex_bytes(request.request_hex@),
            ) == states[key_hex]->request_hex {
                action == PurchaseActionView::AnswerCredential(states[key_hex]->response)
            } else {
                action matches PurchaseActionView::Refuse(refusal) && refusal.error.status == 400
            }
            &&& known && (states[key_hex] is Issued || states[key_hex] is Redeemed) ==> begun is Done
                && (action matches PurchaseActionView::Refuse(refusal) && refusal.error.status
                == 402 && refusal.error.error == "already_redeemed"@)
        }),
{
    let table = state.config.arc->0;
    let wanted = CredentialOffer { credits: request.credits, sat: request.sat };
    assert(table.credential_offers@[i] == wanted);
    config::listed_mints_are_served(state.config, j, 0);
    assert(summary.mint + Seq::new(0, |k: int| '/') == summary.mint);
}

/// A pack that is not on the list is refused with 400, and so is everything
/// where no credentials are issued.
pub proof fn unlisted_packs_are_refused(
    state: AppState,
    states: Map<Seq<char>, StateView>,
    request: CredentialRequestV2,
    now: u64,
)
    requires
        state.arc is None || state.config.arc is None || forall|i: int|
            0 <= i < state.config.arc->0.credential_offers@.len() ==> (
            #[trigger] state.config.arc->0.credential_offers@[i]).credits != request.credits
                || state.config.arc->0.credential_offers@[i].sat != request.sat,
    ensures
        ({
            let (begun, action) = purchase::credential_begun(state, states, request, now);
            &&& begun is Done
            &&& action matches PurchaseActionView::Refuse(refusal) && refusal.error.status == 400
            &&& state.arc is None ==> action->Refuse_0.error.error == "unsupported_kind"@
            &&& state.arc is Some ==> action->Refuse_0.error.error == "invalid_request"@
        }),
{
    if state.config.arc is Some {
        let offers = state.config.arc->0.credential_offers@;
        let wanted = CredentialOffer { credits: request.credits, sat: request.sat };
        if offers.contains(wanted) {
            let i = choose|i: int| 0 <= i < offers.len() && offers[i] == wanted;
            assert(offers[i].credits == request.credits);
        }
    }
}

/// A pack can be bought exactly if it is published.
pub proof fn published_packs_are_on_sale(config: Config, credits: u64, sat: u64)
    ensures
        purchase::on_sale(config, credits, sat) <==> api::packs(config).contains(
            OfferV2 { credits, sat },
        ),
{
    if let Some(table) = config.arc {
        let packs = api::packs(config);
        let wanted = CredentialOffer { credits, sat };
        if table.credential_offers@.contains(wanted) {
            let i = choose|i: int|
                0 <= i < table.credential_offers@.len() && table.credential_offers@[i] == wanted;
            assert(packs[i] == (OfferV2 { credits, sat }));
        }
        if packs.contains(OfferV2 { credits, sat }) {
            let i = choose|i: int| 0 <= i < packs.len() && packs[i] == (OfferV2 { credits, sat });
            assert(table.credential_offers@[i] == wanted);
        }
    }
}

/// A token of unknown outcome that the mint credits after all buys the
/// credential: what was paid for is delivered without another marker.
pub proof fn credentials_are_delivered_after_an_unknown_outcome(
    payment: PaymentView,
    epoch: u32,
    limit: u32,
    request: Seq<u8>,
    states: Map<Seq<char>, StateView>,
    received: u64,
    issuer_public_key_hex: Seq<char>,
    response: Seq<u8>,
)
    requires
        payment.stage is Swapping,
    ensures
        ({
            let goods = GoodsView::Credential { epoch, limit, request };
            let start = begins(
                PurchaseView::Paying(payment, goods).passed_on(payment.first_action()),
                states,
            );
            let sale = sold(
                start,
                seq![
                    PurchaseReplyView::Swapped(Ok(received)),
                    PurchaseReplyView::Issued(Ok((issuer_public_key_hex, response))),
                    PurchaseReplyView::Recorded(Ok(())),
                ],
            );
            let answer = CredentialResponseView {
                epoch,
                presentation_limit: limit,
                issuer_public_key_hex,
                response_hex: encoding::hex_text(response),
            };
            &&& start.action == PurchaseActionView::Swap(payment.summary, payment.encoded)
            &&& sale.action == PurchaseActionView::AnswerCredential(answer)
            &&& sale.states[payment.key_hex] == (StateView::Credential {
                request_hex: encoding::hex_text(request),
                response: answer,
                received,
                mint: payment.summary.mint,
                unit: payment.summary.unit,
            })
        }),
{
    let goods = GoodsView::Credential { epoch, limit, request };
    let start = begins(
        PurchaseView::Paying(payment, goods).passed_on(payment.first_action()),
        states,
    );
    let r0 = Seq::<PurchaseReplyView>::empty();
    let r1 = r0.push(PurchaseReplyView::Swapped(Ok(received)));
    let r2 = r1.push(PurchaseReplyView::Issued(Ok((issuer_public_key_hex, response))));
    let r3 = r2.push(PurchaseReplyView::Recorded(Ok(())));
    sold_step(start, r0, r1.last());
    sold_step(start, r1, r2.last());
    sold_step(start, r2, r3.last());
    assert(r3 == seq![
        PurchaseReplyView::Swapped(Ok(received)),
        PurchaseReplyView::Issued(Ok((issuer_public_key_hex, response))),
        PurchaseReplyView::Recorded(Ok(())),
    ]);
}

/// Once the mint credited a token, what is asked for is what was ordered: the
/// grant on its terms, or the answer to the blinded request under its epoch.
/// Goods that cannot be made, or not recorded, are not handed out, and the
/// marker stays; a token whose credential could not be made is named to the
/// operator.
pub proof fn goods_are_made_as_ordered(
    payment: PaymentView,
    goods: GoodsView,
    states: Map<Seq<char>, StateView>,
    received: u64,
    why: Seq<char>,
    fault: ArcErrorView,
)
    requires
        payment.stage is Swapping,
    ensures
        ({
            let (making, after, asked) = PurchaseView::Paying(payment, goods).after(
                states,
                PurchaseReplyView::Swapped(Ok(received)),
            );
            &&& after == states
            &&& goods matches GoodsView::Grant(terms) ==> {
                let (next, left, told) = making.after(
                    states,
                    PurchaseReplyView::Signed(Err(why)),
                );
                &&& asked == PurchaseActionView::Sign(terms)
                &&& left == states
                &&& next is Done
                &&& told matches PurchaseActionView::Refuse(refusal) && refusal.error.status == 500
            }
            &&& goods matches GoodsView::Credential { epoch, request, .. } ==> {
                let (next, left, told) = making.after(
                    states,
                    PurchaseReplyView::Issued(Err(fault)),
                );
                &&& asked == PurchaseActionView::Issue(epoch, request)
                &&& left == states
                &&& next is Done
                &&& told matches PurchaseActionView::Refuse(refusal) && refusal.error.status == 400
                    && refusal.reconcile == Some(payment.key_hex)
            }
        }),
        forall|key_hex: Seq<char>, state: StateView|
            {
                let (next, left, told) = (
                #[trigger] PurchaseView::bought(key_hex, state)).0.after(
                    states,
                    PurchaseReplyView::Recorded(Err(why)),
                );
                &&& next is Done
                &&& left == states
                &&& told matches PurchaseActionView::Refuse(refusal) && refusal.error.status == 500
            },
{
}

/// A token at the wrong price is told what it is worth and what the offer
/// costs.
pub proof fn wrong_prices_are_told(
    config: Config,
    states: Map<Seq<char>, StateView>,
    offer: OfferView,
    sat: u64,
    encoded: Seq<char>,
    summary: TokenSummaryView,
    now: u64,
)
    requires
        config.serves(summary.mint),
    ensures
        summary.unit != offer.unit || summary.amount != offer.amount ==> forall|ttl_secs: u64|
            (#[trigger] purchase::grant_ordered(
                config,
                states,
                offer,
                ttl_secs,
                encoded,
                Ok(summary),
                now,
            )).1 matches PurchaseActionView::Refuse(refusal) && refusal.error.message
                == "token is worth "@ + text::decimal_text(summary.amount as nat) + " "@
                + summary.unit + ", offer costs "@ + text::decimal_text(offer.amount as nat) + " "@
                + offer.unit,
        summary.unit != "sat"@ || summary.amount != sat ==> forall|
            epoch: u32,
            limit: u32,
            blinded: Seq<u8>,
        |
            (#[trigger] purchase::credential_ordered(
                config,
                states,
                sat,
                epoch,
                limit,
                blinded,
                encoded,
                Ok(summary),
                now,
            )).1 matches PurchaseActionView::Refuse(refusal) && refusal.error.message
                == "token is worth "@ + text::decimal_text(summary.amount as nat) + " "@
                + summary.unit + ", offer costs "@ + text::decimal_text(sat as nat) + " "@
                + "sat"@,
{
}

} // verus!
