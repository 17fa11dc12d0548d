//! What holds over any series of purchases and settlements: a token buys the
//! same goods again, and a request is answered the same again.
//!
//! Purchases and settlements work on the logs one after the other.

use vstd::prelude::*;

use crate::api::AppState;
use crate::cashu;
use crate::cashu::{TokenParseErrorView, TokenSummaryView};
use crate::config::{Config, OfferView};
use crate::grant;
use crate::ledger::LedgerView;
use crate::payment;
use crate::purchase;
use crate::purchase::{GoodsView, PurchaseActionView, PurchaseReplyView, PurchaseView};
use crate::purchase_laws;
use crate::redeem::VerifiedView;
use crate::settlement;
use crate::settlement::{SettlementActionView, SettlementReplyView};
use crate::settlement_laws;
use crate::store::StateView;

verus! {

/// What purchases and settlements work on.
pub struct Till {
    pub states: Map<Seq<char>, StateView>,
    pub ledger: LedgerView,
}

/// A purchase or a settlement, with all that was replied to it.
pub enum Dealing {
    /// An order for session grants.
    Grant {
        config: Config,
        offer: OfferView,
        ttl_secs: u64,
        encoded: Seq<char>,
        parsed: Result<TokenSummaryView, TokenParseErrorView>,
        now: u64,
        replies: Seq<PurchaseReplyView>,
    },
    /// An order for a credential.
    Credential {
        config: Config,
        sat: u64,
        epoch: u32,
        limit: u32,
        blinded: Seq<u8>,
        encoded: Seq<char>,
        parsed: Result<TokenSummaryView, TokenParseErrorView>,
        now: u64,
        replies: Seq<PurchaseReplyView>,
    },
    /// A redeem request.
    Redemption {
        state: AppState,
        request: VerifiedView,
        now: u64,
        replies: Seq<SettlementReplyView>,
    },
}

/// The till after a dealing.
pub open spec fn dealt(till: Till, dealing: Dealing) -> Till {
    match dealing {
        Dealing::Grant { config, offer, ttl_secs, encoded, parsed, now, replies } => {
            let begun = purchase::grant_ordered(
                config,
                till.states,
                offer,
                ttl_secs,
                encoded,
                parsed,
                now,
            );
            let start = purchase_laws::begins(begun, till.states);
            Till { states: purchase_laws::sold(start, replies).states, ledger: till.ledger }
        },
        Dealing::Credential {
            config,
            sat,
            epoch,
            limit,
            blinded,
            encoded,
            parsed,
            now,
            replies,
        } => {
            let begun = purchase::credential_ordered(
                config,
                till.states,
                sat,
                epoch,
                limit,
                blinded,
                encoded,
                parsed,
                now,
            );
            let start = purchase_laws::begins(begun, till.states);
            Till { states: purchase_laws::sold(start, replies).states, ledger: till.ledger }
        },
        Dealing::Redemption { state, request, now, replies } => {
            let books = settlement_laws::run(
                state,
                till.states,
                till.ledger,
                request,
                now,
                replies,
            );
            Till { states: books.states, ledger: books.ledger }
        },
    }
}

/// The till after some dealings, one after the other.
pub open spec fn traded(till: Till, dealings: Seq<Dealing>) -> Till
    decreases dealings.len(),
{
    if dealings.len() == 0 {
        till
    } else {
        dealt(traded(till, dealings.drop_last()), dealings.last())
    }
}

/// Whether a token bought something or was redeemed.
pub open spec fn is_spent(state: StateView) -> bool {
    state is Issued || state is Credential || state is Redeemed
}

/// Whether a dealing leaves the record of a spent token alone. Every one
/// does, but for an order for session grants with that token, unless the token
/// has a grant that is still valid.
pub open spec fn leaves(dealing: Dealing, key_hex: Seq<char>, state: StateView) -> bool {
    match dealing {
        Dealing::Grant { parsed, now, .. } => {
            ||| !(parsed is Ok && payment::log_key(parsed->Ok_0.secrets) == key_hex)
            ||| state is Issued && state->grant.expires_at > now
        },
        _ => true,
    }
}

/// A purchase that begins on some log leaves the records of other tokens, and
/// one that does not begin with taking a token leaves them all.
proof fn purchase_leaves(
    begun: (PurchaseView, PurchaseActionView),
    states: Map<Seq<char>, StateView>,
    token: Seq<char>,
    goods: GoodsView,
    replies: Seq<PurchaseReplyView>,
    key_hex: Seq<char>,
)
    requires
        begun.0 is Done || (purchase_laws::takes(
            purchase_laws::begins(begun, states),
            token,
            goods,
        ) && token != key_hex),
    ensures
        settlement_laws::agree(
            states,
            purchase_laws::sold(purchase_laws::begins(begun, states), replies).states,
            key_hex,
        ),
{
    let start = purchase_laws::begins(begun, states);
    if begun.0 is Done {
        purchase_laws::over_is_over(start, replies);
    } else {
        purchase_laws::purchases_touch_their_token(start, token, goods, replies, key_hex);
    }
}

proof fn dealing_leaves(till: Till, dealing: Dealing, key_hex: Seq<char>)
    requires
        till.states.contains_key(key_hex),
        is_spent(till.states[key_hex]),
        leaves(dealing, key_hex, till.states[key_hex]),
    ensures
        dealt(till, dealing).states.contains_key(key_hex),
        dealt(till, dealing).states[key_hex] == till.states[key_hex],
{
    match dealing {
        Dealing::Grant { config, offer, ttl_secs, encoded, parsed, now, replies } => {
            let begun = purchase::grant_ordered(
                config,
                till.states,
                offer,
                ttl_secs,
                encoded,
                parsed,
                now,
            );
            let (token, terms) = match parsed {
                Ok(summary) => (
                    payment::log_key(summary.secrets),
                    grant::terms_of(
                        cashu::key_of(summary.secrets),
                        offer.credits,
                        now,
                        ttl_secs,
                    ),
                ),
                Err(_) => (key_hex, grant::terms_of(Seq::empty(), 0, 0, 0)),
            };
            if let Ok(summary) = parsed {
                purchase_laws::grant_orders_take_or_replay(
                    config,
                    till.states,
                    offer,
                    ttl_secs,
                    encoded,
                    summary,
                    now,
                );
            }
            purchase_leaves(
                begun,
                till.states,
                token,
                GoodsView::Grant(terms),
                replies,
                key_hex,
            );
        },
        Dealing::Credential {
            config,
            sat,
            epoch,
            limit,
            blinded,
            encoded,
            parsed,
            now,
            replies,
        } => {
            let begun = purchase::credential_ordered(
                config,
                till.states,
                sat,
                epoch,
                limit,
                blinded,
                encoded,
                parsed,
                now,
            );
            let token = match parsed {
                Ok(summary) => payment::log_key(summary.secrets),
                Err(_) => key_hex,
            };
            if let Ok(summary) = parsed {
                purchase_laws::credential_orders_take_or_replay(
                    config,
                    till.states,
                    sat,
                    epoch,
                    limit,
                    blinded,
                    encoded,
                    summary,
                    now,
                );
            }
            purchase_leaves(
                begun,
                till.states,
                token,
                GoodsView::Credential { epoch, limit, request: blinded },
                replies,
                key_hex,
            );
        },
        Dealing::Redemption { state, request, now, replies } => {
            settlement_laws::spent_records_stay(
                state,
                till.states,
                till.ledger,
                request,
                now,
                replies,
                key_hex,
            );
        },
    }
}

/// What a token bought stays on record, whatever is sold and redeemed later.
/// The exception is an order for session grants with the token itself, once
/// the token has no grant that is still valid: it sends the token to the mint,
/// and the record of a credential, of a redemption or of an expired grant
/// gives way to the marker of that attempt.
pub proof fn spent_records_stay(till: Till, dealings: Seq<Dealing>, key_hex: Seq<char>)
    requires
        till.states.contains_key(key_hex),
        is_spent(till.states[key_hex]),
        forall|i: int|
            0 <= i < dealings.len() ==> leaves(
                #[trigger] dealings[i],
                key_hex,
                till.states[key_hex],
            ),
    ensures
        traded(till, dealings).states.contains_key(key_hex),
        traded(till, dealings).states[key_hex] == till.states[key_hex],
    decreases dealings.len(),
{
    if dealings.len() > 0 {
        let earlier = dealings.drop_last();
        assert forall|i: int| 0 <= i < earlier.len() implies leaves(
            #[trigger] earlier[i],
            key_hex,
            till.states[key_hex],
        ) by {
            assert(earlier[i] == dealings[i]);
        }
        spent_records_stay(till, earlier, key_hex);
        assert(leaves(dealings[dealings.len() - 1], key_hex, till.states[key_hex]));
        dealing_leaves(traded(till, earlier), dealings.last(), key_hex);
    }
}

/// The exception to the record's staying: an order for session grants at the
/// exact price, with a token that has no grant that is still valid, replaces
/// what the log has of the token by a marker as soon as that is recorded.
pub proof fn grant_orders_replace_spent_records(
    config: Config,
    till: Till,
    offer: OfferView,
    ttl_secs: u64,
    encoded: Seq<char>,
    summary: TokenSummaryView,
    now: u64,
)
    requires
        purchase_laws::to_be_taken(config, till.states, offer, summary, now),
        till.states.contains_key(payment::log_key(summary.secrets)),
        is_spent(till.states[payment::log_key(summary.secrets)]),
    ensures
        dealt(
            till,
            Dealing::Grant {
                config,
                offer,
                ttl_secs,
                encoded,
                parsed: Ok(summary),
                now,
                replies: seq![PurchaseReplyView::Recorded(Ok(()))],
            },
        ).states[payment::log_key(summary.secrets)] == (StateView::Pending { first_seen: now }),
{
    let replies = seq![PurchaseReplyView::Recorded(Ok(()))];
    reveal_with_fuel(purchase_laws::sold, 2);
    assert(replies.drop_last() == Seq::<PurchaseReplyView>::empty());
}

/// The till after a purchase that handed out goods.
pub open spec fn after_sale(ledger: LedgerView, sale: purchase_laws::Sale) -> Till {
    Till { states: sale.states, ledger }
}

/// Idempotent per token: once a token bought a grant, ordering the same pack
/// with it again, until the grant expires, gives the same grant at once,
/// whatever is sold and redeemed in between. The mint is not asked again.
pub proof fn grants_are_given_again(
    config: Config,
    till: Till,
    offer: OfferView,
    ttl_secs: u64,
    encoded: Seq<char>,
    summary: TokenSummaryView,
    now: u64,
    replies: Seq<PurchaseReplyView>,
    between: Seq<Dealing>,
    later: u64,
)
    requires
        ({
            let begun = purchase::grant_ordered(
                config,
                till.states,
                offer,
                ttl_secs,
                encoded,
                Ok(summary),
                now,
            );
            let sale = purchase_laws::sold(purchase_laws::begins(begun, till.states), replies);
            let key_hex = payment::log_key(summary.secrets);
            &&& begun.0 is Paying
            &&& sale.action is AnswerGrant
            &&& sale.action->AnswerGrant_0.expires_at > later
            &&& forall|i: int|
                0 <= i < between.len() ==> leaves(
                    #[trigger] between[i],
                    key_hex,
                    sale.states[key_hex],
                )
        }),
    ensures
        ({
            let begun = purchase::grant_ordered(
                config,
                till.states,
                offer,
                ttl_secs,
                encoded,
                Ok(summary),
                now,
            );
            let sale = purchase_laws::sold(purchase_laws::begins(begun, till.states), replies);
            purchase::grant_ordered(
                config,
                traded(after_sale(till.ledger, sale), between).states,
                offer,
                ttl_secs,
                encoded,
                Ok(summary),
                later,
            ) == (PurchaseView::Done, sale.action)
        }),
{
    let begun = purchase::grant_ordered(
        config,
        till.states,
        offer,
        ttl_secs,
        encoded,
        Ok(summary),
        now,
    );
    let start = purchase_laws::begins(begun, till.states);
    let sale = purchase_laws::sold(start, replies);
    let key_hex = payment::log_key(summary.secrets);
    let terms = grant::terms_of(cashu::key_of(summary.secrets), offer.credits, now, ttl_secs);
    purchase_laws::grant_orders_take_or_replay(
        config,
        till.states,
        offer,
        ttl_secs,
        encoded,
        summary,
        now,
    );
    purchase_laws::no_goods_without_money(start, key_hex, GoodsView::Grant(terms), replies);
    spent_records_stay(after_sale(till.ledger, sale), between, key_hex);
}

/// Idempotent per token and request: once a token bought a credential,
/// sending the same blinded request with it again gives the same answer at
/// once, whatever is sold and redeemed in between, as long as no session grant
/// is ordered with that token.
pub proof fn credentials_are_given_again(
    config: Config,
    till: Till,
    sat: u64,
    epoch: u32,
    limit: u32,
    blinded: Seq<u8>,
    encoded: Seq<char>,
    summary: TokenSummaryView,
    now: u64,
    replies: Seq<PurchaseReplyView>,
    between: Seq<Dealing>,
    later: u64,
    later_epoch: u32,
)
    requires
        ({
            let begun = purchase::credential_ordered(
                config,
                till.states,
                sat,
                epoch,
                limit,
                blinded,
                encoded,
                Ok(summary),
                now,
            );
            let sale = purchase_laws::sold(purchase_laws::begins(begun, till.states), replies);
            let key_hex = payment::log_key(summary.secrets);
            &&& begun.0 is Paying
            &&& sale.action is AnswerCredential
            &&& forall|i: int|
                0 <= i < between.len() ==> leaves(
                    #[trigger] between[i],
                    key_hex,
                    sale.states[key_hex],
                )
        }),
    ensures
        ({
            let begun = purchase::credential_ordered(
                config,
                till.states,
                sat,
                epoch,
                limit,
                blinded,
                encoded,
                Ok(summary),
                now,
            );
            let sale = purchase_laws::sold(purchase_laws::begins(begun, till.states), replies);
            purchase::credential_ordered(
                config,
                traded(after_sale(till.ledger, sale), between).states,
                sat,
                later_epoch,
                limit,
                blinded,
                encoded,
                Ok(summary),
                later,
            ) == (PurchaseView::Done, sale.action)
        }),
{
    let begun = purchase::credential_ordered(
        config,
        till.states,
        sat,
        epoch,
        limit,
        blinded,
        encoded,
        Ok(summary),
        now,
    );
    let start = purchase_laws::begins(begun, till.states);
    let sale = purchase_laws::sold(start, replies);
    let key_hex = payment::log_key(summary.secrets);
    let goods = GoodsView::Credential { epoch, limit, request: blinded };
    purchase_laws::credential_orders_take_or_replay(
        config,
        till.states,
        sat,
        epoch,
        limit,
        blinded,
        encoded,
        summary,
        now,
    );
    purchase_laws::no_goods_without_money(start, key_hex, goods, replies);
    spent_records_stay(after_sale(till.ledger, sale), between, key_hex);
}

/// What the ledger has for a server and a nonce stays, and so do the
/// presentations that were spent, whatever is sold and redeemed later.
pub proof fn answers_stay(till: Till, dealings: Seq<Dealing>, id: (Seq<char>, Seq<char>))
    requires
        till.ledger.answers.contains_key(id),
    ensures
        traded(till, dealings).ledger.answers.contains_key(id),
        traded(till, dealings).ledger.answers[id] == till.ledger.answers[id],
        till.ledger.tags.subset_of(traded(till, dealings).ledger.tags),
    decreases dealings.len(),
{
    if dealings.len() > 0 {
        let before = traded(till, dealings.drop_last());
        answers_stay(till, dealings.drop_last(), id);
        if let Dealing::Redemption { state, request, now, replies } = dealings.last() {
            settlement_laws::answers_stay(
                state,
                before.states,
                before.ledger,
                request,
                now,
                replies,
                id,
            );
        }
    }
}

/// Replay-safe: once a request was answered, a request of the same server
/// with the same nonce is given the same answer at once, whatever is sold and
/// redeemed in between. The mint is not asked again.
pub proof fn requests_are_answered_again(
    till: Till,
    between: Seq<Dealing>,
    state: AppState,
    request: VerifiedView,
    later: u64,
)
    requires
        till.ledger.answers.contains_key((request.server_id, request.nonce_hex)),
    ensures
        ({
            let after = traded(till, between);
            let given = till.ledger.answers[(request.server_id, request.nonce_hex)];
            settlement::begun(state, after.states, after.ledger, request, later) == (
                settlement::opening(request, later),
                SettlementActionView::Answer(given.response()),
            )
        }),
{
    answers_stay(till, between, (request.server_id, request.nonce_hex));
}

} // verus!
