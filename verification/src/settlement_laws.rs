//! What holds of every settlement, whatever is replied to it: no gas without
//! money, no presentation spent twice, no token swapped that was spent
//! before, and nothing booked for a request that is refused.

use vstd::prelude::*;
use vstd::utf8::*;

use crate::api::AppState;
use crate::arc::ArcErrorView;
use crate::cashu;
use crate::cashu::{SwapErrorView, TokenParseErrorView, TokenSummaryView};
use crate::config;
use crate::credit;
use crate::credit::{GasParams, CREDIT_PRESENT_KIND_ARC, CREDIT_PRESENT_KIND_CASHU};
use crate::crypto;
use crate::encoding;
use crate::ledger;
use crate::ledger::{LedgerView, RedeemEventView};
use crate::payment;
use crate::payment::{PaymentReplyView, PaymentView, StageView};
use crate::redeem::VerifiedView;
use crate::settlement;
use crate::settlement::{
    PhaseView, SettledView, SettlementActionView, SettlementReplyView, SettlementView,
};
use crate::store::{EventView, StateView};
use crate::text;

verus! {

/// A settlement with what it works on, and what it asks for.
pub struct Books {
    pub settlement: SettlementView,
    pub states: Map<Seq<char>, StateView>,
    pub ledger: LedgerView,
    pub action: SettlementActionView,
}

/// Where a settlement stands after some replies.
pub open spec fn run(
    state: AppState,
    states: Map<Seq<char>, StateView>,
    ledger: LedgerView,
    request: VerifiedView,
    now: u64,
    replies: Seq<SettlementReplyView>,
) -> Books
    decreases replies.len(),
{
    if replies.len() == 0 {
        let (settlement, action) = settlement::begun(state, states, ledger, request, now);
        Books { settlement, states, ledger, action }
    } else {
        let before = run(state, states, ledger, request, now, replies.drop_last());
        let (settlement, states, ledger, action) = before.settlement.after(
            state,
            before.states,
            before.ledger,
            replies.last(),
        );
        Books { settlement, states, ledger, action }
    }
}

/// The sats that a mint credited in some replies.
pub open spec fn credited(replies: Seq<SettlementReplyView>) -> int
    decreases replies.len(),
{
    if replies.len() == 0 {
        0
    } else {
        credited(replies.drop_last()) + match replies.last() {
            SettlementReplyView::Swapped(Ok(received)) => received as int,
            _ => 0,
        }
    }
}

/// The sats of the tokens among some items.
pub open spec fn token_sats(settled: Seq<SettledView>) -> int
    decreases settled.len(),
{
    if settled.len() == 0 {
        0
    } else {
        token_sats(settled.drop_last()) + match settled.last() {
            SettledView::Cashu { received, .. } => received as int,
            SettledView::Arc { .. } => 0,
        }
    }
}

/// The number of presentations among some items.
pub open spec fn presentation_count(settled: Seq<SettledView>) -> nat
    decreases settled.len(),
{
    if settled.len() == 0 {
        0
    } else {
        presentation_count(settled.drop_last()) + match settled.last() {
            SettledView::Cashu { .. } => 0,
            SettledView::Arc { presentations } => presentations,
        }
    }
}

/// The token that was settled as an item, if it was one.
pub open spec fn token_of(item: SettledView) -> Option<Seq<char>> {
    match item {
        SettledView::Cashu { key_hex, .. } => Some(key_hex),
        SettledView::Arc { .. } => None,
    }
}

/// Whether a token is among some items.
pub open spec fn settles(settled: Seq<SettledView>, key_hex: Seq<char>) -> bool {
    exists|i: int| 0 <= i < settled.len() && token_of(#[trigger] settled[i]) == Some(key_hex)
}

/// Whether the log of tokens allows a token to be taken: it never saw the
/// token, or the token's last swap failed.
pub open spec fn takeable(states: Map<Seq<char>, StateView>, key_hex: Seq<char>) -> bool {
    states.contains_key(key_hex) ==> states[key_hex] is Failed
}

/// Whether two logs agree on a token.
pub open spec fn agree(
    a: Map<Seq<char>, StateView>,
    b: Map<Seq<char>, StateView>,
    key_hex: Seq<char>,
) -> bool {
    a.contains_key(key_hex) == b.contains_key(key_hex) && (a.contains_key(key_hex) ==> a[key_hex]
        == b[key_hex])
}

/// The token in hand, if there is one.
pub open spec fn in_hand(phase: PhaseView) -> Option<Seq<char>> {
    match phase {
        PhaseView::Paying(payment) => Some(payment.key_hex),
        PhaseView::Booking { key_hex, .. } => Some(key_hex),
        _ => None,
    }
}

/// The sats that were credited but are not booked yet.
pub open spec fn in_transit(phase: PhaseView) -> int {
    match phase {
        PhaseView::Booking { received, .. } => received as int,
        _ => 0,
    }
}

/// What holds of the tokens: each that was settled is booked to the server,
/// at a positive amount, and could be taken before; the log has changed for
/// no other token but the one in hand.
pub open spec fn tokens_sound(books: Books, before: Map<Seq<char>, StateView>) -> bool {
    let s = books.settlement;
    &&& forall|i: int|
        0 <= i < s.settled.len() ==> (#[trigger] s.settled[i] matches SettledView::Cashu {
            key_hex,
            received,
        } ==> {
            &&& received > 0
            &&& takeable(before, key_hex)
            &&& books.states.contains_key(key_hex)
            &&& books.states[key_hex] matches StateView::Redeemed { server_id, received: r, .. }
                && server_id == s.request.server_id && r == received
        })
    &&& forall|i: int, j: int|
        0 <= i < j < s.settled.len() && token_of(#[trigger] s.settled[i]) is Some ==> token_of(
            s.settled[i],
        ) != token_of(#[trigger] s.settled[j])
    &&& !(s.phase is Done) ==> forall|k: Seq<char>|
        !settles(s.settled, k) && in_hand(s.phase) != Some(k) ==> #[trigger] agree(
            before,
            books.states,
            k,
        )
    &&& in_hand(s.phase) matches Some(k) ==> {
        &&& takeable(before, k)
        &&& !settles(s.settled, k)
    }
    &&& s.phase matches PhaseView::Paying(payment) ==> payment.marked(books.states)
    &&& s.phase is Booking ==> books.states.contains_key(s.phase->key_hex)
        && books.states[s.phase->key_hex] is Pending
}

/// What holds of the presentations: their tags are all different, none was
/// spent before, and there is one for each presentation that was settled.
pub open spec fn tags_sound(s: SettlementView, spent: Set<(u32, Seq<char>)>) -> bool {
    &&& s.tags.no_duplicates()
    &&& s.tags.len() == presentation_count(s.settled)
    &&& match s.epoch {
        Some(epoch) => forall|i: int|
            0 <= i < s.tags.len() ==> !spent.contains((epoch, #[trigger] s.tags[i])),
        None => s.tags.len() == 0,
    }
}

/// What holds of the ledger: nothing is booked while the settlement goes on,
/// and what is about to be booked is the settlement.
pub open spec fn ledger_sound(state: AppState, books: Books, before: LedgerView) -> bool {
    let s = books.settlement;
    &&& !(s.phase is Done) ==> books.ledger == before
    &&& s.phase matches PhaseView::Logging(event) ==> exists|preimage: Seq<u8>|
        event == #[trigger] s.redemption(state, preimage)
}

/// What holds of the item in hand: a token that is about to be booked is
/// worth something, and presentations are of the epoch of those before them.
pub open spec fn item_sound(s: SettlementView) -> bool {
    &&& s.phase is Booking ==> s.phase->received > 0
    &&& s.phase is Verifying ==> (s.epoch matches Some(epoch) ==> epoch == s.phase->epoch)
}

/// What holds of a settlement after any replies.
pub open spec fn sound(
    state: AppState,
    books: Books,
    states: Map<Seq<char>, StateView>,
    ledger: LedgerView,
    replies: Seq<SettlementReplyView>,
) -> bool {
    &&& tokens_sound(books, states)
    &&& tags_sound(books.settlement, ledger.tags)
    &&& ledger_sound(state, books, ledger)
    &&& item_sound(books.settlement)
    &&& token_sats(books.settlement.settled) + in_transit(books.settlement.phase) <= credited(
        replies,
    )
}

/// Taking up the next item keeps what holds.
proof fn next_is_sound(
    state: AppState,
    s: SettlementView,
    now_states: Map<Seq<char>, StateView>,
    states: Map<Seq<char>, StateView>,
    ledger: LedgerView,
    replies: Seq<SettlementReplyView>,
)
    requires
        sound(
            state,
            Books {
                settlement: s.at(PhaseView::Decoding),
                states: now_states,
                ledger,
                action: SettlementActionView::Decode(Seq::empty()),
            },
            states,
            ledger,
            replies,
        ),
    ensures
        ({
            let (settlement, action) = s.next(state, now_states);
            sound(
                state,
                Books { settlement, states: now_states, ledger, action },
                states,
                ledger,
                replies,
            )
        }),
{
    let (next, action) = s.next(state, now_states);
    assert(next.settled == s.settled && next.tags == s.tags && next.epoch == s.epoch && next.request
        == s.request);
    if let PhaseView::Paying(payment) = next.phase {
        let k = payment.key_hex;
        assert(takeable(now_states, k));
        if settles(s.settled, k) {
            let i = choose|i: int|
                0 <= i < s.settled.len() && token_of(#[trigger] s.settled[i]) == Some(k);
            assert(now_states[k] is Redeemed);
        }
        assert(agree(states, now_states, k));
    }
}

/// Booking a token keeps what holds.
proof fn booking_is_sound(
    state: AppState,
    books: Books,
    states: Map<Seq<char>, StateView>,
    ledger: LedgerView,
    replies: Seq<SettlementReplyView>,
)
    requires
        sound(state, books, states, ledger, replies),
        books.settlement.phase is Booking,
    ensures
        ({
            let (settlement, after, same, action) = books.settlement.after(
                state,
                books.states,
                books.ledger,
                SettlementReplyView::Recorded(Ok(())),
            );
            sound(
                state,
                Books { settlement, states: after, ledger: same, action },
                states,
                ledger,
                replies,
            )
        }),
{
    let s = books.settlement;
    if let PhaseView::Booking { key_hex, received, mint, unit } = s.phase {
        let after = books.states.insert(key_hex, s.booked(received, mint, unit));
        let item = SettledView::Cashu { key_hex, received };
        let longer = s.with(item);
        assert(longer.settled.drop_last() == s.settled);
        assert(longer.settled.last() == item);
        let held = Books {
            settlement: longer.at(PhaseView::Decoding),
            states: after,
            ledger: books.ledger,
            action: SettlementActionView::Decode(Seq::empty()),
        };
        assert forall|i: int| 0 <= i < longer.settled.len() implies (
        #[trigger] longer.settled[i] matches SettledView::Cashu { key_hex: k, received: r } ==> {
            &&& r > 0
            &&& takeable(states, k)
            &&& after.contains_key(k)
            &&& after[k] matches StateView::Redeemed { server_id, received: x, .. } && server_id
                == s.request.server_id && x == r
        }) by {
            if i < s.settled.len() {
                assert(longer.settled[i] == s.settled[i]);
                assert(token_of(s.settled[i]) != Some(key_hex));
            }
        }
        assert forall|i: int, j: int|
            0 <= i < j < longer.settled.len() && token_of(#[trigger] longer.settled[i]) is Some implies token_of(
            longer.settled[i],
        ) != token_of(#[trigger] longer.settled[j]) by {
            assert(longer.settled[i] == s.settled[i]);
            if j < s.settled.len() {
                assert(longer.settled[j] == s.settled[j]);
            } else {
                assert(token_of(s.settled[i]) != Some(key_hex));
            }
        }
        assert forall|k: Seq<char>|
            !settles(longer.settled, k) && in_hand(held.settlement.phase) != Some(
                k,
            ) implies #[trigger] agree(states, after, k) by {
            assert(longer.settled[longer.settled.len() - 1] == item);
            if settles(s.settled, k) {
                let i = choose|i: int|
                    0 <= i < s.settled.len() && token_of(#[trigger] s.settled[i]) == Some(k);
                assert(longer.settled[i] == s.settled[i]);
            }
            assert(k != key_hex);
            assert(agree(states, books.states, k));
        }
        assert(sound(state, held, states, ledger, replies));
        next_is_sound(state, longer, after, states, ledger, replies);
    }
}

/// Spending presentations keeps what holds.
proof fn presenting_is_sound(
    state: AppState,
    books: Books,
    states: Map<Seq<char>, StateView>,
    ledger: LedgerView,
    replies: Seq<SettlementReplyView>,
    tags: Seq<Seq<char>>,
)
    requires
        sound(state, books, states, ledger, replies),
        books.settlement.phase is Verifying,
    ensures
        ({
            let (settlement, after, same, action) = books.settlement.after(
                state,
                books.states,
                books.ledger,
                SettlementReplyView::Verified(Ok(tags)),
            );
            sound(
                state,
                Books { settlement, states: after, ledger: same, action },
                states,
                ledger,
                replies,
            )
        }),
{
    let s = books.settlement;
    if let PhaseView::Verifying { epoch, count } = s.phase {
        if tags.len() == count && settlement::unspent(ledger.tags, epoch, s.tags, tags) {
            let item = SettledView::Arc { presentations: tags.len() };
            let longer = (SettlementView { epoch: Some(epoch), tags: s.tags + tags, ..s }).with(
                item,
            );
            assert(longer.settled.drop_last() == s.settled);
            assert(longer.settled.last() == item);
            let held = Books {
                settlement: longer.at(PhaseView::Decoding),
                states: books.states,
                ledger: books.ledger,
                action: SettlementActionView::Decode(Seq::empty()),
            };
            assert forall|i: int| 0 <= i < longer.settled.len() - 1 implies longer.settled[i]
                == s.settled[i] by {}
            assert forall|k: Seq<char>|
                !settles(longer.settled, k) && in_hand(held.settlement.phase) != Some(
                    k,
                ) implies #[trigger] agree(states, books.states, k) by {
                if settles(s.settled, k) {
                    let i = choose|i: int|
                        0 <= i < s.settled.len() && token_of(#[trigger] s.settled[i]) == Some(k);
                    assert(longer.settled[i] == s.settled[i]);
                }
            }
            let all = s.tags + tags;
            assert forall|i: int, j: int|
                0 <= i < all.len() && 0 <= j < all.len() && i != j implies all[i] != all[j] by {
                let (a, b) = if i < j { (i, j) } else { (j, i) };
                if b >= s.tags.len() {
                    let n = b - s.tags.len();
                    assert(all[b] == tags[n]);
                    let shown = s.tags + tags.take(n);
                    assert(!shown.contains(tags[n]));
                    assert(shown[a] == all[a]);
                } else {
                    assert(all[a] == s.tags[a] && all[b] == s.tags[b]);
                }
            }
            assert forall|i: int| 0 <= i < all.len() implies !ledger.tags.contains(
                (epoch, #[trigger] all[i]),
            ) by {
                if i < s.tags.len() {
                    assert(all[i] == s.tags[i]);
                } else {
                    assert(all[i] == tags[i - s.tags.len()]);
                }
            }
            assert(sound(state, held, states, ledger, replies));
            next_is_sound(state, longer, books.states, states, ledger, replies);
        }
    }
}

/// A step of a payment keeps what holds.
proof fn paying_is_sound(
    state: AppState,
    books: Books,
    states: Map<Seq<char>, StateView>,
    ledger: LedgerView,
    replies: Seq<SettlementReplyView>,
    reply: SettlementReplyView,
)
    requires
        sound(state, books, states, ledger, replies),
        books.settlement.phase is Paying,
        reply is Recorded || reply is Swapped,
    ensures
        ({
            let (settlement, after, same, action) = books.settlement.after(
                state,
                books.states,
                books.ledger,
                reply,
            );
            sound(
                state,
                Books { settlement, states: after, ledger: same, action },
                states,
                ledger,
                replies.push(reply),
            )
        }),
{
    let s = books.settlement;
    assert(replies.push(reply).drop_last() == replies);
    if let PhaseView::Paying(p) = s.phase {
        let told = match reply {
            SettlementReplyView::Recorded(r) => PaymentReplyView::Recorded(r),
            SettlementReplyView::Swapped(r) => PaymentReplyView::Swapped(r),
            _ => arbitrary(),
        };
        let (next, after, action) = p.after(books.states, told);
        payment::payment_stays_marked(p, books.states, told);
        payment::no_swap_without_marker(p, books.states, told);
        let (settlement, asked) = s.paying(next, action);
        assert(next.key_hex == p.key_hex);
        assert forall|i: int| 0 <= i < s.settled.len() implies (
        #[trigger] s.settled[i] matches SettledView::Cashu { key_hex: k, received: r } ==> {
            &&& after.contains_key(k)
            &&& after[k] == books.states[k]
        }) by {
            assert(token_of(s.settled[i]) != Some(p.key_hex));
        }
        assert forall|k: Seq<char>| k != p.key_hex implies #[trigger] agree(
            books.states,
            after,
            k,
        ) by {}
        assert forall|k: Seq<char>|
            !settles(s.settled, k) && k != p.key_hex implies #[trigger] agree(states, after, k) by {
            assert(agree(states, books.states, k));
            assert(agree(books.states, after, k));
        }
    }
}

/// Every step keeps what holds.
proof fn step_is_sound(
    state: AppState,
    books: Books,
    states: Map<Seq<char>, StateView>,
    ledger: LedgerView,
    replies: Seq<SettlementReplyView>,
    reply: SettlementReplyView,
)
    requires
        sound(state, books, states, ledger, replies),
    ensures
        ({
            let (settlement, after, same, action) = books.settlement.after(
                state,
                books.states,
                books.ledger,
                reply,
            );
            sound(
                state,
                Books { settlement, states: after, ledger: same, action },
                states,
                ledger,
                replies.push(reply),
            )
        }),
{
    let s = books.settlement;
    assert(replies.push(reply).drop_last() == replies);
    assert(credited(replies.push(reply)) >= credited(replies));
    match (s.phase, reply) {
        (PhaseView::Paying(_), SettlementReplyView::Recorded(_)) => {
            paying_is_sound(state, books, states, ledger, replies, reply);
        },
        (PhaseView::Paying(_), SettlementReplyView::Swapped(_)) => {
            paying_is_sound(state, books, states, ledger, replies, reply);
        },
        (PhaseView::Booking { .. }, SettlementReplyView::Recorded(Ok(()))) => {
            booking_is_sound(state, books, states, ledger, replies);
        },
        (PhaseView::Verifying { .. }, SettlementReplyView::Verified(Ok(tags))) => {
            presenting_is_sound(state, books, states, ledger, replies, tags);
        },
        (PhaseView::Sealing, SettlementReplyView::Preimage(preimage)) => {
            let event = s.redemption(state, preimage);
            let next = s.at(PhaseView::Logging(event));
            assert(event == next.redemption(state, preimage));
        },
        _ => {},
    }
}

/// What holds of every settlement, whatever is replied to it.
proof fn run_is_sound(
    state: AppState,
    states: Map<Seq<char>, StateView>,
    ledger: LedgerView,
    request: VerifiedView,
    now: u64,
    replies: Seq<SettlementReplyView>,
)
    ensures
        sound(
            state,
            run(state, states, ledger, request, now, replies),
            states,
            ledger,
            replies,
        ),
        run(state, states, ledger, request, now, replies).settlement.request == request,
    decreases replies.len(),
{
    if replies.len() == 0 {
        let open = settlement::opening(request, now);
        let id = (request.server_id, request.nonce_hex);
        assert(sound(
            state,
            Books {
                settlement: open.at(PhaseView::Decoding),
                states,
                ledger,
                action: SettlementActionView::Decode(Seq::empty()),
            },
            states,
            ledger,
            replies,
        ));
        if !ledger.answers.contains_key(id) {
            next_is_sound(state, open, states, states, ledger, replies);
        }
    } else {
        let earlier = replies.drop_last();
        run_is_sound(state, states, ledger, request, now, earlier);
        let before = run(state, states, ledger, request, now, earlier);
        step_is_sound(state, before, states, ledger, earlier, replies.last());
        assert(earlier.push(replies.last()) == replies);
    }
}

/// What items are worth in sats is what their tokens brought and a credit's
/// price for each presentation; and gas is sold at the credit's price.
proof fn worth_of_items(settled: Seq<SettledView>, params: GasParams)
    requires
        params.credit_sat > 0,
    ensures
        0 <= settlement::total_sat(settled, params) <= token_sats(settled) + presentation_count(
            settled,
        ) * params.credit_sat,
        0 <= settlement::total_gas(settled, params) <= u64::MAX,
        settlement::total_sat(settled, params) <= u64::MAX,
        settlement::total_gas(settled, params) * params.credit_sat <= (token_sats(settled)
            + presentation_count(settled) * params.credit_sat) * params.gas_per_credit,
        token_sats(settled) >= 0,
    decreases settled.len(),
{
    let (c, g) = (params.credit_sat as int, params.gas_per_credit as int);
    if settled.len() > 0 {
        let shorter = settled.drop_last();
        worth_of_items(shorter, params);
        let (t, n) = (token_sats(shorter), presentation_count(shorter) as int);
        let item = settled.last();
        let (gas, more) = (settlement::total_gas(shorter, params), item.gas(params));
        match item {
            SettledView::Cashu { received, .. } => {
                let r = received as int;
                vstd::arithmetic::div_mod::lemma_fundamental_div_mod(r * g, c);
                vstd::arithmetic::div_mod::lemma_mod_bound(r * g, c);
                let q = r * g / c;
                assert(r * g >= 0) by (nonlinear_arith)
                    requires
                        r >= 0,
                        g >= 0,
                ;
                assert(q >= 0) by (nonlinear_arith)
                    requires
                        r * g == c * q + (r * g) % c,
                        (r * g) % c < c,
                        r * g >= 0,
                        c > 0,
                ;
                assert(0 <= more <= q);
                assert((gas + more) * c <= (t + r + n * c) * g) by (nonlinear_arith)
                    requires
                        gas * c <= (t + n * c) * g,
                        more <= q,
                        r * g == c * q + (r * g) % c,
                        (r * g) % c >= 0,
                        c > 0,
                ;
            },
            SettledView::Arc { presentations } => {
                let p = presentations as int;
                assert(p * g >= 0) by (nonlinear_arith)
                    requires
                        p >= 0,
                        g >= 0,
                ;
                assert(p * c >= 0) by (nonlinear_arith)
                    requires
                        p >= 0,
                        c >= 0,
                ;
                assert((n + p) * c == n * c + p * c) by (nonlinear_arith);
                assert((gas + more) * c <= (t + (n + p) * c) * g) by (nonlinear_arith)
                    requires
                        gas * c <= (t + n * c) * g,
                        more == p * g,
                ;
            },
        }
        let capped = settlement::total_gas(settled, params);
        assert(capped * c <= (gas + more) * c) by (nonlinear_arith)
            requires
                capped <= gas + more,
                c > 0,
        ;
    } else {
        assert(0 * c <= (0 + 0 * c) * g) by (nonlinear_arith);
    }
}

/// Never gas without money. What is booked to a server is worth no more sats
/// than the mint credited for its tokens and a credit's price for each of its
/// presentations, and the gas is sold at the credit's price. Each token that
/// was settled is counted once and is on record as redeemed through the
/// server; each presentation is there once and was not spent before.
pub proof fn no_gas_without_money(
    state: AppState,
    states: Map<Seq<char>, StateView>,
    ledger: LedgerView,
    request: VerifiedView,
    now: u64,
    replies: Seq<SettlementReplyView>,
)
    requires
        state.wf(),
        run(state, states, ledger, request, now, replies).settlement.phase is Logging,
    ensures
        ({
            let books = run(state, states, ledger, request, now, replies);
            let event = books.settlement.phase->Logging_0;
            let params = state.config.gas.spec_params();
            let sats = credited(replies) + event.tags_hex.len() * params.credit_sat;
            &&& event.server_id == request.server_id
            &&& event.nonce_hex == request.nonce_hex
            &&& event.sat_value <= sats
            &&& event.gas_added * params.credit_sat <= sats * params.gas_per_credit
            &&& tokens_sound(books, states)
            &&& event.tags_hex.no_duplicates()
            &&& ledger::spent_tags(event).disjoint(ledger.tags)
        }),
{
    run_is_sound(state, states, ledger, request, now, replies);
    let books = run(state, states, ledger, request, now, replies);
    let s = books.settlement;
    let event = s.phase->Logging_0;
    let params = state.config.gas.spec_params();
    worth_of_items(s.settled, params);
    let preimage = choose|preimage: Seq<u8>| event == #[trigger] s.redemption(state, preimage);
    let (c, g) = (params.credit_sat as int, params.gas_per_credit as int);
    let (a, b) = (token_sats(s.settled) + presentation_count(s.settled) * c, credited(replies)
        + event.tags_hex.len() * c);
    assert(a * g <= b * g) by (nonlinear_arith)
        requires
            a <= b,
            g >= 0,
    ;
    assert forall|p: (u32, Seq<char>)| ledger::spent_tags(event).contains(p) implies !(
    #[trigger] ledger.tags.contains(p)) by {
        let i = choose|i: int| 0 <= i < s.tags.len() && s.tags[i] == p.1;
        assert(!ledger.tags.contains((p.0, s.tags[i])));
    }
}

/// A settlement that is over changes nothing more.
proof fn over_is_over(
    state: AppState,
    states: Map<Seq<char>, StateView>,
    ledger: LedgerView,
    request: VerifiedView,
    now: u64,
    replies: Seq<SettlementReplyView>,
)
    requires
        replies.len() > 0,
        run(state, states, ledger, request, now, replies.drop_last()).settlement.phase is Done,
    ensures
        run(state, states, ledger, request, now, replies).settlement.phase is Done,
        run(state, states, ledger, request, now, replies).states == run(
            state,
            states,
            ledger,
            request,
            now,
            replies.drop_last(),
        ).states,
        run(state, states, ledger, request, now, replies).ledger == run(
            state,
            states,
            ledger,
            request,
            now,
            replies.drop_last(),
        ).ledger,
{
}

/// Whether the ledger of `after` holds the redemption that the settlement had
/// ready when its `n`th reply said that it was appended to the redeem log.
pub open spec fn booked_at(
    state: AppState,
    states: Map<Seq<char>, StateView>,
    ledger: LedgerView,
    request: VerifiedView,
    now: u64,
    replies: Seq<SettlementReplyView>,
    n: int,
    after: LedgerView,
) -> bool {
    let before = run(state, states, ledger, request, now, replies.take(n));
    &&& 0 <= n < replies.len()
    &&& replies[n] is Logged && replies[n]->Logged_0 is Ok
    &&& before.settlement.phase is Logging
    &&& after == ledger.plus(before.settlement.phase->Logging_0)
}

/// A settlement books at most one redemption, and that one only after it was
/// appended to the redeem log; until then the ledger stays as it was.
pub proof fn at_most_one_redemption(
    state: AppState,
    states: Map<Seq<char>, StateView>,
    ledger: LedgerView,
    request: VerifiedView,
    now: u64,
    replies: Seq<SettlementReplyView>,
)
    ensures
        ({
            let after = run(state, states, ledger, request, now, replies).ledger;
            after == ledger || exists|n: int| #[trigger]
                booked_at(state, states, ledger, request, now, replies, n, after)
        }),
    decreases replies.len(),
{
    if replies.len() > 0 {
        let earlier = replies.drop_last();
        at_most_one_redemption(state, states, ledger, request, now, earlier);
        run_is_sound(state, states, ledger, request, now, earlier);
        let before = run(state, states, ledger, request, now, earlier);
        let after = run(state, states, ledger, request, now, replies).ledger;
        if before.settlement.phase is Done {
            over_is_over(state, states, ledger, request, now, replies);
            if after != ledger {
                let n = choose|n: int| #[trigger]
                    booked_at(state, states, ledger, request, now, earlier, n, after);
                assert(earlier.take(n) == replies.take(n));
                assert(booked_at(state, states, ledger, request, now, replies, n, after));
            }
        } else {
            let n = replies.len() - 1;
            assert(replies.take(n) == earlier);
            if after != ledger {
                assert(booked_at(state, states, ledger, request, now, replies, n, after));
            }
        }
    }
}

/// Nothing is booked for a request that is refused.
pub proof fn refusals_book_nothing(
    state: AppState,
    states: Map<Seq<char>, StateView>,
    ledger: LedgerView,
    request: VerifiedView,
    now: u64,
    replies: Seq<SettlementReplyView>,
)
    requires
        run(state, states, ledger, request, now, replies).action is Refuse,
        replies.len() > 0 ==> !(run(
            state,
            states,
            ledger,
            request,
            now,
            replies.drop_last(),
        ).settlement.phase is Done),
    ensures
        run(state, states, ledger, request, now, replies).ledger == ledger,
{
    if replies.len() > 0 {
        run_is_sound(state, states, ledger, request, now, replies.drop_last());
    }
}

/// A request whose server and nonce were answered before is given that answer
/// at once: no token is swapped, and neither the log nor the ledger changes.
pub proof fn replays_are_answered_from_the_ledger(
    state: AppState,
    states: Map<Seq<char>, StateView>,
    ledger: LedgerView,
    request: VerifiedView,
    now: u64,
    event: RedeemEventView,
)
    requires
        event.server_id == request.server_id,
        event.nonce_hex == request.nonce_hex,
    ensures
        ({
            let books = run(state, states, ledger.plus(event), request, now, Seq::empty());
            &&& books.action == SettlementActionView::Answer(event.response())
            &&& books.settlement.phase is Done
            &&& books.states == states
            &&& books.ledger == ledger.plus(event)
        }),
{
}

/// A token is swapped only while the log has it as pending, and only if the
/// log never saw it before the request or its last swap failed: a token that
/// bought something, was redeemed, or is of unknown outcome is not sent to
/// the mint again.
pub proof fn spent_tokens_are_not_swapped(
    state: AppState,
    states: Map<Seq<char>, StateView>,
    ledger: LedgerView,
    request: VerifiedView,
    now: u64,
    replies: Seq<SettlementReplyView>,
)
    requires
        run(state, states, ledger, request, now, replies).action is Swap,
    ensures
        ({
            let books = run(state, states, ledger, request, now, replies);
            books.settlement.phase matches PhaseView::Paying(payment) && {
                &&& books.action == SettlementActionView::Swap(payment.summary, payment.encoded)
                &&& books.states.contains_key(payment.key_hex)
                &&& books.states[payment.key_hex] is Pending
                &&& takeable(states, payment.key_hex)
            }
        }),
{
    run_is_sound(state, states, ledger, request, now, replies);
    if replies.len() > 0 {
        run_is_sound(state, states, ledger, request, now, replies.drop_last());
    }
}

/// A token that bought a session grant or a credential, or was redeemed, is
/// answered `402 already_redeemed` when it is presented; one of unknown
/// outcome is rejected and named to the operator. Neither is taken.
pub proof fn spent_tokens_are_refused(
    settlement: SettlementView,
    state: AppState,
    states: Map<Seq<char>, StateView>,
    encoded: Seq<char>,
    summary: TokenSummaryView,
)
    requires
        state.config.serves(summary.mint),
        summary.unit == "sat"@,
        !takeable(states, payment::log_key(summary.secrets)),
    ensures
        ({
            let key_hex = payment::log_key(summary.secrets);
            let (next, action) = settlement.token_presented(state, states, encoded, Ok(summary));
            &&& next.phase is Done
            &&& action matches SettlementActionView::Refuse(refusal) && refusal.error.status == 402
                && if states[key_hex] is Pending {
                refusal.error.error == "token_rejected"@ && refusal.reconcile == Some(key_hex)
            } else {
                refusal.error.error == "already_redeemed"@
            }
        }),
{
}

/// Presentations of which one was spent before, or occurs twice, are refused
/// as a double spend.
pub proof fn spent_presentations_are_refused(
    settlement: SettlementView,
    state: AppState,
    states: Map<Seq<char>, StateView>,
    ledger: LedgerView,
    tags: Seq<Seq<char>>,
    i: int,
)
    requires
        settlement.phase matches PhaseView::Verifying { epoch, count } && count == tags.len() && 0
            <= i < tags.len() && (ledger.tags.contains((epoch, tags[i]))
            || settlement.tags.contains(tags[i]) || tags.take(i).contains(tags[i])),
    ensures
        ({
            let (next, after, same, action) = settlement.after(
                state,
                states,
                ledger,
                SettlementReplyView::Verified(Ok(tags)),
            );
            &&& action matches SettlementActionView::Refuse(refusal) && refusal.error.status == 402
                && refusal.error.error == "double_spend"@
            &&& after == states
            &&& same == ledger
        }),
{
    let shown = settlement.tags + tags.take(i);
    if settlement.tags.contains(tags[i]) {
        let j = choose|j: int| 0 <= j < settlement.tags.len() && settlement.tags[j] == tags[i];
        assert(shown[j] == tags[i]);
    }
    if tags.take(i).contains(tags[i]) {
        let j = choose|j: int| 0 <= j < tags.take(i).len() && tags.take(i)[j] == tags[i];
        assert(shown[settlement.tags.len() + j] == tags[i]);
    }
}

/// A settlement changes the record of the token in hand, and of no other.
proof fn only_the_token_in_hand(
    settlement: SettlementView,
    state: AppState,
    states: Map<Seq<char>, StateView>,
    ledger: LedgerView,
    reply: SettlementReplyView,
    key_hex: Seq<char>,
)
    requires
        in_hand(settlement.phase) != Some(key_hex),
    ensures
        agree(states, settlement.after(state, states, ledger, reply).1, key_hex),
{
}

/// What a token bought stays on record: no settlement changes the state of a
/// token that bought something, was redeemed before, or is of unknown outcome.
pub proof fn spent_records_stay(
    state: AppState,
    states: Map<Seq<char>, StateView>,
    ledger: LedgerView,
    request: VerifiedView,
    now: u64,
    replies: Seq<SettlementReplyView>,
    key_hex: Seq<char>,
)
    requires
        !takeable(states, key_hex),
    ensures
        ({
            let after = run(state, states, ledger, request, now, replies).states;
            after.contains_key(key_hex) && after[key_hex] == states[key_hex]
        }),
    decreases replies.len(),
{
    if replies.len() > 0 {
        let earlier = replies.drop_last();
        spent_records_stay(state, states, ledger, request, now, earlier, key_hex);
        run_is_sound(state, states, ledger, request, now, earlier);
        let before = run(state, states, ledger, request, now, earlier);
        only_the_token_in_hand(
            before.settlement,
            state,
            before.states,
            before.ledger,
            replies.last(),
            key_hex,
        );
    }
}

/// A settlement that begins with an answer stays over.
proof fn answered_is_over(
    state: AppState,
    states: Map<Seq<char>, StateView>,
    ledger: LedgerView,
    request: VerifiedView,
    now: u64,
    replies: Seq<SettlementReplyView>,
)
    requires
        ledger.answers.contains_key((request.server_id, request.nonce_hex)),
    ensures
        run(state, states, ledger, request, now, replies).settlement.phase is Done,
        run(state, states, ledger, request, now, replies).ledger == ledger,
    decreases replies.len(),
{
    if replies.len() > 0 {
        answered_is_over(state, states, ledger, request, now, replies.drop_last());
        over_is_over(state, states, ledger, request, now, replies);
    }
}

/// What was answered stays answered, and what was spent stays spent: no
/// settlement changes the answer that the ledger has for a server and a
/// nonce, nor takes a presentation off the spent ones.
pub proof fn answers_stay(
    state: AppState,
    states: Map<Seq<char>, StateView>,
    ledger: LedgerView,
    request: VerifiedView,
    now: u64,
    replies: Seq<SettlementReplyView>,
    id: (Seq<char>, Seq<char>),
)
    requires
        ledger.answers.contains_key(id),
    ensures
        ({
            let after = run(state, states, ledger, request, now, replies).ledger;
            &&& after.answers.contains_key(id)
            &&& after.answers[id] == ledger.answers[id]
            &&& ledger.tags.subset_of(after.tags)
        }),
{
    let after = run(state, states, ledger, request, now, replies).ledger;
    if id == (request.server_id, request.nonce_hex) {
        answered_is_over(state, states, ledger, request, now, replies);
    } else {
        at_most_one_redemption(state, states, ledger, request, now, replies);
        if after != ledger {
            let n = choose|n: int| #[trigger]
                booked_at(state, states, ledger, request, now, replies, n, after);
            run_is_sound(state, states, ledger, request, now, replies.take(n));
            let s = run(state, states, ledger, request, now, replies.take(n)).settlement;
            let event = s.phase->Logging_0;
            let preimage = choose|preimage: Seq<u8>|
                event == #[trigger] s.redemption(state, preimage);
            assert((event.server_id, event.nonce_hex) == (request.server_id, request.nonce_hex));
        }
    }
}

/// One more reply.
proof fn run_step(
    state: AppState,
    states: Map<Seq<char>, StateView>,
    ledger: LedgerView,
    request: VerifiedView,
    now: u64,
    replies: Seq<SettlementReplyView>,
    reply: SettlementReplyView,
)
    ensures
        ({
            let before = run(state, states, ledger, request, now, replies);
            let after = run(state, states, ledger, request, now, replies.push(reply));
            (after.settlement, after.states, after.ledger, after.action) == before.settlement.after(
                state,
                before.states,
                before.ledger,
                reply,
            )
        }),
{
    assert(replies.push(reply).drop_last() == replies);
}

/// A settlement whose items are all settled is signed, logged and answered.
proof fn sealed_is_answered(
    state: AppState,
    states: Map<Seq<char>, StateView>,
    ledger: LedgerView,
    request: VerifiedView,
    now: u64,
    replies: Seq<SettlementReplyView>,
    preimage: Seq<u8>,
)
    requires
        run(state, states, ledger, request, now, replies).settlement.phase is Sealing,
    ensures
        ({
            let before = run(state, states, ledger, request, now, replies);
            let after = run(
                state,
                states,
                ledger,
                request,
                now,
                replies.push(SettlementReplyView::Preimage(preimage)).push(
                    SettlementReplyView::Logged(Ok(())),
                ),
            );
            let event = before.settlement.redemption(state, preimage);
            &&& after.action == SettlementActionView::Answer(event.response())
            &&& after.states == before.states
            &&& after.ledger == before.ledger.plus(event)
        }),
{
    let signed = replies.push(SettlementReplyView::Preimage(preimage));
    run_step(state, states, ledger, request, now, replies, signed.last());
    run_step(state, states, ledger, request, now, signed, SettlementReplyView::Logged(Ok(())));
}

/// What one item is worth.
proof fn worth_of_one(item: SettledView, params: GasParams)
    requires
        params.credit_sat > 0,
    ensures
        settlement::total_gas(seq![item], params) == credit::capped_sum(0, item.gas(params)),
        settlement::total_sat(seq![item], params) == credit::capped_sum(0, item.sat(params)),
        item.gas(params) >= 0,
        item.sat(params) >= 0,
{
    assert(seq![item].drop_last() == Seq::<SettledView>::empty());
    reveal_with_fuel(settlement::total_gas, 2);
    reveal_with_fuel(settlement::total_sat, 2);
    let (g, c) = (params.gas_per_credit as int, params.credit_sat as int);
    match item {
        SettledView::Cashu { received, .. } => {
            let r = received as int;
            assert(r * g / c >= 0) by (nonlinear_arith)
                requires
                    r >= 0,
                    g >= 0,
                    c > 0,
            ;
        },
        SettledView::Arc { presentations } => {
            let n = presentations as int;
            assert(n * g >= 0 && n * c >= 0) by (nonlinear_arith)
                requires
                    n >= 0,
                    g >= 0,
                    c > 0,
            ;
        },
    }
}

/// A request whose one item is a token that the mint credits comes to the
/// point where its answer is laid out, with the token booked to the server.
proof fn one_token_is_booked(
    state: AppState,
    states: Map<Seq<char>, StateView>,
    ledger: LedgerView,
    request: VerifiedView,
    now: u64,
    payload: Seq<u8>,
    summary: TokenSummaryView,
    received: u64,
)
    requires
        request.items == seq![(CREDIT_PRESENT_KIND_CASHU, payload)],
        valid_utf8(payload),
        cashu::summarized(
            cashu::cashu_token(text::trimmed(text::trimmed(decode_utf8(payload)))),
        ) == Ok::<TokenSummaryView, TokenParseErrorView>(summary),
        state.config.serves(summary.mint),
        summary.unit == "sat"@,
        takeable(states, payment::log_key(summary.secrets)),
        !ledger.answers.contains_key((request.server_id, request.nonce_hex)),
        received > 0,
    ensures
        ({
            let books = run(
                state,
                states,
                ledger,
                request,
                now,
                Seq::empty().push(SettlementReplyView::Recorded(Ok(()))).push(
                    SettlementReplyView::Swapped(Ok(received)),
                ).push(SettlementReplyView::Recorded(Ok(()))),
            );
            let key_hex = payment::log_key(summary.secrets);
            &&& books.settlement.phase is Sealing
            &&& books.settlement.request == request
            &&& books.settlement.settled == seq![SettledView::Cashu { key_hex, received }]
            &&& books.ledger == ledger
            &&& books.states[key_hex] == (StateView::Redeemed {
                server_id: request.server_id,
                received,
                mint: summary.mint,
                unit: summary.unit,
            })
        }),
{
    let r0 = Seq::<SettlementReplyView>::empty();
    let r1 = r0.push(SettlementReplyView::Recorded(Ok(())));
    let r2 = r1.push(SettlementReplyView::Swapped(Ok(received)));
    let r3 = r2.push(SettlementReplyView::Recorded(Ok(())));
    run_step(state, states, ledger, request, now, r0, r1.last());
    run_step(state, states, ledger, request, now, r1, r2.last());
    run_step(state, states, ledger, request, now, r2, r3.last());
    let books = run(state, states, ledger, request, now, r3);
    assert(books.settlement.settled == seq![
        SettledView::Cashu { key_hex: payment::log_key(summary.secrets), received },
    ]);
}

/// A token that the mint credits is worth its sats. Where the one item of a
/// request is a token of an accepted mint, in sats, that can be taken, and
/// everything that is asked for succeeds, the answer is the gas that the
/// credited sats buy, and the token is booked to the server.
pub proof fn a_credited_token_buys_gas(
    state: AppState,
    states: Map<Seq<char>, StateView>,
    ledger: LedgerView,
    request: VerifiedView,
    now: u64,
    payload: Seq<u8>,
    summary: TokenSummaryView,
    received: u64,
    preimage: Seq<u8>,
)
    requires
        state.wf(),
        request.items == seq![(CREDIT_PRESENT_KIND_CASHU, payload)],
        valid_utf8(payload),
        cashu::summarized(
            cashu::cashu_token(text::trimmed(text::trimmed(decode_utf8(payload)))),
        ) == Ok::<TokenSummaryView, TokenParseErrorView>(summary),
        state.config.serves(summary.mint),
        summary.unit == "sat"@,
        takeable(states, payment::log_key(summary.secrets)),
        !ledger.answers.contains_key((request.server_id, request.nonce_hex)),
        received > 0,
    ensures
        ({
            let replies = seq![
                SettlementReplyView::Recorded(Ok(())),
                SettlementReplyView::Swapped(Ok(received)),
                SettlementReplyView::Recorded(Ok(())),
                SettlementReplyView::Preimage(preimage),
                SettlementReplyView::Logged(Ok(())),
            ];
            let books = run(state, states, ledger, request, now, replies);
            let key_hex = payment::log_key(summary.secrets);
            &&& books.action matches SettlementActionView::Answer(answer) && {
                &&& answer.gas_added == state.config.gas.spec_params().gas_for(received)
                &&& answer.sat_value == received
                &&& answer.items_accepted == 1
                &&& answer.issuer_signature_hex == encoding::hex_text(
                    crypto::ed25519_signature(state.issuer.seed(), preimage),
                )
            }
            &&& books.states[key_hex] == (StateView::Redeemed {
                server_id: request.server_id,
                received,
                mint: summary.mint,
                unit: summary.unit,
            })
            &&& books.ledger.totals_of(request.server_id).sat == credit::capped_sum(
                ledger.totals_of(request.server_id).sat as int,
                received as int,
            )
        }),
{
    let booked = Seq::<SettlementReplyView>::empty().push(
        SettlementReplyView::Recorded(Ok(())),
    ).push(SettlementReplyView::Swapped(Ok(received))).push(SettlementReplyView::Recorded(Ok(())));
    one_token_is_booked(state, states, ledger, request, now, payload, summary, received);
    sealed_is_answered(state, states, ledger, request, now, booked, preimage);
    worth_of_one(
        SettledView::Cashu { key_hex: payment::log_key(summary.secrets), received },
        state.config.gas.spec_params(),
    );
    assert(booked.push(SettlementReplyView::Preimage(preimage)).push(
        SettlementReplyView::Logged(Ok(())),
    ) == seq![
        SettlementReplyView::Recorded(Ok(())),
        SettlementReplyView::Swapped(Ok(received)),
        SettlementReplyView::Recorded(Ok(())),
        SettlementReplyView::Preimage(preimage),
        SettlementReplyView::Logged(Ok(())),
    ]);
}

/// A request whose one item decodes to presentations that verify, none of
/// them spent, comes to the point where its answer is laid out.
proof fn presentations_are_settled(
    state: AppState,
    states: Map<Seq<char>, StateView>,
    ledger: LedgerView,
    request: VerifiedView,
    now: u64,
    payload: Seq<u8>,
    epoch: u32,
    presentations: Seq<Seq<u8>>,
    tags: Seq<Seq<char>>,
)
    requires
        request.items == seq![(CREDIT_PRESENT_KIND_ARC, payload)],
        state.arc matches Some(arc) && credit::epoch_counts(
            epoch,
            now,
            arc.epoch_length(),
            arc.grace(),
        ),
        !ledger.answers.contains_key((request.server_id, request.nonce_hex)),
        tags.len() == presentations.len(),
        tags.no_duplicates(),
        forall|i: int| 0 <= i < tags.len() ==> !ledger.tags.contains((epoch, #[trigger] tags[i])),
    ensures
        ({
            let books = run(
                state,
                states,
                ledger,
                request,
                now,
                Seq::empty().push(SettlementReplyView::Decoded(Ok((epoch, presentations)))).push(
                    SettlementReplyView::Verified(Ok(tags)),
                ),
            );
            &&& books.settlement.phase is Sealing
            &&& books.settlement.request == request
            &&& books.settlement.settled == seq![SettledView::Arc { presentations: tags.len() }]
            &&& books.settlement.epoch == Some(epoch)
            &&& books.settlement.tags == tags
            &&& books.states == states
            &&& books.ledger == ledger
        }),
{
    let r0 = Seq::<SettlementReplyView>::empty();
    let r1 = r0.push(SettlementReplyView::Decoded(Ok((epoch, presentations))));
    let r2 = r1.push(SettlementReplyView::Verified(Ok(tags)));
    run_step(state, states, ledger, request, now, r0, r1.last());
    run_step(state, states, ledger, request, now, r1, r2.last());
    let used = run(state, states, ledger, request, now, r1).settlement.tags;
    assert(used == Seq::<Seq<char>>::empty());
    assert forall|i: int| 0 <= i < tags.len() implies !ledger.tags.contains(
        (epoch, #[trigger] tags[i]),
    ) && !(used + tags.take(i)).contains(tags[i]) by {
        let shown = used + tags.take(i);
        if shown.contains(tags[i]) {
            let j = choose|j: int| 0 <= j < shown.len() && shown[j] == tags[i];
            assert(shown[j] == tags[j]);
        }
    }
    assert(settlement::unspent(ledger.tags, epoch, used, tags));
    let books = run(state, states, ledger, request, now, r2);
    assert(books.settlement.settled == seq![SettledView::Arc { presentations: tags.len() }]);
    assert(books.settlement.tags == tags);
}

/// A presentation is worth a credit. Where the one item of a request decodes
/// to presentations of an epoch that counts, all verify and none was spent,
/// the answer is a credit's gas and price for each of them, and they are
/// spent.
pub proof fn presentations_buy_credits(
    state: AppState,
    states: Map<Seq<char>, StateView>,
    ledger: LedgerView,
    request: VerifiedView,
    now: u64,
    payload: Seq<u8>,
    epoch: u32,
    presentations: Seq<Seq<u8>>,
    tags: Seq<Seq<char>>,
    preimage: Seq<u8>,
)
    requires
        state.wf(),
        request.items == seq![(CREDIT_PRESENT_KIND_ARC, payload)],
        state.arc matches Some(arc) && credit::epoch_counts(
            epoch,
            now,
            arc.epoch_length(),
            arc.grace(),
        ),
        !ledger.answers.contains_key((request.server_id, request.nonce_hex)),
        tags.len() == presentations.len(),
        tags.no_duplicates(),
        forall|i: int| 0 <= i < tags.len() ==> !ledger.tags.contains((epoch, #[trigger] tags[i])),
    ensures
        ({
            let replies = seq![
                SettlementReplyView::Decoded(Ok((epoch, presentations))),
                SettlementReplyView::Verified(Ok(tags)),
                SettlementReplyView::Preimage(preimage),
                SettlementReplyView::Logged(Ok(())),
            ];
            let books = run(state, states, ledger, request, now, replies);
            let params = state.config.gas.spec_params();
            &&& books.action matches SettlementActionView::Answer(answer) && {
                &&& answer.gas_added == credit::capped_sum(0, tags.len() * params.gas_per_credit)
                &&& answer.sat_value == credit::capped_sum(0, tags.len() * params.credit_sat)
                &&& answer.items_accepted == 1
            }
            &&& books.states == states
            &&& forall|i: int|
                0 <= i < tags.len() ==> books.ledger.tags.contains((epoch, #[trigger] tags[i]))
        }),
{
    let settled = Seq::<SettlementReplyView>::empty().push(
        SettlementReplyView::Decoded(Ok((epoch, presentations))),
    ).push(SettlementReplyView::Verified(Ok(tags)));
    let all = settled.push(SettlementReplyView::Preimage(preimage)).push(
        SettlementReplyView::Logged(Ok(())),
    );
    presentations_are_settled(
        state,
        states,
        ledger,
        request,
        now,
        payload,
        epoch,
        presentations,
        tags,
    );
    sealed_is_answered(state, states, ledger, request, now, settled, preimage);
    worth_of_one(
        SettledView::Arc { presentations: tags.len() },
        state.config.gas.spec_params(),
    );
    assert forall|i: int| 0 <= i < tags.len() implies run(
        state,
        states,
        ledger,
        request,
        now,
        all,
    ).ledger.tags.contains((epoch, #[trigger] tags[i])) by {
        assert(tags.contains(tags[i]));
    }
    assert(all == seq![
        SettlementReplyView::Decoded(Ok((epoch, presentations))),
        SettlementReplyView::Verified(Ok(tags)),
        SettlementReplyView::Preimage(preimage),
        SettlementReplyView::Logged(Ok(())),
    ]);
}

/// A token in sats of any mint on the list, which the log never saw or whose
/// last swap failed, is taken: the marker is asked for, with the moment of the
/// request, and what is to be swapped is that token. A token in another unit
/// is refused with 400, and nothing is asked for.
pub proof fn tokens_in_sats_of_listed_mints_are_taken(
    settlement: SettlementView,
    state: AppState,
    states: Map<Seq<char>, StateView>,
    encoded: Seq<char>,
    summary: TokenSummaryView,
    i: int,
)
    requires
        0 <= i < state.config.mints@.len(),
        state.config.mints@[i]@ == summary.mint,
        summary.mint.len() > 0 ==> summary.mint.last() != '/',
    ensures
        ({
            let (next, action) = settlement.token_presented(state, states, encoded, Ok(summary));
            let key_hex = encoding::hex_text(cashu::key_of(summary.secrets));
            let fresh = !states.contains_key(key_hex) || states[key_hex] is Failed;
            &&& summary.unit == "sat"@ && fresh ==> {
                &&& next.phase matches PhaseView::Paying(payment) && payment.key_hex == key_hex
                    && payment.summary == summary && payment.encoded == encoded && payment.now
                    == settlement.now
                &&& action == SettlementActionView::Record(
                    EventView {
                        token_key_hex: key_hex,
                        state: StateView::Pending { first_seen: settlement.now },
                    },
                )
                &&& next.settled == settlement.settled
                &&& next.request == settlement.request
            }
            &&& summary.unit != "sat"@ ==> next.phase is Done && (
            action matches SettlementActionView::Refuse(refusal) && refusal.error.status == 400
                && refusal.error.error == "wrong_amount"@)
        }),
{
    config::listed_mints_are_served(state.config, i, 0);
    assert(summary.mint + Seq::new(0, |k: int| '/') == summary.mint);
}

/// A token that cannot be read, or whose mint is not on the list, is refused
/// with 400, and nothing is asked for.
pub proof fn other_tokens_are_not_taken(
    settlement: SettlementView,
    state: AppState,
    states: Map<Seq<char>, StateView>,
    encoded: Seq<char>,
    parsed: Result<TokenSummaryView, TokenParseErrorView>,
)
    requires
        parsed matches Ok(summary) ==> !(exists|i: int|
            0 <= i < state.config.mints@.len() && text::differs_in_end_slashes(
                summary.mint,
                (#[trigger] state.config.mints@[i])@,
            )),
    ensures
        ({
            let (next, action) = settlement.token_presented(state, states, encoded, parsed);
            &&& next.phase is Done
            &&& action matches SettlementActionView::Refuse(refusal) && refusal.error.status == 400
            &&& parsed is Ok ==> action->Refuse_0.error.error == "mint_not_accepted"@
            &&& parsed is Err ==> action->Refuse_0.error.error == "invalid_request"@
        }),
{
    payment::other_tokens_are_turned_down(state.config, parsed);
}

/// The items of a request are taken in hand one after the other, each by its
/// kind: a token is the text of its payload, presentations go to be decoded,
/// and anything else is refused with 400.
pub proof fn items_are_taken_in_turn(
    settlement: SettlementView,
    state: AppState,
    states: Map<Seq<char>, StateView>,
)
    requires
        settlement.settled.len() < settlement.request.items.len(),
    ensures
        ({
            let (next, action) = settlement.next(state, states);
            let item = settlement.request.items[settlement.settled.len() as int];
            &&& item.0 == 1 && valid_utf8(item.1) ==> (next, action) == settlement.token_presented(
                state,
                states,
                text::trimmed(decode_utf8(item.1)),
                cashu::summarized(
                    cashu::cashu_token(text::trimmed(text::trimmed(decode_utf8(item.1)))),
                ),
            )
            &&& item.0 == 2 && state.arc is Some ==> next.phase is Decoding && action
                == SettlementActionView::Decode(item.1)
            &&& (item.0 == 1 && !valid_utf8(item.1)) || (item.0 == 2 && state.arc is None) || (item.0
                != 1 && item.0 != 2) ==> next.phase is Done && (
            action matches SettlementActionView::Refuse(refusal) && refusal.error.status == 400
                && refusal.error.error == if item.0 == 2 {
                "unsupported_kind"@
            } else {
                "invalid_request"@
            })
        }),
{
}

/// Once every item is settled the answer is laid out for signing, with the
/// nonce of the request; and what is signed is what is booked and answered.
pub proof fn what_is_signed_is_what_is_booked(
    settlement: SettlementView,
    state: AppState,
    states: Map<Seq<char>, StateView>,
    preimage: Seq<u8>,
)
    requires
        settlement.settled.len() >= settlement.request.items.len(),
    ensures
        ({
            let (next, action) = settlement.next(state, states);
            let event = next.redemption(state, preimage);
            let answer = event.response();
            &&& next.phase is Sealing
            &&& action == SettlementActionView::Preimage {
                nonce: settlement.request.nonce,
                gas_added: event.gas_added,
                sat_value: event.sat_value,
                items_accepted: event.items_accepted,
            }
            &&& answer.gas_added == event.gas_added
            &&& answer.sat_value == event.sat_value
            &&& answer.items_accepted == event.items_accepted
            &&& answer.issuer_signature_hex == encoding::hex_text(
                crypto::ed25519_signature(state.issuer.seed(), preimage),
            )
            &&& event.issuer_signature_hex == answer.issuer_signature_hex
            &&& event.server_id == settlement.request.server_id
            &&& event.nonce_hex == settlement.request.nonce_hex
            &&& event.unix_time == settlement.now
            &&& event.epoch == settlement.epoch
            &&& event.tags_hex == settlement.tags
        }),
{
}

/// Presentations of an epoch that has begun and whose grace period is not
/// over are verified under that epoch, all of them; those of any other epoch
/// are refused with 402. In one request all are of one epoch.
pub proof fn presentations_count_in_their_epoch(
    settlement: SettlementView,
    state: AppState,
    epoch: u32,
    presentations: Seq<Seq<u8>>,
)
    requires
        state.arc is Some,
    ensures
        ({
            let (next, action) = settlement.decoded(state, epoch, presentations);
            let arc = state.arc->0;
            let start = epoch * arc.epoch_length();
            let counts = start <= settlement.now && settlement.now - start < arc.epoch_length()
                + arc.grace();
            let alone = settlement.epoch is None || settlement.epoch == Some(epoch);
            &&& counts && alone ==> action == SettlementActionView::Verify(epoch, presentations)
                && next.phase == (PhaseView::Verifying { epoch, count: presentations.len() })
            &&& !counts ==> next.phase is Done && (action matches SettlementActionView::Refuse(
                refusal,
            ) && refusal.error.status == 402 && refusal.error.error == "expired_epoch"@)
            &&& counts && !alone ==> next.phase is Done && (
            action matches SettlementActionView::Refuse(refusal) && refusal.error.status == 400)
        }),
{
    let arc = state.arc->0;
    credit::epochs_count_through_their_grace(
        epoch,
        settlement.now,
        arc.epoch_length(),
        arc.grace(),
    );
}

/// Presentations are spent exactly if each of them is new: none was spent
/// under the epoch, none is in use in the request, and none is there twice.
/// Then they are settled as one item, and the next is taken in hand.
pub proof fn new_presentations_are_spent(
    settlement: SettlementView,
    state: AppState,
    states: Map<Seq<char>, StateView>,
    spent: Set<(u32, Seq<char>)>,
    epoch: u32,
    tags: Seq<Seq<char>>,
)
    ensures
        ({
            let (next, action) = settlement.presented(state, states, spent, epoch, tags);
            let new = tags.no_duplicates() && forall|i: int|
                0 <= i < tags.len() ==> !spent.contains((epoch, #[trigger] tags[i]))
                    && !settlement.tags.contains(tags[i]);
            let settled = SettlementView {
                epoch: Some(epoch),
                tags: settlement.tags + tags,
                settled: settlement.settled.push(
                    SettledView::Arc { presentations: tags.len() },
                ),
                ..settlement
            };
            &&& new ==> (next, action) == settled.next(state, states)
            &&& !new ==> next.phase is Done && (action matches SettlementActionView::Refuse(refusal)
                && refusal.error.status == 402 && refusal.error.error == "double_spend"@)
        }),
{
    let used = settlement.tags;
    let new = tags.no_duplicates() && forall|i: int|
        0 <= i < tags.len() ==> !spent.contains((epoch, #[trigger] tags[i])) && !used.contains(
            tags[i],
        );
    if new {
        assert forall|i: int| 0 <= i < tags.len() implies !spent.contains(
            (epoch, #[trigger] tags[i]),
        ) && !(used + tags.take(i)).contains(tags[i]) by {
            let shown = used + tags.take(i);
            if shown.contains(tags[i]) {
                let j = choose|j: int| 0 <= j < shown.len() && shown[j] == tags[i];
                if j < used.len() {
                    assert(used[j] == tags[i]);
                } else {
                    assert(tags[j - used.len()] == tags[i]);
                }
            }
        }
        assert(settlement::unspent(spent, epoch, used, tags));
    }
    if settlement::unspent(spent, epoch, used, tags) {
        assert forall|i: int| 0 <= i < tags.len() implies !spent.contains(
            (epoch, #[trigger] tags[i]),
        ) && !used.contains(tags[i]) by {
            let shown = used + tags.take(i);
            if used.contains(tags[i]) {
                let j = choose|j: int| 0 <= j < used.len() && used[j] == tags[i];
                assert(shown[j] == tags[i]);
            }
        }
        assert forall|i: int, j: int| 0 <= i < tags.len() && 0 <= j < tags.len() && i
            != j implies tags[i] != tags[j] by {
            let (a, b) = if i < j {
                (i, j)
            } else {
                (j, i)
            };
            let shown = used + tags.take(b);
            assert(shown[used.len() + a] == tags[a]);
            if tags[a] == tags[b] {
                assert(shown.contains(tags[b]));
            }
        }
    }
}

/// A presentation that is spelled wrong is answered 400, one that does not
/// verify 402; a payload that cannot be decoded 400. Nothing is spent.
pub proof fn bad_presentations_are_refused(
    settlement: SettlementView,
    state: AppState,
    states: Map<Seq<char>, StateView>,
    ledger: LedgerView,
    what: Seq<char>,
    why: Seq<char>,
)
    ensures
        settlement.phase is Verifying ==> {
            let malformed = settlement.after(
                state,
                states,
                ledger,
                SettlementReplyView::Verified(Err(ArcErrorView::Malformed(what, why))),
            );
            let invalid = settlement.after(
                state,
                states,
                ledger,
                SettlementReplyView::Verified(Err(ArcErrorView::Invalid(why))),
            );
            &&& malformed.1 == states && malformed.2 == ledger
            &&& invalid.1 == states && invalid.2 == ledger
            &&& malformed.3 matches SettlementActionView::Refuse(refusal) && refusal.error.status
                == 400 && refusal.error.error == "invalid_request"@
            &&& invalid.3 matches SettlementActionView::Refuse(refusal) && refusal.error.status
                == 402 && refusal.error.error == "token_rejected"@
        },
        settlement.phase is Decoding ==> {
            let undecoded = settlement.after(
                state,
                states,
                ledger,
                SettlementReplyView::Decoded(Err(why)),
            );
            &&& undecoded.1 == states && undecoded.2 == ledger
            &&& undecoded.3 matches SettlementActionView::Refuse(refusal) && refusal.error.status
                == 400 && refusal.error.error == "invalid_request"@
        },
{
}

/// A token that the mint credits is booked to the server that redeems it, for
/// what the mint credited, and is then an item of that worth; one for which
/// the mint credits nothing is refused with 402. What the mint refuses, or is
/// not there for, is recorded as failed and refused with 402 or 503.
pub proof fn tokens_are_booked_for_what_they_brought(
    settlement: SettlementView,
    payment: PaymentView,
    state: AppState,
    states: Map<Seq<char>, StateView>,
    ledger: LedgerView,
    received: u64,
    fault: SwapErrorView,
)
    requires
        settlement.phase == PhaseView::Paying(payment),
        payment.stage == (StageView::Swapping { unknown_before: false }),
    ensures
        ({
            let credited = settlement.after(
                state,
                states,
                ledger,
                SettlementReplyView::Swapped(Ok(received)),
            );
            let redeemed = StateView::Redeemed {
                server_id: settlement.request.server_id,
                received,
                mint: payment.summary.mint,
                unit: payment.summary.unit,
            };
            let booked = credited.0.after(
                state,
                states,
                ledger,
                SettlementReplyView::Recorded(Ok(())),
            );
            let settled = SettlementView {
                settled: settlement.settled.push(
                    SettledView::Cashu { key_hex: payment.key_hex, received },
                ),
                ..credited.0
            };
            &&& credited.1 == states && credited.2 == ledger
            &&& received == 0 ==> (credited.3 matches SettlementActionView::Refuse(refusal)
                && refusal.error.status == 402 && refusal.error.error == "token_rejected"@)
            &&& received > 0 ==> {
                &&& credited.3 == SettlementActionView::Record(
                    EventView { token_key_hex: payment.key_hex, state: redeemed },
                )
                &&& booked.1 == states.insert(payment.key_hex, redeemed)
                &&& booked.2 == ledger
                &&& (booked.0, booked.3) == settled.next(state, booked.1)
            }
        }),
        ({
            let failed = settlement.after(
                state,
                states,
                ledger,
                SettlementReplyView::Swapped(Err(fault)),
            );
            let told = failed.0.after(
                state,
                states,
                ledger,
                SettlementReplyView::Recorded(Ok(())),
            );
            let why = match fault {
                SwapErrorView::Rejected(why) => why,
                SwapErrorView::Unavailable(why) => why,
                SwapErrorView::Unknown(why) => why,
            };
            let record = StateView::Failed { at: payment.now, reason: why };
            &&& failed.1 == states && failed.2 == ledger
            &&& fault is Rejected || fault is Unavailable ==> {
                &&& failed.3 == SettlementActionView::Record(
                    EventView { token_key_hex: payment.key_hex, state: record },
                )
                &&& told.1 == states.insert(payment.key_hex, record)
                &&& told.2 == ledger
                &&& told.3 matches SettlementActionView::Refuse(refusal) && refusal.error.status
                    == if fault is Rejected {
                    402u16
                } else {
                    503u16
                } && refusal.error.message == why
            }
            &&& fault is Unknown ==> (failed.3 matches SettlementActionView::Refuse(refusal)
                && refusal.error.status == 503 && refusal.reconcile == Some(payment.key_hex))
        }),
{
}

/// What several items are worth is what each of them is worth, added up, in
/// gas and in sats, up to the largest 64-bit number; and they are counted.
pub proof fn items_add_up(a: Seq<SettledView>, b: Seq<SettledView>, params: GasParams)
    requires
        params.credit_sat > 0,
    ensures
        settlement::total_gas(a + b, params) == credit::capped_sum(
            settlement::total_gas(a, params),
            settlement::total_gas(b, params),
        ),
        settlement::total_sat(a + b, params) == credit::capped_sum(
            settlement::total_sat(a, params),
            settlement::total_sat(b, params),
        ),
        (a + b).len() <= u32::MAX ==> settlement::total_items(a + b) == a.len() + b.len(),
        0 <= settlement::total_gas(a, params) <= u64::MAX,
        0 <= settlement::total_sat(a, params) <= u64::MAX,
    decreases b.len(),
{
    worth_of_items(a, params);
    worth_of_items(b, params);
    if b.len() > 0 {
        let shorter = b.drop_last();
        assert((a + b).drop_last() == a + shorter);
        assert((a + b).last() == b.last());
        items_add_up(a, shorter, params);
        worth_of_items(shorter, params);
        worth_of_one(b.last(), params);
    } else {
        assert(a + b == a);
    }
}

/// One token is worth the sats that were credited and the gas that they buy;
/// presentations are worth a credit each.
pub proof fn items_have_their_worth(
    key_hex: Seq<char>,
    received: u64,
    presentations: nat,
    params: GasParams,
)
    requires
        params.credit_sat > 0,
    ensures
        ({
            let token = seq![SettledView::Cashu { key_hex, received }];
            let shown = seq![SettledView::Arc { presentations }];
            let gas = settlement::total_gas(token, params);
            &&& settlement::total_sat(token, params) == received
            &&& gas * params.credit_sat <= received * params.gas_per_credit
            &&& gas < u64::MAX ==> received * params.gas_per_credit < (gas + 1) * params.credit_sat
            &&& settlement::total_sat(shown, params) == credit::capped_sum(
                0,
                presentations * params.credit_sat,
            )
            &&& settlement::total_gas(shown, params) == credit::capped_sum(
                0,
                presentations * params.gas_per_credit,
            )
        }),
{
    worth_of_one(SettledView::Cashu { key_hex, received }, params);
    worth_of_one(SettledView::Arc { presentations }, params);
    credit::gas_is_paid_for(params, received);
}

/// Whether what is settled is the beginning of what was forwarded, item for
/// item and kind for kind.
pub open spec fn in_step(s: SettlementView) -> bool {
    &&& s.settled.len() <= s.request.items.len()
    &&& forall|i: int|
        0 <= i < s.settled.len() ==> s.request.items[i].0 == if (#[trigger] s.settled[i]) is Cashu {
            1u8
        } else {
            2u8
        }
}

/// Whether a settlement has an item in hand of the kind that its phase is for,
/// or has settled them all.
spec fn on_track(s: SettlementView) -> bool {
    &&& in_step(s)
    &&& s.phase is Paying || s.phase is Booking ==> s.settled.len() < s.request.items.len()
        && s.request.items[s.settled.len() as int].0 == 1
    &&& s.phase is Decoding || s.phase is Verifying ==> s.settled.len() < s.request.items.len()
        && s.request.items[s.settled.len() as int].0 == 2
    &&& s.phase is Sealing || s.phase is Logging ==> s.settled.len() == s.request.items.len()
}

proof fn next_is_on_track(
    s: SettlementView,
    state: AppState,
    states: Map<Seq<char>, StateView>,
)
    requires
        in_step(s),
    ensures
        on_track(s.next(state, states).0),
        s.next(state, states).0.request == s.request,
        s.next(state, states).0.now == s.now,
{
}

proof fn step_is_on_track(
    s: SettlementView,
    state: AppState,
    states: Map<Seq<char>, StateView>,
    ledger: LedgerView,
    reply: SettlementReplyView,
)
    requires
        on_track(s),
    ensures
        on_track(s.after(state, states, ledger, reply).0),
        s.after(state, states, ledger, reply).0.request == s.request,
        s.after(state, states, ledger, reply).0.now == s.now,
{
    match (s.phase, reply) {
        (
            PhaseView::Booking { key_hex, received, mint, unit },
            SettlementReplyView::Recorded(Ok(())),
        ) => {
            let after = states.insert(key_hex, s.booked(received, mint, unit));
            let longer = s.with(SettledView::Cashu { key_hex, received });
            assert(in_step(longer));
            next_is_on_track(longer, state, after);
        },
        (
            PhaseView::Verifying { epoch, count },
            SettlementReplyView::Verified(Ok(tags)),
        ) => {
            let longer = (SettlementView { epoch: Some(epoch), tags: s.tags + tags, ..s }).with(
                SettledView::Arc { presentations: tags.len() },
            );
            assert(in_step(longer));
            next_is_on_track(longer, state, states);
        },
        _ => {},
    }
}

proof fn run_is_on_track(
    state: AppState,
    states: Map<Seq<char>, StateView>,
    ledger: LedgerView,
    request: VerifiedView,
    now: u64,
    replies: Seq<SettlementReplyView>,
)
    ensures
        ({
            let s = run(state, states, ledger, request, now, replies).settlement;
            on_track(s) && s.request == request && s.now == now
        }),
    decreases replies.len(),
{
    if replies.len() == 0 {
        next_is_on_track(settlement::opening(request, now), state, states);
    } else {
        run_is_on_track(state, states, ledger, request, now, replies.drop_last());
        let before = run(state, states, ledger, request, now, replies.drop_last());
        step_is_on_track(
            before.settlement,
            state,
            before.states,
            before.ledger,
            replies.last(),
        );
    }
}

/// An answer covers every item that was forwarded: what is booked counts them
/// all, in their order and of their kinds, at the moment of the request.
pub proof fn answers_cover_every_item(
    state: AppState,
    states: Map<Seq<char>, StateView>,
    ledger: LedgerView,
    request: VerifiedView,
    now: u64,
    replies: Seq<SettlementReplyView>,
)
    requires
        run(state, states, ledger, request, now, replies).settlement.phase is Logging,
    ensures
        ({
            let s = run(state, states, ledger, request, now, replies).settlement;
            let event = s.phase->Logging_0;
            &&& s.settled.len() == request.items.len()
            &&& forall|i: int|
                0 <= i < request.items.len() ==> (#[trigger] request.items[i]).0 == 1
                    && s.settled[i] is Cashu || request.items[i].0 == 2 && s.settled[i] is Arc
            &&& request.items.len() <= u32::MAX ==> event.items_accepted == request.items.len()
            &&& event.unix_time == now
            &&& event.server_id == request.server_id
            &&& event.nonce_hex == request.nonce_hex
        }),
{
    run_is_on_track(state, states, ledger, request, now, replies);
    run_is_sound(state, states, ledger, request, now, replies);
    let s = run(state, states, ledger, request, now, replies).settlement;
    let event = s.phase->Logging_0;
    let preimage = choose|preimage: Seq<u8>| event == #[trigger] s.redemption(state, preimage);
    assert forall|i: int| 0 <= i < request.items.len() implies (#[trigger] request.items[i]).0 == 1
        && s.settled[i] is Cashu || request.items[i].0 == 2 && s.settled[i] is Arc by {
        assert(s.request.items[i].0 == if s.settled[i] is Cashu {
            1u8
        } else {
            2u8
        });
    }
}

/// While a settlement goes on, every sat that a mint credited is in it: in an
/// item that is settled, or in the token that is being booked.
proof fn nothing_credited_is_lost(
    state: AppState,
    states: Map<Seq<char>, StateView>,
    ledger: LedgerView,
    request: VerifiedView,
    now: u64,
    replies: Seq<SettlementReplyView>,
)
    ensures
        ({
            let s = run(state, states, ledger, request, now, replies).settlement;
            !(s.phase is Done) ==> token_sats(s.settled) + in_transit(s.phase) == credited(replies)
        }),
    decreases replies.len(),
{
    if replies.len() > 0 {
        let earlier = replies.drop_last();
        nothing_credited_is_lost(state, states, ledger, request, now, earlier);
        let before = run(state, states, ledger, request, now, earlier);
        let s = before.settlement;
        match (s.phase, replies.last()) {
            (
                PhaseView::Booking { key_hex, received, .. },
                SettlementReplyView::Recorded(Ok(())),
            ) => {
                let longer = s.settled.push(SettledView::Cashu { key_hex, received });
                assert(longer.drop_last() == s.settled);
            },
            (PhaseView::Verifying { .. }, SettlementReplyView::Verified(Ok(tags))) => {
                let longer = s.settled.push(SettledView::Arc { presentations: tags.len() });
                assert(longer.drop_last() == s.settled);
            },
            _ => {},
        }
    }
}

/// The sats of items are those of their tokens and a credit's price for each
/// presentation, up to the largest 64-bit number.
proof fn sats_of_items(settled: Seq<SettledView>, params: GasParams)
    requires
        params.credit_sat > 0,
    ensures
        settlement::total_sat(settled, params) == credit::capped_sum(
            token_sats(settled),
            presentation_count(settled) * params.credit_sat,
        ),
        token_sats(settled) >= 0,
        presentation_count(settled) * params.credit_sat >= 0,
    decreases settled.len(),
{
    let c = params.credit_sat as int;
    let n = presentation_count(settled) as int;
    assert(n * c >= 0 && (n == 0 ==> n * c == 0)) by (nonlinear_arith)
        requires
            n >= 0,
            c > 0,
    ;
    if settled.len() > 0 {
        let shorter = settled.drop_last();
        sats_of_items(shorter, params);
        let m = presentation_count(shorter) as int;
        if let SettledView::Arc { presentations } = settled.last() {
            let p = presentations as int;
            assert((m + p) * c == m * c + p * c) by (nonlinear_arith);
            assert(p * c >= 0) by (nonlinear_arith)
                requires
                    p >= 0,
                    c > 0,
            ;
        }
    }
}

/// The value that is booked to a server is all that its tokens brought and a
/// credit's price for each of its presentations, no more and no less, up to
/// the largest 64-bit number.
pub proof fn all_that_was_credited_is_booked(
    state: AppState,
    states: Map<Seq<char>, StateView>,
    ledger: LedgerView,
    request: VerifiedView,
    now: u64,
    replies: Seq<SettlementReplyView>,
)
    requires
        state.wf(),
        run(state, states, ledger, request, now, replies).settlement.phase is Logging,
    ensures
        ({
            let s = run(state, states, ledger, request, now, replies).settlement;
            let event = s.phase->Logging_0;
            event.sat_value == credit::capped_sum(
                credited(replies),
                event.tags_hex.len() * state.config.gas.credit_sat,
            )
        }),
{
    run_is_sound(state, states, ledger, request, now, replies);
    nothing_credited_is_lost(state, states, ledger, request, now, replies);
    let s = run(state, states, ledger, request, now, replies).settlement;
    let event = s.phase->Logging_0;
    let preimage = choose|preimage: Seq<u8>| event == #[trigger] s.redemption(state, preimage);
    sats_of_items(s.settled, state.config.gas.spec_params());
}

/// A request that the ledger has no answer for is settled: it is not answered
/// before its items were. One that cannot be logged is refused with 500, and
/// nothing is booked.
pub proof fn new_requests_are_settled(
    state: AppState,
    states: Map<Seq<char>, StateView>,
    ledger: LedgerView,
    request: VerifiedView,
    now: u64,
    event: RedeemEventView,
    why: Seq<char>,
)
    requires
        request.items.len() > 0,
        !ledger.answers.contains_key((request.server_id, request.nonce_hex)),
    ensures
        ({
            let (settlement, action) = settlement::begun(state, states, ledger, request, now);
            &&& !(action is Answer)
            &&& !(action is Preimage)
            &&& settlement.settled.len() == 0
            &&& settlement.request == request
            &&& settlement.now == now
        }),
        ({
            let s = settlement::opening(request, now).at(PhaseView::Logging(event));
            let unlogged = s.after(
                state,
                states,
                ledger,
                SettlementReplyView::Logged(Err(why)),
            );
            let logged = s.after(state, states, ledger, SettlementReplyView::Logged(Ok(())));
            &&& unlogged.1 == states && unlogged.2 == ledger
            &&& unlogged.3 matches SettlementActionView::Refuse(refusal) && refusal.error.status
                == 500 && refusal.error.error == "internal"@
            &&& logged.1 == states
            &&& logged.2 == ledger.plus(event)
            &&& logged.3 == SettlementActionView::Answer(event.response())
        }),
{
}

/// A token that was taken before is told what became of it.
pub proof fn earlier_uses_are_told(key_hex: Seq<char>, state: StateView)
    ensures
        ({
            let refusal = settlement::taken_before(key_hex, state);
            &&& state is Issued ==> refusal.error.message
                == "this token already bought a session grant"@
            &&& state is Credential ==> refusal.error.message
                == "this token already bought an ARC credential"@
            &&& state matches StateView::Redeemed { server_id, .. } ==> refusal.error.message
                == "this token was already redeemed through "@ + server_id
            &&& state is Issued || state is Credential || state is Redeemed
                ==> refusal.error.status == 402 && refusal.error.error == "already_redeemed"@
                && refusal.reconcile is None
            &&& state is Pending ==> refusal.error.status == 402 && refusal.reconcile == Some(
                key_hex,
            )
        }),
{
}

} // verus!
