//! The credits contract: gas arithmetic, credential epochs, and the messages
//! that clients and servers exchange with the cashier.

use vstd::prelude::*;

verus! {

/// Version of the issuer API that `GET /v2/info` publishes.
pub const ISSUER_API_VERSION: u32 = 2;

/// Kind of a presented item that is a Cashu token.
pub const CREDIT_PRESENT_KIND_CASHU: u8 = 1;

/// Kind of a presented item that holds ARC presentations.
pub const CREDIT_PRESENT_KIND_ARC: u8 = 2;

/// What credits, gas and sats are worth.
#[derive(Clone, Copy, Debug, PartialEq, Eq)]
pub struct GasParams {
    pub credit_sat: u64,
    pub gas_per_credit: u64,
    pub base_gas_per_frame: u64,
    pub egress_gas_per_mb: u64,
}

/// `a + b`, or the largest 64-bit number where the sum exceeds it.
pub open spec fn capped_sum(a: int, b: int) -> int {
    if a + b <= u64::MAX {
        a + b
    } else {
        u64::MAX as int
    }
}

impl GasParams {
    /// The parameters in force since September 2026.
    pub fn production_2026_09() -> (r: Self)
        ensures
            r == (GasParams {
                credit_sat: 10,
                gas_per_credit: 72_000,
                base_gas_per_frame: 20,
                egress_gas_per_mb: 1_000,
            }),
    {
        GasParams {
            credit_sat: 10,
            gas_per_credit: 72_000,
            base_gas_per_frame: 20,
            egress_gas_per_mb: 1_000,
        }
    }

    /// The gas that `sats` buy: `sats * gas_per_credit / credit_sat`, rounded
    /// down and at most the largest 64-bit number.
    pub open spec fn gas_for(self, sats: u64) -> int {
        let gas = sats * self.gas_per_credit / (self.credit_sat as int);
        if gas <= u64::MAX {
            gas
        } else {
            u64::MAX as int
        }
    }

    /// The gas that `sats` buy.
    pub fn sats_to_gas(&self, sats: u64) -> (r: u64)
        requires
            self.credit_sat > 0,
        ensures
            r == self.gas_for(sats),
    {
        let (a, b): (u128, u128) = (sats as u128, self.gas_per_credit as u128);
        assert(a * b <= 0xffff_ffff_ffff_ffff * 0xffff_ffff_ffff_ffff) by (nonlinear_arith)
            requires
                a <= 0xffff_ffff_ffff_ffff,
                b <= 0xffff_ffff_ffff_ffff,
        ;
        let gas: u128 = a * b / (self.credit_sat as u128);
        if gas <= u64::MAX as u128 {
            gas as u64
        } else {
            u64::MAX
        }
    }
}

/// More sats never buy less gas.
pub proof fn gas_is_monotone(params: GasParams, a: u64, b: u64)
    requires
        params.credit_sat > 0,
        a <= b,
    ensures
        params.gas_for(a) <= params.gas_for(b),
{
    let (g, c) = (params.gas_per_credit as int, params.credit_sat as int);
    assert(a * g <= b * g) by (nonlinear_arith)
        requires
            a <= b,
            g >= 0,
    ;
    vstd::arithmetic::div_mod::lemma_div_is_ordered(a * g, b * g, c);
}

/// A credit's price buys exactly a credit's gas.
pub proof fn credit_price_buys_credit(params: GasParams)
    requires
        params.credit_sat > 0,
    ensures
        params.gas_for(params.credit_sat) == params.gas_per_credit,
{
    let (g, c) = (params.gas_per_credit as int, params.credit_sat as int);
    vstd::arithmetic::div_mod::lemma_div_multiples_vanish(g, c);
    assert(c * g == g * c) by (nonlinear_arith);
}

/// The credential epoch that holds the second `now`, up to the last that a
/// 32-bit number can name.
pub open spec fn epoch_of(now: u64, epoch_secs: u64) -> u32 {
    if now / epoch_secs <= u32::MAX {
        (now / epoch_secs) as u32
    } else {
        u32::MAX
    }
}

/// The credential epoch that holds the second `now`.
pub fn epoch_at(now: u64, epoch_secs: u64) -> (r: u32)
    requires
        epoch_secs > 0,
    ensures
        r == epoch_of(now, epoch_secs),
{
    let n: u64 = now / epoch_secs;
    if n <= u32::MAX as u64 {
        n as u32
    } else {
        u32::MAX
    }
}

/// The second at which an epoch and its grace period are over.
pub open spec fn epoch_end(epoch: u32, epoch_secs: u64, grace_secs: u64) -> int {
    (epoch + 1) * epoch_secs + grace_secs
}

/// The second at which an epoch and its grace period are over, or the largest
/// 64-bit number where that lies beyond it.
pub open spec fn capped_end(epoch: u32, epoch_secs: u64, grace_secs: u64) -> int {
    if epoch_end(epoch, epoch_secs, grace_secs) <= u64::MAX {
        epoch_end(epoch, epoch_secs, grace_secs)
    } else {
        u64::MAX as int
    }
}

/// The second at which an epoch and its grace period are over, or the largest
/// 64-bit number where that lies beyond it.
pub fn epoch_valid_until(epoch: u32, epoch_secs: u64, grace_secs: u64) -> (r: u64)
    ensures
        r == capped_end(epoch, epoch_secs, grace_secs),
{
    let (n, s): (u128, u128) = (epoch as u128 + 1, epoch_secs as u128);
    assert(n * s <= 0x1_0000_0000 * 0xffff_ffff_ffff_ffff) by (nonlinear_arith)
        requires
            n <= 0x1_0000_0000,
            s <= 0xffff_ffff_ffff_ffff,
    ;
    let end: u128 = n * s + grace_secs as u128;
    if end <= u64::MAX as u128 {
        end as u64
    } else {
        u64::MAX
    }
}

/// Whether credentials of `epoch` count at `now`: in the epoch itself and in
/// the grace period that follows it.
pub open spec fn epoch_counts(epoch: u32, now: u64, epoch_secs: u64, grace_secs: u64) -> bool {
    epoch * epoch_secs <= now < epoch_end(epoch, epoch_secs, grace_secs)
}

/// Whether credentials of `epoch` count at `now`.
pub fn epoch_accepted(epoch: u32, now: u64, epoch_secs: u64, grace_secs: u64) -> (r: bool)
    ensures
        r == epoch_counts(epoch, now, epoch_secs, grace_secs),
{
    let (n, s): (u128, u128) = (epoch as u128, epoch_secs as u128);
    assert(n * s <= 0xffff_ffff * 0xffff_ffff_ffff_ffff) by (nonlinear_arith)
        requires
            n <= 0xffff_ffff,
            s <= 0xffff_ffff_ffff_ffff,
    ;
    assert((epoch + 1) * epoch_secs == n * s + s) by (nonlinear_arith)
        requires
            n == epoch,
            s == epoch_secs,
    ;
    let start: u128 = n * s;
    let end: u128 = start + s + grace_secs as u128;
    start <= now as u128 && (now as u128) < end
}

/// The epoch that holds `now` counts at `now`.
pub proof fn current_epoch_counts(now: u64, epoch_secs: u64, grace_secs: u64)
    requires
        epoch_secs > 0,
        now / epoch_secs <= u32::MAX,
    ensures
        epoch_counts(epoch_of(now, epoch_secs), now, epoch_secs, grace_secs),
{
    let (n, s) = (now as int, epoch_secs as int);
    vstd::arithmetic::div_mod::lemma_fundamental_div_mod(n, s);
    vstd::arithmetic::div_mod::lemma_mod_bound(n, s);
    assert((n / s + 1) * s == s * (n / s) + s) by (nonlinear_arith);
    assert((n / s) * s == s * (n / s)) by (nonlinear_arith);
}

/// With a grace period no longer than an epoch, only the epoch that holds
/// `now` and the one before it can count.
pub proof fn only_two_epochs_count(epoch: u32, now: u64, epoch_secs: u64, grace_secs: u64)
    requires
        epoch_secs > 0,
        grace_secs <= epoch_secs,
        epoch_counts(epoch, now, epoch_secs, grace_secs),
    ensures
        now / epoch_secs == epoch || now / epoch_secs == epoch + 1,
{
    let (n, s, e) = (now as int, epoch_secs as int, epoch as int);
    vstd::arithmetic::div_mod::lemma_fundamental_div_mod(n, s);
    vstd::arithmetic::div_mod::lemma_mod_bound(n, s);
    let q = n / s;
    assert(q >= e) by (nonlinear_arith)
        requires
            e * s <= n,
            n == s * q + n % s,
            n % s < s,
            s > 0,
    ;
    assert(q < e + 2) by (nonlinear_arith)
        requires
            n < (e + 1) * s + s,
            n == s * q + n % s,
            0 <= n % s,
            s > 0,
    ;
}

/// One presented item of a redeem request.
#[derive(Clone, Debug, PartialEq, Eq)]
pub struct RedeemItemV1 {
    pub kind: u8,
    pub payload_hex: String,
}

/// What a PIR server posts to redeem what a client presented.
#[derive(Clone, Debug, PartialEq, Eq)]
pub struct RedeemRequestV1 {
    pub server_id: String,
    pub identity_cert_hex: String,
    pub nonce_hex: String,
    pub unix_time: u64,
    pub items: Vec<RedeemItemV1>,
    pub signature_hex: String,
}

/// What a PIR server is answered.
#[derive(Debug, PartialEq, Eq)]
pub struct RedeemResponseV1 {
    pub gas_added: u64,
    pub sat_value: u64,
    pub items_accepted: u32,
    pub issuer_signature_hex: String,
}

/// The model of a [`RedeemResponseV1`].
pub struct RedeemResponseView {
    pub gas_added: u64,
    pub sat_value: u64,
    pub items_accepted: u32,
    pub issuer_signature_hex: Seq<char>,
}

impl View for RedeemResponseV1 {
    type V = RedeemResponseView;

    open spec fn view(&self) -> RedeemResponseView {
        RedeemResponseView {
            gas_added: self.gas_added,
            sat_value: self.sat_value,
            items_accepted: self.items_accepted,
            issuer_signature_hex: self.issuer_signature_hex@,
        }
    }
}

/// The identity certificate of a PIR server, as its operator signed it.
#[derive(Clone, Debug, PartialEq, Eq)]
pub struct IdentityCert {
    pub operator_pubkey: [u8; 32],
    pub server_id: String,
    pub identity_pubkey: [u8; 32],
    pub valid_from: i64,
    /// Zero means that the certificate does not end.
    pub valid_until: i64,
}

/// The `arc` section of `GET /v2/info`.
#[derive(Debug, PartialEq, Eq)]
pub struct ArcInfoV2 {
    pub epoch: u32,
    pub presentation_limit: u32,
    pub issuer_public_key_hex: String,
    pub presentation_context_hex: String,
    pub valid_until: u64,
}

/// The model of an [`ArcInfoV2`].
pub struct ArcInfoView {
    pub epoch: u32,
    pub presentation_limit: u32,
    pub issuer_public_key_hex: Seq<char>,
    pub presentation_context_hex: Seq<char>,
    pub valid_until: u64,
}

impl View for ArcInfoV2 {
    type V = ArcInfoView;

    open spec fn view(&self) -> ArcInfoView {
        ArcInfoView {
            epoch: self.epoch,
            presentation_limit: self.presentation_limit,
            issuer_public_key_hex: self.issuer_public_key_hex@,
            presentation_context_hex: self.presentation_context_hex@,
            valid_until: self.valid_until,
        }
    }
}

/// One pack on sale, in `GET /v2/info`.
#[derive(Clone, Copy, Debug, PartialEq, Eq)]
pub struct OfferV2 {
    pub credits: u64,
    pub sat: u64,
}

/// One line of the rate card in `GET /v2/info`.
#[derive(Debug, PartialEq, Eq)]
pub struct RateCardEntryV2 {
    pub flow: String,
    pub credits: u64,
}

/// What `POST /v2/credentials` takes: a pack, a token that pays for it, and a
/// blinded credential request.
#[derive(Clone, Debug, PartialEq, Eq)]
pub struct CredentialRequestV2 {
    pub credits: u64,
    pub sat: u64,
    pub token: String,
    pub request_hex: String,
}

/// What `POST /v2/credentials` answers.
#[derive(Debug, PartialEq, Eq)]
pub struct CredentialResponseV2 {
    pub epoch: u32,
    pub presentation_limit: u32,
    pub issuer_public_key_hex: String,
    pub response_hex: String,
}

/// The model of a [`CredentialResponseV2`].
pub struct CredentialResponseView {
    pub epoch: u32,
    pub presentation_limit: u32,
    pub issuer_public_key_hex: Seq<char>,
    pub response_hex: Seq<char>,
}

impl View for CredentialResponseV2 {
    type V = CredentialResponseView;

    open spec fn view(&self) -> CredentialResponseView {
        CredentialResponseView {
            epoch: self.epoch,
            presentation_limit: self.presentation_limit,
            issuer_public_key_hex: self.issuer_public_key_hex@,
            response_hex: self.response_hex@,
        }
    }
}

impl Clone for RedeemResponseV1 {
    fn clone(&self) -> (r: Self)
        ensures
            r@ == self@,
    {
        RedeemResponseV1 {
            gas_added: self.gas_added,
            sat_value: self.sat_value,
            items_accepted: self.items_accepted,
            issuer_signature_hex: self.issuer_signature_hex.clone(),
        }
    }
}

impl Clone for CredentialResponseV2 {
    fn clone(&self) -> (r: Self)
        ensures
            r@ == self@,
    {
        CredentialResponseV2 {
            epoch: self.epoch,
            presentation_limit: self.presentation_limit,
            issuer_public_key_hex: self.issuer_public_key_hex.clone(),
            response_hex: self.response_hex.clone(),
        }
    }
}

/// The gas that sats buy is the largest whole number of gas units that they
/// pay for at the credit's price, up to the largest 64-bit number.
pub proof fn gas_is_paid_for(params: GasParams, sats: u64)
    requires
        params.credit_sat > 0,
    ensures
        0 <= params.gas_for(sats) <= u64::MAX,
        params.gas_for(sats) * params.credit_sat <= sats * params.gas_per_credit,
        params.gas_for(sats) < u64::MAX ==> sats * params.gas_per_credit < (params.gas_for(sats)
            + 1) * params.credit_sat,
{
    let (r, g, c) = (sats as int, params.gas_per_credit as int, params.credit_sat as int);
    assert(r * g >= 0) by (nonlinear_arith)
        requires
            r >= 0,
            g >= 0,
    ;
    let q = r * g / c;
    vstd::arithmetic::div_mod::lemma_fundamental_div_mod(r * g, c);
    vstd::arithmetic::div_mod::lemma_mod_bound(r * g, c);
    vstd::arithmetic::div_mod::lemma_div_pos_is_pos(r * g, c);
    assert(q * c == c * q) by (nonlinear_arith);
    assert((q + 1) * c == c * q + c) by (nonlinear_arith);
    assert(params.gas_for(sats) * c <= q * c) by (nonlinear_arith)
        requires
            params.gas_for(sats) <= q,
            c > 0,
    ;
}

/// A sum that fits is the sum, and one that does not is the largest 64-bit
/// number; in whatever order numbers are added, the result is the same.
pub proof fn sums_stop_at_the_largest_number(a: int, b: int, c: int)
    requires
        0 <= a,
        0 <= b,
        0 <= c,
    ensures
        a + b <= 0xffff_ffff_ffff_ffff ==> capped_sum(a, b) == a + b,
        a + b > 0xffff_ffff_ffff_ffff ==> capped_sum(a, b) == 0xffff_ffff_ffff_ffff,
        capped_sum(a, b) == capped_sum(b, a),
        capped_sum(capped_sum(a, b), c) == capped_sum(a, capped_sum(b, c)),
{
}

/// The epoch of a second is the one that holds it: it has begun, and has not
/// ended.
pub proof fn epochs_hold_their_seconds(now: u64, epoch_secs: u64)
    requires
        epoch_secs > 0,
    ensures
        epoch_of(now, epoch_secs) * epoch_secs <= now,
        epoch_of(now, epoch_secs) < u32::MAX ==> now < (epoch_of(now, epoch_secs) + 1) * epoch_secs,
{
    let (n, s) = (now as int, epoch_secs as int);
    let q = n / s;
    let e = epoch_of(now, epoch_secs) as int;
    vstd::arithmetic::div_mod::lemma_fundamental_div_mod(n, s);
    vstd::arithmetic::div_mod::lemma_mod_bound(n, s);
    assert((q + 1) * s == s * q + s) by (nonlinear_arith);
    assert(q * s == s * q) by (nonlinear_arith);
    assert(e * s <= q * s) by (nonlinear_arith)
        requires
            e <= q,
            s > 0,
    ;
}

/// Credentials of an epoch count from its first second until its grace period
/// is over, and at no other time; and it is over at the second that is
/// published, where a 64-bit number can name it.
pub proof fn epochs_count_through_their_grace(
    epoch: u32,
    now: u64,
    epoch_secs: u64,
    grace_secs: u64,
)
    ensures
        now < epoch * epoch_secs ==> !epoch_counts(epoch, now, epoch_secs, grace_secs),
        epoch * epoch_secs <= now && now - epoch * epoch_secs < epoch_secs + grace_secs
            ==> epoch_counts(epoch, now, epoch_secs, grace_secs),
        now - epoch * epoch_secs >= epoch_secs + grace_secs ==> !epoch_counts(
            epoch,
            now,
            epoch_secs,
            grace_secs,
        ),
        capped_end(epoch, epoch_secs, grace_secs) < u64::MAX && epoch * epoch_secs <= now ==> (
        epoch_counts(epoch, now, epoch_secs, grace_secs) <==> now < capped_end(
            epoch,
            epoch_secs,
            grace_secs,
        )),
        epoch * epoch_secs + epoch_secs + grace_secs <= u64::MAX ==> capped_end(
            epoch,
            epoch_secs,
            grace_secs,
        ) == epoch * epoch_secs + epoch_secs + grace_secs,
        epoch * epoch_secs + epoch_secs + grace_secs > u64::MAX ==> capped_end(
            epoch,
            epoch_secs,
            grace_secs,
        ) == u64::MAX,
{
    let (e, s) = (epoch as int, epoch_secs as int);
    assert((e + 1) * s == e * s + s) by (nonlinear_arith);
}

} // verus!
