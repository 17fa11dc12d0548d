//! BitcoinPIR cashier: the credit issuer. It sells ARC credentials for Cashu
//! ecash (`POST /v2/credentials`), verifies every presentation a PIR server
//! forwards (`POST /v2/redeem`, answers signed with the [`issuer_key`]), and
//! settles with each server in gas. Session grants (`POST /v1/grants`) are
//! sold on the same footing.
//!
//! This library holds the decisions. What it needs of the outside (a log
//! appended to, a token swapped at its mint, a credential issued) it asks for
//! as an action, and is told the outcome.

use vstd::prelude::*;

pub mod api;
pub mod arc;
pub mod cashu;
pub mod config;
pub mod credit;
pub mod crypto;
pub mod encoding;
pub mod grant;
pub mod issuer_key;
pub mod ledger;
pub mod log;
pub mod payment;
pub mod purchase;
pub mod purchase_laws;
pub mod redeem;
pub mod settlement;
pub mod settlement_laws;
pub mod store;
pub mod text;
pub mod trade_laws;

verus! {

/// `std::time::SystemTime`, carried without a look inside.
#[verifier::external_type_specification]
#[verifier::external_body]
pub struct ExSystemTime(std::time::SystemTime);

/// `std::time::SystemTimeError`, carried without a look inside.
#[verifier::external_type_specification]
#[verifier::external_body]
pub struct ExSystemTimeError(std::time::SystemTimeError);

/// `std::time::SystemTime::now`. Nothing is claimed of what the clock shows.
#[verifier::external_body]
fn system_time() -> std::time::SystemTime {
    std::time::SystemTime::now()
}

/// `std::time::SystemTime::duration_since` the Unix epoch. It fails for a time
/// before the epoch; both types are opaque, so nothing is claimed of when.
#[verifier::external_body]
fn since_epoch(time: std::time::SystemTime) -> Result<
    std::time::Duration,
    std::time::SystemTimeError,
> {
    time.duration_since(std::time::UNIX_EPOCH)
}

/// `std::time::Duration::as_secs`. The type is opaque, so nothing is claimed
/// of the number.
#[verifier::external_body]
fn whole_seconds(duration: &std::time::Duration) -> u64 {
    duration.as_secs()
}

/// The seconds that a clock shows since the epoch; a clock before the epoch
/// counts as at its start.
pub fn seconds_or_zero(shown: Option<u64>) -> (r: u64)
    ensures
        r == (match shown {
            Some(seconds) => seconds,
            None => 0,
        }),
{
    match shown {
        Some(seconds) => seconds,
        None => 0,
    }
}

/// Unix seconds now; the only place the cashier reads the clock.
pub fn unix_now() -> u64 {
    match since_epoch(system_time()) {
        Ok(duration) => seconds_or_zero(Some(whole_seconds(&duration))),
        Err(_) => seconds_or_zero(None),
    }
}

} // verus!
