//! Text, encodings, gas arithmetic, epochs and the clock.

use bpir_cashier::credit::{
    epoch_accepted, epoch_at, epoch_valid_until, GasParams,
};
use bpir_cashier::encoding::{array16, array32, array64, copy_bytes, same_key};
use bpir_cashier::log::{read_log, LogLine};
use bpir_cashier::payment::{Payment, PaymentAction, PaymentReply};
use bpir_cashier::store::{State, Store};
use bpir_cashier::text::{
    chars_of, copy_texts, decimal, ends_with_slash, joined, joined3, precedes, same, starts_with,
    trim, trim_end_slashes, white_space,
};
use bpir_cashier::{cashu::TokenSummary, seconds_or_zero, unix_now};

#[test]
fn trimming_agrees_with_std() {
    for s in [
        "",
        " ",
        "a",
        "\t a b \r\n",
        "\u{a0}x\u{2003}",
        "\u{3000}\u{85}y z\u{1680}",
        "\u{200b}kept\u{feff}",
        "\u{2028}\u{2029}\u{202f}\u{205f}w",
    ] {
        assert_eq!(trim(s), s.trim());
    }
    for code in 0..0x3100u32 {
        if let Some(c) = char::from_u32(code) {
            assert_eq!(white_space(c), c.is_whitespace());
        }
    }
    for s in ["", "/", "a//", "https://mint.example/", "/a/b"] {
        assert_eq!(trim_end_slashes(s), s.trim_end_matches('/'));
        assert_eq!(ends_with_slash(s), s.ends_with('/'));
    }
}

#[test]
fn prefixes_and_order_agree_with_std() {
    let all = ["", "a", "ab", "b", "\u{e9}", "\u{1f600}", "\u{ffff}", "ab\u{0}"];
    for a in all {
        for b in all {
            assert_eq!(starts_with(a, b), a.starts_with(b));
            assert_eq!(precedes(a, b), a < b);
            assert_eq!(same(a, b), a == b);
            assert_eq!(joined(a, b), format!("{}{}", a, b));
            assert_eq!(joined3(a, "-", b), format!("{}-{}", a, b));
        }
        assert_eq!(chars_of(a), a.chars().collect::<Vec<char>>());
    }
    let list: Vec<String> = all.iter().map(|s| s.to_string()).collect();
    assert_eq!(copy_texts(&list), list);
}

#[test]
fn decimals_agree_with_std() {
    for n in [0, 7, 10, 99, 100, 1_234_567_890, u128::from(u64::MAX)] {
        assert_eq!(decimal(n), n.to_string());
    }
}

#[test]
fn arrays_hold_the_bytes_of_lists() {
    let bytes: Vec<u8> = (0..64).collect();
    assert_eq!(array16(&bytes[..16]), bytes[..16]);
    assert_eq!(array32(&bytes[..32]), bytes[..32]);
    assert_eq!(array64(&bytes), bytes[..]);
    assert_eq!(copy_bytes(&bytes), bytes);
    let mut other = array32(&bytes[..32]);
    assert!(same_key(&other, &array32(&bytes[..32])));
    other[31] ^= 1;
    assert!(!same_key(&other, &array32(&bytes[..32])));
}

#[test]
fn sats_buy_gas_at_the_credit_price() {
    let gas = GasParams::production_2026_09();
    assert_eq!(gas.sats_to_gas(200), 1_440_000);
    assert_eq!(gas.sats_to_gas(0), 0);
    assert_eq!(gas.sats_to_gas(gas.credit_sat), gas.gas_per_credit);
    let odd = GasParams {
        credit_sat: 7,
        gas_per_credit: 10,
        ..gas
    };
    assert_eq!(odd.sats_to_gas(5), 7);
    assert!(odd.sats_to_gas(5) <= odd.sats_to_gas(6));
    let steep = GasParams {
        credit_sat: 1,
        gas_per_credit: u64::MAX,
        ..gas
    };
    assert_eq!(steep.sats_to_gas(2), u64::MAX);
    assert_eq!(
        GasParams {
            credit_sat: u64::MAX,
            ..steep
        }
        .sats_to_gas(u64::MAX),
        u64::MAX
    );
}

const ARC_EPOCH_SECS: u64 = 90 * 86_400;
const ARC_GRACE_SECS: u64 = 30 * 86_400;

#[test]
fn epochs_of_ninety_days_with_thirty_of_grace() {
    assert_eq!(epoch_at(1_800_000_000, ARC_EPOCH_SECS), 231);
    assert_eq!(epoch_at(u64::MAX, 1), u32::MAX);
    assert_eq!(
        epoch_valid_until(231, ARC_EPOCH_SECS, ARC_GRACE_SECS),
        232 * 7_776_000 + 2_592_000
    );
    assert_eq!(epoch_valid_until(u32::MAX, u64::MAX, 1), u64::MAX);
    let counts = |epoch: u32, now: u64| epoch_accepted(epoch, now, ARC_EPOCH_SECS, ARC_GRACE_SECS);
    assert!(counts(231, 1_800_000_000));
    assert!(!counts(232, 1_800_000_000));
    assert!(!counts(236, 1_800_000_000));
    assert!(counts(230, 231 * 7_776_000 + 2_591_999));
    assert!(!counts(230, 231 * 7_776_000 + 2_592_000));
}

#[test]
fn logs_are_read_in_order() {
    let read = read_log(vec![
        LogLine::Text("one".into(), Ok(State::Pending { first_seen: 1 })),
        LogLine::Text("  ".into(), Err("blank".into())),
        LogLine::Text("two".into(), Ok(State::Pending { first_seen: 2 })),
    ]);
    assert_eq!(
        read,
        Ok(vec![
            State::Pending { first_seen: 1 },
            State::Pending { first_seen: 2 }
        ])
    );
    let read = read_log::<State>(vec![LogLine::Text("x".into(), Err("bad".into()))]);
    assert_eq!(read, Err((1, "bad".to_string())));
}

#[test]
fn a_payment_marks_swaps_and_is_paid() {
    let mut store = Store::open("log".into(), Vec::new()).unwrap();
    let summary = TokenSummary {
        mint: "m".into(),
        unit: "sat".into(),
        amount: 3,
        secrets: vec!["s".into()],
    };
    let (mut payment, action) =
        Payment::begin("k".into(), summary.clone(), "cashuB".into(), 9, false);
    assert!(matches!(action, PaymentAction::Record(_)));
    assert!(store.get("k").is_none());
    let action = payment.step(&mut store, PaymentReply::Recorded(Ok(())));
    assert_eq!(action, PaymentAction::Swap(summary, "cashuB".into()));
    assert_eq!(store.get("k"), Some(&State::Pending { first_seen: 9 }));
    let action = payment.step(&mut store, PaymentReply::Swapped(Ok(3)));
    assert_eq!(action, PaymentAction::Paid(3));
    assert_eq!(store.get("k"), Some(&State::Pending { first_seen: 9 }));
}

#[test]
fn the_clock_shows_seconds_since_the_epoch() {
    assert_eq!(seconds_or_zero(Some(12)), 12);
    assert_eq!(seconds_or_zero(None), 0);
    let now = unix_now();
    assert!(now > 1_600_000_000);
    assert!(unix_now() >= now);
}
