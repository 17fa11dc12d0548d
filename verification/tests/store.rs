//! The token log and its index.

use bpir_cashier::credit::CredentialResponseV2;
use bpir_cashier::log::LogLine;
use bpir_cashier::store::{Event, IssuedGrant, State, Store, StoreError};

fn issued(credits: u32) -> State {
    State::Issued {
        grant: IssuedGrant {
            grant_base64: "AAAA".into(),
            grant_id_hex: "00".repeat(16),
            credits,
            issued_at: 1,
            expires_at: 2,
        },
        received: 210,
        mint: "https://mint.example".into(),
        unit: "sat".into(),
    }
}

/// The lines that a log of these events holds.
fn lines(events: &[Event]) -> Vec<LogLine<Event>> {
    events
        .iter()
        .map(|e| LogLine::Text(format!("{:?}", e), Ok(e.clone())))
        .collect()
}

fn event(key: &str, state: State) -> Event {
    Event {
        token_key_hex: key.into(),
        state,
    }
}

#[test]
fn replay_keeps_the_last_state_per_key() {
    let mut written = Vec::new();
    {
        let mut store = Store::open("grants.jsonl".into(), Vec::new()).unwrap();
        for e in [
            event("k1", State::Pending { first_seen: 1 }),
            event("k1", issued(1000)),
            event("k2", State::Pending { first_seen: 5 }),
            event(
                "k3",
                State::Failed {
                    at: 6,
                    reason: "net".into(),
                },
            ),
        ] {
            written.push(e.clone());
            store.record(&e.token_key_hex, e.state);
        }
        assert_eq!(store.get("k1"), Some(&issued(1000)));
    }
    let store = Store::open("grants.jsonl".into(), lines(&written)).unwrap();
    assert_eq!(store.get("k1"), Some(&issued(1000)));
    assert_eq!(store.get("k2"), Some(&State::Pending { first_seen: 5 }));
    assert!(matches!(store.get("k3"), Some(State::Failed { .. })));
    assert_eq!(store.issued_count(), 1);
    assert_eq!(store.pending_keys(), vec!["k2".to_string()]);
    assert_eq!(written.len(), 4);
    assert_eq!(store.path(), "grants.jsonl");
    assert!(store.get("k4").is_none());
}

#[test]
fn corrupt_line_is_refused_at_startup() {
    let log = vec![
        LogLine::Text(
            "{\"token_key_hex\":\"k\",\"state\":\"pending\",\"first_seen\":1}".into(),
            Ok(event("k", State::Pending { first_seen: 1 })),
        ),
        LogLine::Text(
            "not json".into(),
            Err(serde_json::from_str::<serde_json::Value>("not json")
                .unwrap_err()
                .to_string()),
        ),
    ];
    assert!(matches!(
        Store::open("grants.jsonl".into(), log),
        Err(StoreError::Replay(_, 2, _))
    ));
}

#[test]
fn blank_lines_are_skipped_but_counted() {
    let log = vec![
        LogLine::Text("".into(), Err("end of input".into())),
        LogLine::Text(" \t ".into(), Err("end of input".into())),
        LogLine::Text(
            "{}".into(),
            Ok(event("k", State::Pending { first_seen: 1 })),
        ),
        LogLine::Unreadable("stream did not contain valid UTF-8".into()),
        LogLine::Text("not json".into(), Err("later".into())),
    ];
    match Store::open("log".into(), log) {
        Err(StoreError::Replay(path, line, why)) => {
            assert_eq!(path, "log");
            assert_eq!(line, 4);
            assert_eq!(why, "stream did not contain valid UTF-8");
        }
        _ => panic!("an unreadable line must be refused"),
    }
}

#[test]
fn counts_and_pending_keys_follow_the_last_state() {
    let mut store = Store::open("log".into(), Vec::new()).unwrap();
    assert_eq!(store.issued_count(), 0);
    assert!(store.pending_keys().is_empty());
    store.record("b", State::Pending { first_seen: 1 });
    store.record("a", State::Pending { first_seen: 2 });
    let mut pending = store.pending_keys();
    pending.sort();
    assert_eq!(pending, vec!["a".to_string(), "b".to_string()]);
    store.record("b", issued(7));
    store.record(
        "c",
        State::Credential {
            request_hex: "00".into(),
            response: CredentialResponseV2 {
                epoch: 1,
                presentation_limit: 2,
                issuer_public_key_hex: "aa".into(),
                response_hex: "bb".into(),
            },
            received: 1,
            mint: "m".into(),
            unit: "sat".into(),
        },
    );
    assert_eq!(store.issued_count(), 1);
    assert_eq!(store.pending_keys(), vec!["a".to_string()]);
    store.record("b", State::Pending { first_seen: 9 });
    assert_eq!(store.issued_count(), 0);
}

#[test]
fn store_errors_read_as_sentences() {
    assert_eq!(
        StoreError::Open("p".into(), "denied".into()).message(),
        "open p: denied"
    );
    assert_eq!(
        StoreError::Replay("p".into(), 12, "bad".into()).message(),
        "replay p line 12: bad"
    );
    assert_eq!(StoreError::Append("full".into()).message(), "append: full");
}
