//! Idempotency and audit store: an append-only log with an in-memory index
//! keyed by the token key.
//!
//! Each line is one [`Event`]; the last event for a key is its state. The log
//! is the operator's reconciliation record (every token seen, what it bought,
//! every swap failure) and survives restarts: the cashier replays it at
//! startup. An event is appended durably before the index takes it in.

use vstd::hash_map::StringHashMap;
use vstd::prelude::*;

use crate::credit::{CredentialResponseV2, CredentialResponseView};
use crate::grant::IssuedGrantView;
use crate::log;
use crate::log::LogLine;
use crate::text;

pub use crate::grant::IssuedGrant;

verus! {

/// What is known of a token.
#[derive(Debug, PartialEq, Eq)]
pub enum State {
    /// The swap is about to be attempted. A `pending` state at startup means
    /// the process died mid-swap; the outcome at the mint is unknown.
    Pending { first_seen: u64 },
    /// The swap failed and the mint did not consume the token (or reported
    /// it as already spent). The client may retry with the same token.
    Failed { at: u64, reason: String },
    /// The mint accepted the token and a grant was signed.
    Issued {
        grant: IssuedGrant,
        /// Value the mint actually credited (may be below the face value
        /// when the mint charges input fees; the operator absorbs that).
        received: u64,
        mint: String,
        unit: String,
    },
    /// The mint accepted the token and its value was booked to a server.
    Redeemed { server_id: String, received: u64, mint: String, unit: String },
    /// The mint accepted the token and a credential was issued for the
    /// blinded request `request_hex`.
    Credential {
        request_hex: String,
        response: CredentialResponseV2,
        received: u64,
        mint: String,
        unit: String,
    },
}

/// The model of a [`State`].
pub enum StateView {
    Pending { first_seen: u64 },
    Failed { at: u64, reason: Seq<char> },
    Issued { grant: IssuedGrantView, received: u64, mint: Seq<char>, unit: Seq<char> },
    Redeemed { server_id: Seq<char>, received: u64, mint: Seq<char>, unit: Seq<char> },
    Credential {
        request_hex: Seq<char>,
        response: CredentialResponseView,
        received: u64,
        mint: Seq<char>,
        unit: Seq<char>,
    },
}

impl View for State {
    type V = StateView;

    open spec fn view(&self) -> StateView {
        match self {
            State::Pending { first_seen } => StateView::Pending { first_seen: *first_seen },
            State::Failed { at, reason } => StateView::Failed { at: *at, reason: reason@ },
            State::Issued { grant, received, mint, unit } => StateView::Issued {
                grant: grant@,
                received: *received,
                mint: mint@,
                unit: unit@,
            },
            State::Redeemed { server_id, received, mint, unit } => StateView::Redeemed {
                server_id: server_id@,
                received: *received,
                mint: mint@,
                unit: unit@,
            },
            State::Credential { request_hex, response, received, mint, unit } => {
                StateView::Credential {
                    request_hex: request_hex@,
                    response: response@,
                    received: *received,
                    mint: mint@,
                    unit: unit@,
                }
            },
        }
    }
}

impl Clone for State {
    fn clone(&self) -> (r: Self)
        ensures
            r@ == self@,
    {
        match self {
            State::Pending { first_seen } => State::Pending { first_seen: *first_seen },
            State::Failed { at, reason } => State::Failed { at: *at, reason: reason.clone() },
            State::Issued { grant, received, mint, unit } => State::Issued {
                grant: grant.clone(),
                received: *received,
                mint: mint.clone(),
                unit: unit.clone(),
            },
            State::Redeemed { server_id, received, mint, unit } => State::Redeemed {
                server_id: server_id.clone(),
                received: *received,
                mint: mint.clone(),
                unit: unit.clone(),
            },
            State::Credential { request_hex, response, received, mint, unit } => {
                State::Credential {
                    request_hex: request_hex.clone(),
                    response: response.clone(),
                    received: *received,
                    mint: mint.clone(),
                    unit: unit.clone(),
                }
            },
        }
    }
}

/// One line of the log: a token and its new state.
#[derive(Debug, PartialEq, Eq)]
pub struct Event {
    pub token_key_hex: String,
    pub state: State,
}

/// The model of an [`Event`].
pub struct EventView {
    pub token_key_hex: Seq<char>,
    pub state: StateView,
}

impl View for Event {
    type V = EventView;

    open spec fn view(&self) -> EventView {
        EventView { token_key_hex: self.token_key_hex@, state: self.state@ }
    }
}

impl Clone for Event {
    fn clone(&self) -> (r: Self)
        ensures
            r@ == self@,
    {
        Event { token_key_hex: self.token_key_hex.clone(), state: self.state.clone() }
    }
}

/// Why the store cannot be used.
#[derive(Debug, PartialEq, Eq)]
pub enum StoreError {
    /// The log cannot be opened: its path, and why.
    Open(String, String),
    /// The log cannot be replayed: its path, the line, and why.
    Replay(String, usize, String),
    /// An event cannot be appended.
    Append(String),
}

impl StoreError {
    /// The error as one sentence.
    pub open spec fn text(&self) -> Seq<char> {
        match self {
            StoreError::Open(path, why) => "open "@ + path@ + ": "@ + why@,
            StoreError::Replay(path, line, why) => "replay "@ + path@ + " line "@
                + text::decimal_text(*line as nat) + ": "@ + why@,
            StoreError::Append(why) => "append: "@ + why@,
        }
    }

    /// The error as one sentence.
    pub fn message(&self) -> (r: String)
        ensures
            r@ == self.text(),
    {
        match self {
            StoreError::Open(path, why) => {
                let mut m = text::joined3("open ", path.as_str(), ": ");
                m.append(why.as_str());
                m
            },
            StoreError::Replay(path, line, why) => {
                let mut m = text::joined3("replay ", path.as_str(), " line ");
                m.append(text::decimal(*line as u128).as_str());
                m.append(": ");
                m.append(why.as_str());
                m
            },
            StoreError::Append(why) => text::joined("append: ", why.as_str()),
        }
    }
}

/// The states after the events of a log: the last event for a key counts.
pub open spec fn replayed(events: Seq<EventView>) -> Map<Seq<char>, StateView>
    decreases events.len(),
{
    if events.len() == 0 {
        Map::empty()
    } else {
        replayed(events.drop_last()).insert(
            events.last().token_key_hex,
            events.last().state,
        )
    }
}

/// The tokens seen, each with its last state.
pub struct Store {
    path: String,
    /// Every key of the index once.
    keys: Vec<String>,
    index: StringHashMap<State>,
}

impl View for Store {
    type V = Map<Seq<char>, StateView>;

    closed spec fn view(&self) -> Map<Seq<char>, StateView> {
        self.index@.map_values(|s: State| s@)
    }
}

impl Store {
    /// The list of keys holds each key of the index once.
    pub closed spec fn wf(&self) -> bool {
        &&& forall|i: int, j: int|
            0 <= i < j < self.keys@.len() ==> (#[trigger] self.keys@[i])@ != (
            #[trigger] self.keys@[j])@
        &&& forall|i: int|
            0 <= i < self.keys@.len() ==> self.index@.contains_key((#[trigger] self.keys@[i])@)
        &&& forall|k: Seq<char>| #[trigger]
            self.index@.contains_key(k) ==> text::texts(self.keys@).contains(k)
    }

    /// Where the log is kept.
    pub closed spec fn location(&self) -> Seq<char> {
        self.path@
    }

    /// Replay a log: blank lines are skipped, and a corrupt line is refused
    /// with its number.
    pub fn open(path: String, lines: Vec<LogLine<Event>>) -> (r: Result<Self, StoreError>)
        ensures
            match log::log_view(lines@) {
                Ok(events) => r matches Ok(store) && store.wf() && store@ == replayed(events)
                    && store.location() == path@,
                Err((n, why)) => r matches Err(StoreError::Replay(p, line, reason)) && p@ == path@
                    && line == n && reason@ == why,
            },
    {
        let events = match log::read_log(lines) {
            Ok(events) => events,
            Err((n, why)) => return Err(StoreError::Replay(path, n, why)),
        };
        let ghost all = log::views(events@);
        let mut store = Store { path, keys: Vec::new(), index: StringHashMap::new() };
        assert(store@ == Map::<Seq<char>, StateView>::empty());
        assert(all.take(0) == Seq::<EventView>::empty());
        for event in it: events
            invariant
                all == log::views(it.seq()),
                store.wf(),
                store.location() == path@,
                store@ == replayed(all.take(it.index())),
        {
            let ghost n = it.index();
            assert(all.take(n + 1).drop_last() == all.take(n));
            assert(all.take(n + 1).last() == event@);
            store.record(event.token_key_hex.as_str(), event.state);
        }
        assert(all.take(all.len() as int) == all);
        Ok(store)
    }

    pub fn path(&self) -> (r: &str)
        ensures
            r@ == self.location(),
    {
        self.path.as_str()
    }

    /// The last state of a token.
    pub fn get(&self, token_key_hex: &str) -> (r: Option<&State>)
        ensures
            match r {
                Some(state) => self@.contains_key(token_key_hex@) && self@[token_key_hex@]
                    == state@,
                None => !self@.contains_key(token_key_hex@),
            },
    {
        self.index.get(token_key_hex)
    }

    /// Take an event that was appended to the log into the index.
    pub fn record(&mut self, token_key_hex: &str, state: State)
        requires
            old(self).wf(),
        ensures
            final(self).wf(),
            final(self)@ == old(self)@.insert(token_key_hex@, state@),
            final(self).location() == old(self).location(),
    {
        let ghost before = *self;
        if !self.index.contains_key(token_key_hex) {
            self.keys.push(token_key_hex.to_owned());
        }
        self.index.insert(token_key_hex.to_owned(), state);
        proof {
            let was = text::texts(before.keys@);
            let now = text::texts(self.keys@);
            assert forall|k: Seq<char>| #[trigger] self.index@.contains_key(k) implies now.contains(
                k,
            ) by {
                if before.index@.contains_key(k) {
                    assert(was.contains(k));
                    let i = choose|i: int| 0 <= i < was.len() && was[i] == k;
                    assert(now[i] == k);
                } else {
                    assert(now[now.len() - 1] == k);
                }
            }
            assert(self@ == before@.insert(token_key_hex@, state@));
        }
    }

    /// Number of tokens with an issued grant (for the startup log line).
    pub fn issued_count(&self) -> (r: usize)
        requires
            self.wf(),
        ensures
            r == self@.dom().filter(|k: Seq<char>| self@[k] is Issued).len(),
    {
        let mut n: usize = 0;
        let mut i: usize = 0;
        let ghost mut found = Set::<Seq<char>>::empty();
        while i < self.keys.len()
            invariant
                self.wf(),
                i <= self.keys.len(),
                n <= i,
                found.finite(),
                found.len() == n,
                forall|k: Seq<char>| #[trigger]
                    found.contains(k) <==> (self@.contains_key(k) && self@[k] is Issued
                        && text::texts(self.keys@).take(i as int).contains(k)),
            decreases self.keys.len() - i,
        {
            let key = &self.keys[i];
            let ghost names = text::texts(self.keys@);
            let ghost before = found;
            proof {
                broadcast use vstd::seq_lib::lemma_seq_contains_after_push;

                assert(names.take(i + 1) == names.take(i as int).push(key@));
                if names.take(i as int).contains(key@) {
                    let j = choose|j: int| 0 <= j < i && names.take(i as int)[j] == key@;
                    assert(self.keys@[j]@ != self.keys@[i as int]@);
                }
            }
            if let Some(State::Issued { .. }) = self.index.get(key.as_str()) {
                n += 1;
                proof {
                    found = found.insert(key@);
                }
            }
            i += 1;
        }
        proof {
            let names = text::texts(self.keys@);
            assert(names.take(i as int) == names);
            assert(found =~= self@.dom().filter(|k: Seq<char>| self@[k] is Issued));
        }
        n
    }

    /// Tokens whose swap outcome is unknown (process died mid-swap), each
    /// once.
    pub fn pending_keys(&self) -> (r: Vec<String>)
        requires
            self.wf(),
        ensures
            text::texts(r@).no_duplicates(),
            forall|k: Seq<char>| #[trigger]
                text::texts(r@).contains(k) <==> (self@.contains_key(k)
                    && self@[k] is Pending),
    {
        let mut r: Vec<String> = Vec::new();
        let mut i: usize = 0;
        while i < self.keys.len()
            invariant
                self.wf(),
                i <= self.keys.len(),
                text::texts(r@).no_duplicates(),
                forall|k: Seq<char>| #[trigger]
                    text::texts(r@).contains(k) <==> (self@.contains_key(k)
                        && self@[k] is Pending && text::texts(self.keys@).take(
                        i as int,
                    ).contains(k)),
            decreases self.keys.len() - i,
        {
            let key = &self.keys[i];
            let ghost names = text::texts(self.keys@);
            let ghost before = text::texts(r@);
            proof {
                broadcast use vstd::seq_lib::lemma_seq_contains_after_push;

                assert(names.take(i + 1) == names.take(i as int).push(key@));
                if names.take(i as int).contains(key@) {
                    let j = choose|j: int| 0 <= j < i && names.take(i as int)[j] == key@;
                    assert(self.keys@[j]@ != self.keys@[i as int]@);
                }
            }
            if let Some(State::Pending { .. }) = self.index.get(key.as_str()) {
                r.push(key.clone());
                proof {
                    let now = text::texts(r@);
                    broadcast use vstd::seq_lib::lemma_seq_contains_after_push;

                    assert(now == before.push(key@));
                    assert forall|a: int, b: int|
                        0 <= a < now.len() && 0 <= b < now.len() && a != b implies now[a]
                        != now[b] by {
                        if a < before.len() {
                            assert(before.contains(before[a]));
                        }
                        if b < before.len() {
                            assert(before.contains(before[b]));
                        }
                    }
                }
            }
            i += 1;
        }
        proof {
            let names = text::texts(self.keys@);
            assert(names.take(i as int) == names);
        }
        r
    }
}

/// Whether the `i`th event is the last one for a token.
pub open spec fn is_last_for(events: Seq<EventView>, i: int, key: Seq<char>) -> bool {
    &&& 0 <= i < events.len()
    &&& events[i].token_key_hex == key
    &&& forall|j: int| i < j < events.len() ==> (#[trigger] events[j]).token_key_hex != key
}

/// The last event for a token is its state.
pub proof fn last_event_counts(events: Seq<EventView>, i: int, key: Seq<char>)
    requires
        is_last_for(events, i, key),
    ensures
        replayed(events).contains_key(key),
        replayed(events)[key] == events[i].state,
    decreases events.len(),
{
    let last = events.len() - 1;
    if i < last {
        let shorter = events.drop_last();
        assert(events[last].token_key_hex != key);
        assert forall|j: int| i < j < shorter.len() implies (
        #[trigger] shorter[j]).token_key_hex != key by {
            assert(shorter[j] == events[j]);
        }
        last_event_counts(shorter, i, key);
    }
}

/// A token with an event has a state.
pub proof fn seen_tokens_have_a_state(events: Seq<EventView>, i: int)
    requires
        0 <= i < events.len(),
    ensures
        replayed(events).contains_key(events[i].token_key_hex),
    decreases events.len(),
{
    if i < events.len() - 1 {
        assert(events.drop_last()[i] == events[i]);
        seen_tokens_have_a_state(events.drop_last(), i);
    }
}

/// A token without an event has no state.
pub proof fn unseen_tokens_have_no_state(events: Seq<EventView>, key: Seq<char>)
    requires
        forall|i: int| 0 <= i < events.len() ==> (#[trigger] events[i]).token_key_hex != key,
    ensures
        !replayed(events).contains_key(key),
    decreases events.len(),
{
    if events.len() > 0 {
        let shorter = events.drop_last();
        assert(events[events.len() - 1].token_key_hex != key);
        assert forall|i: int| 0 <= i < shorter.len() implies (
        #[trigger] shorter[i]).token_key_hex != key by {
            assert(shorter[i] == events[i]);
        }
        unseen_tokens_have_no_state(shorter, key);
    }
}

/// Taking an event into the index is what replaying it from the log does.
pub proof fn recording_is_replaying(events: Seq<EventView>, event: EventView)
    ensures
        replayed(events.push(event)) == replayed(events).insert(event.token_key_hex, event.state),
{
    assert(events.push(event).drop_last() == events);
}

/// What is wrong with the log is told in one sentence: where it is kept, the
/// line where there is one, and why.
pub proof fn log_faults_are_told(path: String, line: usize, why: String)
    ensures
        StoreError::Open(path, why).text() == "open "@ + path@ + ": "@ + why@,
        StoreError::Replay(path, line, why).text() == "replay "@ + path@ + " line "@
            + text::decimal_text(line as nat) + ": "@ + why@,
        StoreError::Append(why).text() == "append: "@ + why@,
{
}

} // verus!
