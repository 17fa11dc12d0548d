//! The redeem store: an append-only log of every redemption, which is the
//! replay index for a server and a nonce, the set of spent presentations, and
//! the settlement ledger per server.

use vstd::bytes::*;
use vstd::hash_map::StringHashMap;
use vstd::hash_set::StringHashSet;
use vstd::prelude::*;

use crate::cashu;
use crate::credit;
use crate::credit::{RedeemResponseV1, RedeemResponseView};
use crate::encoding;
use crate::log;
use crate::log::LogLine;
use crate::text;

verus! {

/// One settled redemption, as the append-only redeem log records it.
#[derive(Debug, PartialEq, Eq)]
pub struct RedeemEvent {
    pub server_id: String,
    pub nonce_hex: String,
    pub unix_time: u64,
    pub gas_added: u64,
    pub sat_value: u64,
    pub items_accepted: u32,
    pub issuer_signature_hex: String,
    /// Epoch of the ARC presentations this redemption consumed, if any.
    pub epoch: Option<u32>,
    /// Tags of the ARC presentations consumed (the double-spend set).
    pub tags_hex: Vec<String>,
}

/// The model of a [`RedeemEvent`].
pub struct RedeemEventView {
    pub server_id: Seq<char>,
    pub nonce_hex: Seq<char>,
    pub unix_time: u64,
    pub gas_added: u64,
    pub sat_value: u64,
    pub items_accepted: u32,
    pub issuer_signature_hex: Seq<char>,
    pub epoch: Option<u32>,
    pub tags_hex: Seq<Seq<char>>,
}

impl View for RedeemEvent {
    type V = RedeemEventView;

    open spec fn view(&self) -> RedeemEventView {
        RedeemEventView {
            server_id: self.server_id@,
            nonce_hex: self.nonce_hex@,
            unix_time: self.unix_time,
            gas_added: self.gas_added,
            sat_value: self.sat_value,
            items_accepted: self.items_accepted,
            issuer_signature_hex: self.issuer_signature_hex@,
            epoch: self.epoch,
            tags_hex: text::texts(self.tags_hex@),
        }
    }
}

impl Clone for RedeemEvent {
    fn clone(&self) -> (r: Self)
        ensures
            r@ == self@,
    {
        RedeemEvent {
            server_id: self.server_id.clone(),
            nonce_hex: self.nonce_hex.clone(),
            unix_time: self.unix_time,
            gas_added: self.gas_added,
            sat_value: self.sat_value,
            items_accepted: self.items_accepted,
            issuer_signature_hex: self.issuer_signature_hex.clone(),
            epoch: self.epoch,
            tags_hex: text::copy_texts(&self.tags_hex),
        }
    }
}

impl RedeemEventView {
    /// What the server was answered.
    pub open spec fn response(self) -> RedeemResponseView {
        RedeemResponseView {
            gas_added: self.gas_added,
            sat_value: self.sat_value,
            items_accepted: self.items_accepted,
            issuer_signature_hex: self.issuer_signature_hex,
        }
    }
}

impl RedeemEvent {
    /// What the server was answered.
    pub fn response(&self) -> (r: RedeemResponseV1)
        ensures
            r@ == self@.response(),
    {
        RedeemResponseV1 {
            gas_added: self.gas_added,
            sat_value: self.sat_value,
            items_accepted: self.items_accepted,
            issuer_signature_hex: self.issuer_signature_hex.clone(),
        }
    }
}

/// Per-server settlement totals.
#[derive(Clone, Copy, Debug, PartialEq, Eq)]
pub struct ServerTotals {
    pub redemptions: u64,
    pub gas: u64,
    pub sat: u64,
}

impl ServerTotals {
    /// The totals of a server that redeemed nothing.
    pub open spec fn zero() -> Self {
        ServerTotals { redemptions: 0, gas: 0, sat: 0 }
    }

    /// The totals after one more redemption. Sums stop at the largest 64-bit
    /// number.
    pub open spec fn plus(self, event: RedeemEventView) -> Self {
        ServerTotals {
            redemptions: credit::capped_sum(self.redemptions as int, 1) as u64,
            gas: credit::capped_sum(self.gas as int, event.gas_added as int) as u64,
            sat: credit::capped_sum(self.sat as int, event.sat_value as int) as u64,
        }
    }
}

impl Default for ServerTotals {
    fn default() -> (r: Self)
        ensures
            r == ServerTotals::zero(),
    {
        ServerTotals { redemptions: 0, gas: 0, sat: 0 }
    }
}

/// Why the redeem store cannot be used.
#[derive(Debug, PartialEq, Eq)]
pub enum RedeemStoreError {
    /// The log cannot be opened: its path, and why.
    Open(String, String),
    /// The log cannot be replayed: its path, the line, and why.
    Replay(String, usize, String),
    /// An event cannot be appended.
    Append(String),
}

impl RedeemStoreError {
    /// The error as one sentence.
    pub open spec fn text(&self) -> Seq<char> {
        match self {
            RedeemStoreError::Open(path, why) => "open "@ + path@ + ": "@ + why@,
            RedeemStoreError::Replay(path, line, why) => "replay "@ + path@ + " line "@
                + text::decimal_text(*line as nat) + ": "@ + why@,
            RedeemStoreError::Append(why) => "append: "@ + why@,
        }
    }

    /// The error as one sentence.
    pub fn message(&self) -> (r: String)
        ensures
            r@ == self.text(),
    {
        match self {
            RedeemStoreError::Open(path, why) => {
                let mut m = text::joined3("open ", path.as_str(), ": ");
                m.append(why.as_str());
                m
            },
            RedeemStoreError::Replay(path, line, why) => {
                let mut m = text::joined3("replay ", path.as_str(), " line ");
                m.append(text::decimal(*line as u128).as_str());
                m.append(": ");
                m.append(why.as_str());
                m
            },
            RedeemStoreError::Append(why) => text::joined("append: ", why.as_str()),
        }
    }
}

/// What the redemptions so far amount to.
#[verifier::ext_equal]
pub struct LedgerView {
    /// The last redemption for each server and nonce.
    pub answers: Map<(Seq<char>, Seq<char>), RedeemEventView>,
    /// The totals of each server that redeemed something.
    pub totals: Map<Seq<char>, ServerTotals>,
    /// The presentations spent: their epochs and tags.
    pub tags: Set<(u32, Seq<char>)>,
}

impl LedgerView {
    /// The ledger before anything was redeemed.
    pub open spec fn empty() -> Self {
        LedgerView { answers: Map::empty(), totals: Map::empty(), tags: Set::empty() }
    }

    /// The totals of a server.
    pub open spec fn totals_of(self, server_id: Seq<char>) -> ServerTotals {
        if self.totals.contains_key(server_id) {
            self.totals[server_id]
        } else {
            ServerTotals::zero()
        }
    }

    /// The ledger after one more redemption.
    pub open spec fn plus(self, event: RedeemEventView) -> Self {
        LedgerView {
            answers: self.answers.insert((event.server_id, event.nonce_hex), event),
            totals: self.totals.insert(
                event.server_id,
                self.totals_of(event.server_id).plus(event),
            ),
            tags: self.tags.union(spent_tags(event)),
        }
    }
}

/// The presentations that a redemption consumed.
pub open spec fn spent_tags(event: RedeemEventView) -> Set<(u32, Seq<char>)> {
    Set::new(|p: (u32, Seq<char>)| event.epoch == Some(p.0) && event.tags_hex.contains(p.1))
}

/// The ledger after the events of a log.
pub open spec fn settled(events: Seq<RedeemEventView>) -> LedgerView
    decreases events.len(),
{
    if events.len() == 0 {
        LedgerView::empty()
    } else {
        settled(events.drop_last()).plus(events.last())
    }
}

/// The index key of a server and a nonce: the number of characters of the
/// server's name in 16 digits, then both texts.
spec fn answer_key(server_id: Seq<char>, nonce_hex: Seq<char>) -> Seq<char> {
    encoding::hex_text(encoding::le64(server_id.len() as u64)) + server_id + nonce_hex
}

proof fn answer_key_injective(a: Seq<char>, x: Seq<char>, b: Seq<char>, y: Seq<char>)
    requires
        a.len() <= u64::MAX,
        b.len() <= u64::MAX,
        answer_key(a, x) == answer_key(b, y),
    ensures
        a == b,
        x == y,
{
    let (n, m) = (a.len() as u64, b.len() as u64);
    encoding::le64_injective(n, m);
    encoding::le64_injective(m, n);
    let (p, q) = (answer_key(a, x), answer_key(b, y));
    let (h, g) = (encoding::hex_text(encoding::le64(n)), encoding::hex_text(encoding::le64(m)));
    assert(h.len() == 16 && g.len() == 16);
    assert(p.take(16) == h);
    assert(q.take(16) == g);
    encoding::hex_text_injective(encoding::le64(n), encoding::le64(m));
    assert(p.subrange(16, 16 + a.len() as int) == a);
    assert(q.subrange(16, 16 + b.len() as int) == b);
    assert(p.skip(16 + a.len() as int) == x);
    assert(q.skip(16 + b.len() as int) == y);
}

fn answer_key_text(server_id: &str, nonce_hex: &str) -> (r: String)
    ensures
        r@ == answer_key(server_id@, nonce_hex@),
        server_id@.len() <= u64::MAX,
{
    let length = text::chars_of(server_id).len();
    let bytes = u64_to_le_bytes(length as u64);
    text::joined3(encoding::hex_encode(bytes.as_slice()).as_str(), server_id, nonce_hex)
}

/// The index key of a tag: its epoch in eight digits, then the tag.
spec fn tag_key(epoch: u32, tag: Seq<char>) -> Seq<char> {
    encoding::hex_text(encoding::le32(epoch)) + tag
}

proof fn tag_key_injective(a: u32, x: Seq<char>, b: u32, y: Seq<char>)
    requires
        tag_key(a, x) == tag_key(b, y),
    ensures
        a == b,
        x == y,
{
    encoding::le32_injective(a, b);
    encoding::le32_injective(b, a);
    let (p, q) = (tag_key(a, x), tag_key(b, y));
    let (h, g) = (encoding::hex_text(encoding::le32(a)), encoding::hex_text(encoding::le32(b)));
    assert(h.len() == 8 && g.len() == 8);
    assert(p.take(8) == h);
    assert(q.take(8) == g);
    encoding::hex_text_injective(encoding::le32(a), encoding::le32(b));
    assert(p.skip(8) == x);
    assert(q.skip(8) == y);
}

fn tag_key_text(epoch: u32, tag: &str) -> (r: String)
    ensures
        r@ == tag_key(epoch, tag@),
{
    let bytes = u32_to_le_bytes(epoch);
    text::joined(encoding::hex_encode(bytes.as_slice()).as_str(), tag)
}

/// The replay index, the spent presentations and the settlement ledger.
pub struct RedeemStore {
    path: String,
    /// Each redemption under its [`answer_key`].
    answers: StringHashMap<RedeemEvent>,
    /// The servers that redeemed something, in the order of their names.
    servers: Vec<String>,
    totals: StringHashMap<ServerTotals>,
    /// Each spent presentation under its [`tag_key`].
    seen_tags: StringHashSet,
}

impl View for RedeemStore {
    type V = LedgerView;

    closed spec fn view(&self) -> LedgerView {
        LedgerView {
            answers: Map::new(
                |p: (Seq<char>, Seq<char>)|
                    p.0.len() <= u64::MAX && self.answers@.contains_key(answer_key(p.0, p.1)),
                |p: (Seq<char>, Seq<char>)| self.answers@[answer_key(p.0, p.1)]@,
            ),
            totals: self.totals@,
            tags: Set::new(|p: (u32, Seq<char>)| self.seen_tags@.contains(tag_key(p.0, p.1))),
        }
    }
}

impl RedeemStore {
    /// The list of servers is in order and holds those that have totals.
    pub closed spec fn wf(&self) -> bool {
        &&& cashu::strictly_ordered(text::texts(self.servers@))
        &&& forall|s: Seq<char>| #[trigger]
            self.totals@.contains_key(s) <==> text::texts(self.servers@).contains(s)
    }

    /// Where the log is kept.
    pub closed spec fn location(&self) -> Seq<char> {
        self.path@
    }

    /// Replay a log: blank lines are skipped, and a corrupt line is refused
    /// with its number.
    pub fn open(path: String, lines: Vec<LogLine<RedeemEvent>>) -> (r: Result<
        Self,
        RedeemStoreError,
    >)
        ensures
            match log::log_view(lines@) {
                Ok(events) => r matches Ok(store) && store.wf() && store@ == settled(events)
                    && store.location() == path@,
                Err((n, why)) => r matches Err(RedeemStoreError::Replay(p, line, reason)) && p@
                    == path@ && line == n && reason@ == why,
            },
    {
        let events = match log::read_log(lines) {
            Ok(events) => events,
            Err((n, why)) => return Err(RedeemStoreError::Replay(path, n, why)),
        };
        let ghost all = log::views(events@);
        let mut store = RedeemStore {
            path,
            answers: StringHashMap::new(),
            servers: Vec::new(),
            totals: StringHashMap::new(),
            seen_tags: StringHashSet::new(),
        };
        assert(text::texts(store.servers@) == Seq::<Seq<char>>::empty());
        assert(store@ =~= LedgerView::empty());
        assert(all.take(0) == Seq::<RedeemEventView>::empty());
        for event in it: events
            invariant
                all == log::views(it.seq()),
                store.wf(),
                store.location() == path@,
                store@ == settled(all.take(it.index())),
        {
            let ghost n = it.index();
            assert(all.take(n + 1).drop_last() == all.take(n));
            assert(all.take(n + 1).last() == event@);
            store.record(event);
        }
        assert(all.take(all.len() as int) == all);
        Ok(store)
    }

    /// Whether an ARC tag was already consumed under `epoch`.
    pub fn has_tag(&self, epoch: u32, tag_hex: &str) -> (r: bool)
        ensures
            r == self@.tags.contains((epoch, tag_hex@)),
    {
        let key = tag_key_text(epoch, tag_hex);
        self.seen_tags.contains(key.as_str())
    }

    pub fn path(&self) -> (r: &str)
        ensures
            r@ == self.location(),
    {
        self.path.as_str()
    }

    /// The answer already given for this server and nonce, if any.
    pub fn answer(&self, server_id: &str, nonce_hex: &str) -> (r: Option<RedeemResponseV1>)
        ensures
            match r {
                Some(answer) => self@.answers.contains_key((server_id@, nonce_hex@)) && answer@
                    == self@.answers[(server_id@, nonce_hex@)].response(),
                None => !self@.answers.contains_key((server_id@, nonce_hex@)),
            },
    {
        let key = answer_key_text(server_id, nonce_hex);
        match self.answers.get(key.as_str()) {
            Some(event) => Some(event.response()),
            None => None,
        }
    }

    /// Take a redemption that was appended to the log into the index.
    pub fn record(&mut self, event: RedeemEvent)
        requires
            old(self).wf(),
        ensures
            final(self).wf(),
            final(self)@ == old(self)@.plus(event@),
            final(self).location() == old(self).location(),
    {
        let ghost before = *self;
        self.add_totals(&event);
        if let Some(epoch) = event.epoch {
            self.add_tags(epoch, &event.tags_hex);
        }
        let ghost middle = *self;
        let key = answer_key_text(event.server_id.as_str(), event.nonce_hex.as_str());
        let ghost entry = event@;
        self.answers.insert(key, event);
        proof {
            let want = before@.plus(entry);
            assert forall|p: (Seq<char>, Seq<char>)| #[trigger]
                self@.answers.contains_key(p) == want.answers.contains_key(p) && (
                want.answers.contains_key(p) ==> self@.answers[p] == want.answers[p]) by {
                if p.0.len() <= u64::MAX && answer_key(p.0, p.1) == answer_key(
                    entry.server_id,
                    entry.nonce_hex,
                ) {
                    answer_key_injective(p.0, p.1, entry.server_id, entry.nonce_hex);
                }
            }
            assert(self@.answers =~= want.answers);
            assert(self@.totals =~= want.totals);
            assert(self@.tags =~= want.tags);
        }
    }

    /// Add a redemption to the totals of its server.
    fn add_totals(&mut self, event: &RedeemEvent)
        requires
            old(self).wf(),
        ensures
            final(self).wf(),
            final(self).path == old(self).path,
            final(self).answers == old(self).answers,
            final(self).seen_tags == old(self).seen_tags,
            final(self).totals@ == old(self).totals@.insert(
                event.server_id@,
                old(self)@.totals_of(event.server_id@).plus(event@),
            ),
    {
        let ghost before = *self;
        let was = match self.totals.get(event.server_id.as_str()) {
            Some(totals) => *totals,
            None => {
                let at = place_of(&self.servers, event.server_id.as_str());
                let ghost names = text::texts(self.servers@);
                self.servers.insert(at, event.server_id.clone());
                proof {
                    let now = text::texts(self.servers@);
                    assert(now == names.insert(at as int, event.server_id@));
                    placed_in_order(names, at as int, event.server_id@);
                }
                ServerTotals::default()
            },
        };
        let now = ServerTotals {
            redemptions: was.redemptions.saturating_add(1),
            gas: was.gas.saturating_add(event.gas_added),
            sat: was.sat.saturating_add(event.sat_value),
        };
        self.totals.insert(event.server_id.clone(), now);
    }

    /// Add presentations to those spent.
    fn add_tags(&mut self, epoch: u32, tags: &Vec<String>)
        ensures
            final(self).path == old(self).path,
            final(self).answers == old(self).answers,
            final(self).servers == old(self).servers,
            final(self).totals == old(self).totals,
            forall|e: u32, t: Seq<char>| #[trigger]
                final(self).seen_tags@.contains(tag_key(e, t)) <==> (old(
                    self,
                ).seen_tags@.contains(tag_key(e, t)) || (e == epoch && text::texts(tags@).contains(
                    t,
                ))),
    {
        let ghost before = *self;
        let ghost all = text::texts(tags@);
        let mut i: usize = 0;
        while i < tags.len()
            invariant
                i <= tags.len(),
                all == text::texts(tags@),
                self.path == before.path,
                self.answers == before.answers,
                self.servers == before.servers,
                self.totals == before.totals,
                forall|e: u32, t: Seq<char>| #[trigger]
                    self.seen_tags@.contains(tag_key(e, t)) <==> (before.seen_tags@.contains(
                        tag_key(e, t),
                    ) || (e == epoch && all.take(i as int).contains(t))),
            decreases tags.len() - i,
        {
            let tag = &tags[i];
            let key = tag_key_text(epoch, tag.as_str());
            let ghost was = self.seen_tags@;
            let _ = self.seen_tags.insert(key);
            proof {
                let (shorter, longer) = (all.take(i as int), all.take(i + 1));
                assert(longer == shorter.push(tag@));
                assert forall|e: u32, t: Seq<char>| #[trigger]
                    self.seen_tags@.contains(tag_key(e, t)) <==> (before.seen_tags@.contains(
                        tag_key(e, t),
                    ) || (e == epoch && longer.contains(t))) by {
                    if tag_key(e, t) == tag_key(epoch, tag@) {
                        tag_key_injective(e, t, epoch, tag@);
                        assert(longer[i as int] == t);
                    } else {
                        assert(was.contains(tag_key(e, t)) <==> self.seen_tags@.contains(
                            tag_key(e, t),
                        ));
                    }
                    if shorter.contains(t) {
                        let j = choose|j: int| 0 <= j < shorter.len() && shorter[j] == t;
                        assert(longer[j] == t);
                    }
                    if longer.contains(t) && t != tag@ {
                        let j = choose|j: int| 0 <= j < longer.len() && longer[j] == t;
                        assert(shorter[j] == t);
                    }
                }
            }
            i += 1;
        }
        assert(all.take(i as int) == all);
    }

    /// The totals of every server that redeemed something, in the order of
    /// their names.
    pub fn totals(&self) -> (r: Vec<(String, ServerTotals)>)
        requires
            self.wf(),
        ensures
            cashu::strictly_ordered(names_of(r@)),
            forall|s: Seq<char>| #[trigger]
                self@.totals.contains_key(s) <==> names_of(r@).contains(s),
            forall|i: int|
                0 <= i < r@.len() ==> self@.totals[(#[trigger] r@[i]).0@] == r@[i].1,
    {
        let mut r: Vec<(String, ServerTotals)> = Vec::new();
        let mut i: usize = 0;
        while i < self.servers.len()
            invariant
                self.wf(),
                i <= self.servers.len(),
                r@.len() == i,
                forall|j: int|
                    0 <= j < i ==> (#[trigger] r@[j]).0@ == self.servers@[j]@ && self@.totals[r@[j].0@]
                        == r@[j].1,
            decreases self.servers.len() - i,
        {
            let name = &self.servers[i];
            assert(text::texts(self.servers@)[i as int] == name@);
            assert(text::texts(self.servers@).contains(name@));
            if let Some(totals) = self.totals.get(name.as_str()) {
                r.push((name.clone(), *totals));
            }
            i += 1;
        }
        assert(names_of(r@) == text::texts(self.servers@));
        r
    }

    /// The totals of one server, if it redeemed something.
    pub fn server_totals(&self, server_id: &str) -> (r: Option<ServerTotals>)
        ensures
            match r {
                Some(totals) => self@.totals.contains_key(server_id@) && totals
                    == self@.totals[server_id@],
                None => !self@.totals.contains_key(server_id@),
            },
    {
        match self.totals.get(server_id) {
            Some(totals) => Some(*totals),
            None => None,
        }
    }
}

/// The names in a list of totals.
pub open spec fn names_of(r: Seq<(String, ServerTotals)>) -> Seq<Seq<char>> {
    r.map_values(|p: (String, ServerTotals)| p.0@)
}

/// Where a new name goes in an ordered list.
fn place_of(names: &Vec<String>, name: &str) -> (r: usize)
    requires
        cashu::strictly_ordered(text::texts(names@)),
        !text::texts(names@).contains(name@),
    ensures
        r <= names@.len(),
        forall|i: int| 0 <= i < r ==> text::comes_before(#[trigger] text::texts(names@)[i], name@),
        forall|i: int|
            r <= i < names@.len() ==> text::comes_before(name@, #[trigger] text::texts(names@)[i]),
{
    let ghost list = text::texts(names@);
    let mut r: usize = 0;
    while r < names.len() && text::precedes(names[r].as_str(), name)
        invariant
            r <= names@.len(),
            list == text::texts(names@),
            forall|i: int| 0 <= i < r ==> text::comes_before(#[trigger] list[i], name@),
        decreases names.len() - r,
    {
        r += 1;
    }
    proof {
        assert forall|i: int| r <= i < list.len() implies text::comes_before(
            name@,
            #[trigger] list[i],
        ) by {
            assert(list.contains(list[r as int]));
            text::order_total(list[r as int], name@);
            if i > r {
                text::order_transitive(name@, list[r as int], list[i]);
            }
        }
    }
    r
}

/// A name put where it belongs keeps an ordered list in order.
proof fn placed_in_order(names: Seq<Seq<char>>, at: int, name: Seq<char>)
    requires
        cashu::strictly_ordered(names),
        0 <= at <= names.len(),
        forall|i: int| 0 <= i < at ==> text::comes_before(#[trigger] names[i], name),
        forall|i: int| at <= i < names.len() ==> text::comes_before(name, #[trigger] names[i]),
    ensures
        cashu::strictly_ordered(names.insert(at, name)),
        forall|s: Seq<char>| #[trigger]
            names.insert(at, name).contains(s) <==> (names.contains(s) || s == name),
{
    let out = names.insert(at, name);
    assert forall|i: int, j: int| 0 <= i < j < out.len() implies text::comes_before(
        #[trigger] out[i],
        #[trigger] out[j],
    ) by {
        let a = if i < at { i } else { i - 1 };
        let b = if j < at { j } else { j - 1 };
        if i != at {
            assert(out[i] == names[a]);
        }
        if j != at {
            assert(out[j] == names[b]);
        }
    }
    assert forall|s: Seq<char>| #[trigger] out.contains(s) <==> (names.contains(s) || s == name) by {
        if names.contains(s) {
            let i = choose|i: int| 0 <= i < names.len() && names[i] == s;
            assert(out[if i < at { i } else { i + 1 }] == s);
        }
        if s == name {
            assert(out[at] == s);
        }
        if out.contains(s) && s != name {
            let i = choose|i: int| 0 <= i < out.len() && out[i] == s;
            assert(names[if i < at { i } else { i - 1 }] == s);
        }
    }
}

/// Taking a redemption into the ledger is what replaying it from the log does.
pub proof fn recording_is_replaying(events: Seq<RedeemEventView>, event: RedeemEventView)
    ensures
        settled(events.push(event)) == settled(events).plus(event),
{
    assert(events.push(event).drop_last() == events);
}

/// A redemption is found again under its server and nonce.
pub proof fn answer_is_replayed(ledger: LedgerView, event: RedeemEventView)
    ensures
        ledger.plus(event).answers.contains_key((event.server_id, event.nonce_hex)),
        ledger.plus(event).answers[(event.server_id, event.nonce_hex)].response()
            == event.response(),
{
}

/// A redemption changes neither the answers for other nonces nor the totals
/// of other servers.
pub proof fn other_entries_stay(
    ledger: LedgerView,
    event: RedeemEventView,
    server_id: Seq<char>,
    nonce_hex: Seq<char>,
)
    ensures
        (server_id, nonce_hex) != (event.server_id, event.nonce_hex) ==> ledger.plus(
            event,
        ).answers.contains_key((server_id, nonce_hex)) == ledger.answers.contains_key(
            (server_id, nonce_hex),
        ) && (ledger.answers.contains_key((server_id, nonce_hex)) ==> ledger.plus(
            event,
        ).answers[(server_id, nonce_hex)] == ledger.answers[(server_id, nonce_hex)]),
        server_id != event.server_id ==> ledger.plus(event).totals_of(server_id)
            == ledger.totals_of(server_id),
{
}

/// A spent presentation stays spent, whatever is redeemed later.
pub proof fn tags_stay_spent(events: Seq<RedeemEventView>, i: int)
    requires
        0 <= i < events.len(),
    ensures
        spent_tags(events[i]).subset_of(settled(events).tags),
    decreases events.len(),
{
    if i < events.len() - 1 {
        assert(events.drop_last()[i] == events[i]);
        tags_stay_spent(events.drop_last(), i);
    }
}

/// The gas of the redemptions of a server, summed without a limit.
pub open spec fn gas_sum(events: Seq<RedeemEventView>, server_id: Seq<char>) -> int
    decreases events.len(),
{
    if events.len() == 0 {
        0
    } else {
        gas_sum(events.drop_last(), server_id) + if events.last().server_id == server_id {
            events.last().gas_added as int
        } else {
            0
        }
    }
}

/// The sats of the redemptions of a server, summed without a limit.
pub open spec fn sat_sum(events: Seq<RedeemEventView>, server_id: Seq<char>) -> int
    decreases events.len(),
{
    if events.len() == 0 {
        0
    } else {
        sat_sum(events.drop_last(), server_id) + if events.last().server_id == server_id {
            events.last().sat_value as int
        } else {
            0
        }
    }
}

/// The number of redemptions of a server.
pub open spec fn redemption_count(events: Seq<RedeemEventView>, server_id: Seq<char>) -> int
    decreases events.len(),
{
    if events.len() == 0 {
        0
    } else {
        redemption_count(events.drop_last(), server_id) + if events.last().server_id == server_id {
            1int
        } else {
            0
        }
    }
}

/// The ledger sums per server: the totals are the number of its redemptions,
/// their gas and their sats, each up to the largest 64-bit number.
pub proof fn totals_are_sums(events: Seq<RedeemEventView>, server_id: Seq<char>)
    ensures
        settled(events).totals_of(server_id).redemptions == credit::capped_sum(
            redemption_count(events, server_id),
            0,
        ),
        settled(events).totals_of(server_id).gas == credit::capped_sum(
            gas_sum(events, server_id),
            0,
        ),
        settled(events).totals_of(server_id).sat == credit::capped_sum(
            sat_sum(events, server_id),
            0,
        ),
        redemption_count(events, server_id) >= 0,
        gas_sum(events, server_id) >= 0,
        sat_sum(events, server_id) >= 0,
    decreases events.len(),
{
    if events.len() > 0 {
        totals_are_sums(events.drop_last(), server_id);
    }
}

/// What a server is answered is what the ledger has of its redemption.
pub proof fn answers_are_what_was_booked(event: RedeemEventView)
    ensures
        event.response().gas_added == event.gas_added,
        event.response().sat_value == event.sat_value,
        event.response().items_accepted == event.items_accepted,
        event.response().issuer_signature_hex == event.issuer_signature_hex,
{
}

/// A redemption spends its presentations under their epoch, every one of them,
/// and no others; what was spent before stays spent.
pub proof fn redemptions_spend_their_presentations(
    ledger: LedgerView,
    event: RedeemEventView,
    epoch: u32,
    tag: Seq<char>,
)
    ensures
        ledger.plus(event).tags.contains((epoch, tag)) <==> ledger.tags.contains((epoch, tag)) || (
        event.epoch == Some(epoch) && exists|i: int|
            0 <= i < event.tags_hex.len() && #[trigger] event.tags_hex[i] == tag),
{
    if event.tags_hex.contains(tag) {
        let i = choose|i: int| 0 <= i < event.tags_hex.len() && event.tags_hex[i] == tag;
        assert(event.tags_hex[i] == tag);
    }
    if exists|i: int| 0 <= i < event.tags_hex.len() && #[trigger] event.tags_hex[i] == tag {
        assert(event.tags_hex.contains(tag));
    }
}

/// A redemption adds one to its server's redemptions, its gas to the gas and
/// its sats to the sats, each up to the largest 64-bit number, and is what the
/// server and the nonce are answered from then on.
pub proof fn redemptions_are_added(ledger: LedgerView, event: RedeemEventView)
    ensures
        ({
            let (was, now) = (
                ledger.totals_of(event.server_id),
                ledger.plus(event).totals_of(event.server_id),
            );
            &&& was.redemptions < u64::MAX ==> now.redemptions == was.redemptions + 1
            &&& was.gas + event.gas_added <= u64::MAX ==> now.gas == was.gas + event.gas_added
            &&& was.gas + event.gas_added > u64::MAX ==> now.gas == u64::MAX
            &&& was.sat + event.sat_value <= u64::MAX ==> now.sat == was.sat + event.sat_value
            &&& was.sat + event.sat_value > u64::MAX ==> now.sat == u64::MAX
            &&& ledger.plus(event).totals.contains_key(event.server_id)
        }),
        ledger.plus(event).answers.contains_key((event.server_id, event.nonce_hex)),
        ledger.plus(event).answers[(event.server_id, event.nonce_hex)] == event,
        LedgerView::empty().totals_of(event.server_id) == (ServerTotals {
            redemptions: 0,
            gas: 0,
            sat: 0,
        }),
{
}

/// What is wrong with the log is told in one sentence: where it is kept, the
/// line where there is one, and why.
pub proof fn log_faults_are_told(path: String, line: usize, why: String)
    ensures
        RedeemStoreError::Open(path, why).text() == "open "@ + path@ + ": "@ + why@,
        RedeemStoreError::Replay(path, line, why).text() == "replay "@ + path@ + " line "@
            + text::decimal_text(line as nat) + ": "@ + why@,
        RedeemStoreError::Append(why).text() == "append: "@ + why@,
{
}

} // verus!
