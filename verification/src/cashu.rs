//! Cashu side: offline token inspection, the idempotency key, and what an
//! answer of the mint means.

use vstd::bytes::*;
use vstd::prelude::*;
use vstd::string::*;

use crate::crypto;
use crate::encoding;
use crate::text;

verus! {

/// What a token claims about itself, read without contacting the mint.
#[derive(Debug, PartialEq, Eq)]
pub struct TokenSummary {
    /// Mint URL exactly as encoded (no trailing slash).
    pub mint: String,
    /// Currency unit as its canonical string (`sat`, `usd`, ..).
    pub unit: String,
    /// Sum of the proof amounts (face value; mints may deduct input fees).
    pub amount: u64,
    /// Proof secrets, sorted and deduplicated.
    pub secrets: Vec<String>,
}

/// The model of a [`TokenSummary`].
pub struct TokenSummaryView {
    pub mint: Seq<char>,
    pub unit: Seq<char>,
    pub amount: u64,
    pub secrets: Seq<Seq<char>>,
}

impl View for TokenSummary {
    type V = TokenSummaryView;

    open spec fn view(&self) -> TokenSummaryView {
        TokenSummaryView {
            mint: self.mint@,
            unit: self.unit@,
            amount: self.amount,
            secrets: text::texts(self.secrets@),
        }
    }
}

impl Clone for TokenSummary {
    fn clone(&self) -> (r: Self)
        ensures
            r@ == self@,
    {
        TokenSummary {
            mint: self.mint.clone(),
            unit: self.unit.clone(),
            amount: self.amount,
            secrets: text::copy_texts(&self.secrets),
        }
    }
}

/// Why a token cannot be summarized.
#[derive(Debug, PartialEq, Eq)]
pub enum TokenParseError {
    /// The text is not a Cashu token, or its amounts do not add up.
    Malformed(String),
    /// The token has no proofs.
    Empty,
    /// The token carries no unit.
    NoUnit,
    /// The token spans several mints.
    MultiMint,
}

/// The model of a [`TokenParseError`].
pub enum TokenParseErrorView {
    Malformed(Seq<char>),
    Empty,
    NoUnit,
    MultiMint,
}

impl View for TokenParseError {
    type V = TokenParseErrorView;

    open spec fn view(&self) -> TokenParseErrorView {
        match self {
            TokenParseError::Malformed(m) => TokenParseErrorView::Malformed(m@),
            TokenParseError::Empty => TokenParseErrorView::Empty,
            TokenParseError::NoUnit => TokenParseErrorView::NoUnit,
            TokenParseError::MultiMint => TokenParseErrorView::MultiMint,
        }
    }
}

impl TokenParseErrorView {
    /// The sentence a client reads.
    pub open spec fn message(self) -> Seq<char> {
        match self {
            TokenParseErrorView::Malformed(m) => "token is not a Cashu token: "@ + m,
            TokenParseErrorView::Empty => "token has no proofs"@,
            TokenParseErrorView::NoUnit => "token carries no unit"@,
            TokenParseErrorView::MultiMint => "token spans several mints"@,
        }
    }
}

impl TokenParseError {
    /// The sentence a client reads.
    pub fn message(&self) -> (r: String)
        ensures
            r@ == self@.message(),
    {
        match self {
            TokenParseError::Malformed(m) => text::joined("token is not a Cashu token: ", m.as_str()),
            TokenParseError::Empty => "token has no proofs".to_owned(),
            TokenParseError::NoUnit => "token carries no unit".to_owned(),
            TokenParseError::MultiMint => "token spans several mints".to_owned(),
        }
    }
}

/// What decoding a token brings to light.
#[derive(Debug, PartialEq, Eq)]
pub struct TokenContents {
    /// The one mint of the token; `None` where it names several or none.
    pub mint: Option<String>,
    /// The currency unit, where the token carries one.
    pub unit: Option<String>,
    /// The sum of the proof amounts, or why there is none.
    pub value: Result<u64, String>,
    /// The secrets of all proofs, in the order of the token.
    pub secrets: Vec<String>,
}

/// The model of [`TokenContents`].
pub struct TokenContentsView {
    pub mint: Option<Seq<char>>,
    pub unit: Option<Seq<char>>,
    pub value: Result<u64, Seq<char>>,
    pub secrets: Seq<Seq<char>>,
}

impl View for TokenContents {
    type V = TokenContentsView;

    open spec fn view(&self) -> TokenContentsView {
        TokenContentsView {
            mint: match self.mint {
                Some(m) => Some(m@),
                None => None,
            },
            unit: match self.unit {
                Some(u) => Some(u@),
                None => None,
            },
            value: match self.value {
                Ok(v) => Ok(v),
                Err(e) => Err(e@),
            },
            secrets: text::texts(self.secrets@),
        }
    }
}

/// What the text of a token decodes to, or why it does not.
pub uninterp spec fn cashu_token(encoded: Seq<char>) -> Result<TokenContentsView, Seq<char>>;

/// The model of what [`read_token`] returns.
pub open spec fn read_view(r: Result<TokenContents, String>) -> Result<
    TokenContentsView,
    Seq<char>,
> {
    match r {
        Ok(c) => Ok(c@),
        Err(e) => Err(e@),
    }
}

/// `cdk::nuts::Token::from_str`, with `mint_url`, `unit`, `value` and
/// `token_secrets` of the token it returns as plain values. The contract
/// claims that all of them depend on the text alone.
#[verifier::external_body]
fn read_token(encoded: &str) -> (r: Result<TokenContents, String>)
    ensures
        read_view(r) == cashu_token(encoded@),
{
    let token: cdk::nuts::Token = encoded.parse().map_err(|e: cdk::nuts::nut00::Error| e.to_string())?;
    Ok(
        TokenContents {
            mint: token.mint_url().ok().map(|m| m.to_string()),
            unit: token.unit().map(|u| u.to_string()),
            value: token.value().map(|v| v.to_u64()).map_err(|e| e.to_string()),
            secrets: token.token_secrets().iter().map(|s| s.to_string()).collect(),
        },
    )
}

/// Whether each text comes before all that follow it.
pub open spec fn strictly_ordered(s: Seq<Seq<char>>) -> bool {
    forall|i: int, j: int| 0 <= i < j < s.len() ==> text::comes_before(#[trigger] s[i], #[trigger] s[j])
}

/// Whether no text comes before one that precedes it in the list.
pub open spec fn weakly_ordered(s: Seq<Seq<char>>) -> bool {
    forall|i: int, j: int|
        0 <= i < j < s.len() ==> !text::comes_before(#[trigger] s[j], #[trigger] s[i])
}

/// Whether two lists hold the same texts, whatever their order and number.
pub open spec fn same_members(a: Seq<Seq<char>>, b: Seq<Seq<char>>) -> bool {
    forall|x: Seq<char>| a.contains(x) <==> #[trigger] b.contains(x)
}

/// The members of `s` in order, each once.
pub open spec fn in_order(s: Seq<Seq<char>>) -> Seq<Seq<char>> {
    choose|r: Seq<Seq<char>>| strictly_ordered(r) && same_members(r, s)
}

/// A strictly ordered list is determined by its members.
pub proof fn order_determines(a: Seq<Seq<char>>, b: Seq<Seq<char>>)
    requires
        strictly_ordered(a),
        strictly_ordered(b),
        same_members(a, b),
    ensures
        a == b,
    decreases a.len(),
{
    if a.len() == 0 {
        if b.len() > 0 {
            assert(b.contains(b[0]));
            assert(a.contains(b[0]));
        }
        assert(a == b);
    } else {
        assert(a.contains(a[0]));
        assert(b.contains(a[0]));
        let k = choose|k: int| 0 <= k < b.len() && b[k] == a[0];
        assert(b.contains(b[0]));
        assert(a.contains(b[0]));
        let m = choose|m: int| 0 <= m < a.len() && a[m] == b[0];
        if k > 0 {
            text::order_irreflexive(a[0]);
            if m > 0 {
                text::order_transitive(b[0], a[0], b[0]);
                text::order_irreflexive(b[0]);
            }
        }
        assert(a[0] == b[0]);
        let x = a.drop_first();
        let y = b.drop_first();
        assert forall|t: Seq<char>| x.contains(t) <==> #[trigger] y.contains(t) by {
            text::order_irreflexive(t);
            if x.contains(t) {
                let i = choose|i: int| 0 <= i < x.len() && x[i] == t;
                assert(a[i + 1] == t);
                assert(a.contains(t));
                assert(b.contains(t));
                let j = choose|j: int| 0 <= j < b.len() && b[j] == t;
                assert(text::comes_before(a[0], a[i + 1]));
                assert(j > 0);
                assert(y[j - 1] == t);
            }
            if y.contains(t) {
                let i = choose|i: int| 0 <= i < y.len() && y[i] == t;
                assert(b[i + 1] == t);
                assert(b.contains(t));
                assert(a.contains(t));
                let j = choose|j: int| 0 <= j < a.len() && a[j] == t;
                assert(text::comes_before(b[0], b[i + 1]));
                assert(j > 0);
                assert(x[j - 1] == t);
            }
        }
        assert(strictly_ordered(x)) by {
            assert forall|i: int, j: int| 0 <= i < j < x.len() implies text::comes_before(
                #[trigger] x[i],
                #[trigger] x[j],
            ) by {
                assert(x[i] == a[i + 1] && x[j] == a[j + 1]);
            }
        }
        assert(strictly_ordered(y)) by {
            assert forall|i: int, j: int| 0 <= i < j < y.len() implies text::comes_before(
                #[trigger] y[i],
                #[trigger] y[j],
            ) by {
                assert(y[i] == b[i + 1] && y[j] == b[j + 1]);
            }
        }
        order_determines(x, y);
        assert(a == seq![a[0]] + x);
        assert(b == seq![b[0]] + y);
    }
}

/// `sort` of std on a list of strings. The contract claims that the same
/// strings are there afterwards, in ascending order; std orders strings by
/// their bytes, which is the order of their characters.
#[verifier::external_body]
fn sort_texts(v: &mut Vec<String>)
    ensures
        weakly_ordered(text::texts(final(v)@)),
        text::texts(final(v)@).to_multiset() == text::texts(old(v)@).to_multiset(),
{
    v.sort();
}

/// The strings of a list in order, each once.
pub fn sorted_distinct(list: Vec<String>) -> (r: Vec<String>)
    ensures
        strictly_ordered(text::texts(r@)),
        same_members(text::texts(r@), text::texts(list@)),
        text::texts(r@) == in_order(text::texts(list@)),
{
    let ghost before = text::texts(list@);
    let mut v = list;
    sort_texts(&mut v);
    let ghost sorted = text::texts(v@);
    let mut r: Vec<String> = Vec::new();
    let mut i: usize = 0;
    while i < v.len()
        invariant
            i <= v.len(),
            sorted == text::texts(v@),
            weakly_ordered(sorted),
            strictly_ordered(text::texts(r@)),
            i == 0 <==> r@.len() == 0,
            i > 0 ==> text::texts(r@).last() == sorted[i - 1],
            forall|x: Seq<char>|
                text::texts(r@).contains(x) <==> #[trigger] sorted.take(i as int).contains(x),
        decreases v.len() - i,
    {
        let ghost was = text::texts(r@);
        let fresh = r.len() == 0 || !text::same(r[r.len() - 1].as_str(), v[i].as_str());
        if fresh {
            r.push(v[i].clone());
        }
        proof {
            let now = text::texts(r@);
            if fresh {
                assert(now == was.push(sorted[i as int]));
                assert forall|a: int, b: int| 0 <= a < b < now.len() implies text::comes_before(
                    #[trigger] now[a],
                    #[trigger] now[b],
                ) by {
                    if b == was.len() {
                        text::order_total(was.last(), sorted[i as int]);
                        assert(text::comes_before(was.last(), sorted[i as int]));
                        if a < was.len() - 1 {
                            assert(text::comes_before(was[a], was[was.len() - 1]));
                            text::order_transitive(was[a], was.last(), sorted[i as int]);
                        }
                    } else {
                        assert(now[a] == was[a] && now[b] == was[b]);
                    }
                }
            }
            let taken = sorted.take(i as int);
            let next = sorted.take(i + 1);
            assert(next == taken.push(sorted[i as int]));
            assert forall|x: Seq<char>| now.contains(x) <==> #[trigger] next.contains(x) by {
                if next.contains(x) {
                    let k = choose|k: int| 0 <= k < next.len() && next[k] == x;
                    if k < i {
                        assert(taken[k] == x);
                        assert(taken.contains(x));
                        assert(was.contains(x));
                        let m = choose|m: int| 0 <= m < was.len() && was[m] == x;
                        assert(now[m] == x);
                    } else {
                        assert(now.last() == x);
                    }
                }
                if now.contains(x) {
                    let m = choose|m: int| 0 <= m < now.len() && now[m] == x;
                    if m < was.len() {
                        assert(was[m] == x);
                        assert(taken.contains(x));
                        let k = choose|k: int| 0 <= k < taken.len() && taken[k] == x;
                        assert(next[k] == x);
                    } else {
                        assert(next[i as int] == x);
                    }
                }
            }
        }
        i += 1;
    }
    proof {
        let out = text::texts(r@);
        assert(sorted.take(i as int) == sorted);
        before.to_multiset_ensures();
        sorted.to_multiset_ensures();
        assert forall|x: Seq<char>| out.contains(x) <==> #[trigger] before.contains(x) by {
            assert(sorted.contains(x) <==> sorted.to_multiset().contains(x));
            assert(before.contains(x) <==> before.to_multiset().contains(x));
            assert(sorted.take(i as int).contains(x) <==> sorted.contains(x));
        }
        assert(strictly_ordered(out) && same_members(out, before));
        let other = in_order(before);
        assert(same_members(other, before));
        assert forall|x: Seq<char>| out.contains(x) <==> #[trigger] other.contains(x) by {
            assert(out.contains(x) <==> before.contains(x));
            assert(other.contains(x) <==> before.contains(x));
        }
        order_determines(out, other);
    }
    r
}

/// What the contents of a token amount to.
pub open spec fn summarized(read: Result<TokenContentsView, Seq<char>>) -> Result<
    TokenSummaryView,
    TokenParseErrorView,
> {
    match read {
        Err(why) => Err(TokenParseErrorView::Malformed(why)),
        Ok(contents) => match (contents.mint, contents.unit, contents.value) {
            (None, _, _) => Err(TokenParseErrorView::MultiMint),
            (_, None, _) => Err(TokenParseErrorView::NoUnit),
            (_, _, Err(why)) => Err(TokenParseErrorView::Malformed(why)),
            (Some(mint), Some(unit), Ok(amount)) => if contents.secrets.len() == 0 {
                Err(TokenParseErrorView::Empty)
            } else {
                Ok(
                    TokenSummaryView {
                        mint: text::without_end_slashes(mint),
                        unit,
                        amount,
                        secrets: in_order(contents.secrets),
                    },
                )
            },
        },
    }
}

/// The model of what [`TokenSummary::parse`] returns.
pub open spec fn summary_view(r: Result<TokenSummary, TokenParseError>) -> Result<
    TokenSummaryView,
    TokenParseErrorView,
> {
    match r {
        Ok(s) => Ok(s@),
        Err(e) => Err(e@),
    }
}

impl TokenSummary {
    /// Summarize what decoding a token brought to light: a token of one mint
    /// with a unit, a value and at least one proof.
    pub fn summarize(read: Result<TokenContents, String>) -> (r: Result<Self, TokenParseError>)
        ensures
            summary_view(r) == summarized(read_view(read)),
    {
        let contents = match read {
            Ok(contents) => contents,
            Err(why) => return Err(TokenParseError::Malformed(why)),
        };
        let mint = match contents.mint {
            Some(mint) => mint,
            None => return Err(TokenParseError::MultiMint),
        };
        let unit = match contents.unit {
            Some(unit) => unit,
            None => return Err(TokenParseError::NoUnit),
        };
        let amount: u64 = match contents.value {
            Ok(amount) => amount,
            Err(why) => return Err(TokenParseError::Malformed(why)),
        };
        if contents.secrets.len() == 0 {
            return Err(TokenParseError::Empty);
        }
        Ok(
            TokenSummary {
                mint: text::trim_end_slashes(mint.as_str()).to_owned(),
                unit,
                amount,
                secrets: sorted_distinct(contents.secrets),
            },
        )
    }

    /// Decode a `cashuA..`/`cashuB..` token and summarize it.
    pub fn parse(encoded: &str) -> (r: Result<Self, TokenParseError>)
        ensures
            summary_view(r) == summarized(cashu_token(text::trimmed(encoded@))),
    {
        TokenSummary::summarize(read_token(text::trim(encoded)))
    }
}

/// Where a new text goes in an ordered list.
spec fn placed(r: Seq<Seq<char>>, x: Seq<char>) -> Seq<Seq<char>>
    decreases r.len(),
{
    if r.len() == 0 {
        seq![x]
    } else if text::comes_before(x, r[0]) {
        seq![x] + r
    } else {
        seq![r[0]] + placed(r.drop_first(), x)
    }
}

proof fn placed_keeps_order(r: Seq<Seq<char>>, x: Seq<char>)
    requires
        strictly_ordered(r),
        !r.contains(x),
    ensures
        strictly_ordered(placed(r, x)),
        forall|t: Seq<char>| #[trigger] placed(r, x).contains(t) <==> (r.contains(t) || t == x),
    decreases r.len(),
{
    let out = placed(r, x);
    if r.len() == 0 {
        assert(out[0] == x);
    } else if text::comes_before(x, r[0]) {
        assert forall|i: int, j: int| 0 <= i < j < out.len() implies text::comes_before(
            #[trigger] out[i],
            #[trigger] out[j],
        ) by {
            if i == 0 {
                if j > 1 {
                    assert(text::comes_before(r[0], r[j - 1]));
                    text::order_transitive(x, r[0], r[j - 1]);
                }
            } else {
                assert(out[i] == r[i - 1] && out[j] == r[j - 1]);
            }
        }
        assert forall|t: Seq<char>| #[trigger] out.contains(t) <==> (r.contains(t) || t == x) by {
            if r.contains(t) {
                let k = choose|k: int| 0 <= k < r.len() && r[k] == t;
                assert(out[k + 1] == t);
            }
            if t == x {
                assert(out[0] == t);
            }
        }
    } else {
        let rest = r.drop_first();
        assert forall|i: int, j: int| 0 <= i < j < rest.len() implies text::comes_before(
            #[trigger] rest[i],
            #[trigger] rest[j],
        ) by {
            assert(rest[i] == r[i + 1] && rest[j] == r[j + 1]);
        }
        if rest.contains(x) {
            let k = choose|k: int| 0 <= k < rest.len() && rest[k] == x;
            assert(r[k + 1] == x);
        }
        placed_keeps_order(rest, x);
        let tail = placed(rest, x);
        text::order_total(x, r[0]);
        assert(r.contains(r[0]));
        assert forall|i: int, j: int| 0 <= i < j < out.len() implies text::comes_before(
            #[trigger] out[i],
            #[trigger] out[j],
        ) by {
            assert(out[j] == tail[j - 1]);
            if i == 0 {
                assert(tail.contains(tail[j - 1]));
                if tail[j - 1] != x {
                    assert(rest.contains(tail[j - 1]));
                    let k = choose|k: int| 0 <= k < rest.len() && rest[k] == tail[j - 1];
                    assert(text::comes_before(r[0], r[k + 1]));
                }
            } else {
                assert(out[i] == tail[i - 1]);
            }
        }
        assert forall|t: Seq<char>| #[trigger] out.contains(t) <==> (r.contains(t) || t == x) by {
            if out.contains(t) {
                let k = choose|k: int| 0 <= k < out.len() && out[k] == t;
                if k > 0 {
                    assert(tail[k - 1] == t);
                    assert(tail.contains(t));
                    if rest.contains(t) {
                        let m = choose|m: int| 0 <= m < rest.len() && rest[m] == t;
                        assert(r[m + 1] == t);
                    }
                }
            }
            if r.contains(t) || t == x {
                if t == r[0] {
                    assert(out[0] == t);
                } else {
                    if r.contains(t) {
                        let k = choose|k: int| 0 <= k < r.len() && r[k] == t;
                        assert(rest[k - 1] == t);
                    }
                    assert(tail.contains(t));
                    let m = choose|m: int| 0 <= m < tail.len() && tail[m] == t;
                    assert(out[m + 1] == t);
                }
            }
        }
    }
}

/// Every list can be put in order.
pub proof fn in_order_is_ordered(s: Seq<Seq<char>>)
    ensures
        strictly_ordered(in_order(s)),
        same_members(in_order(s), s),
    decreases s.len(),
{
    if s.len() == 0 {
        let r = Seq::<Seq<char>>::empty();
        assert(strictly_ordered(r) && same_members(r, s));
    } else {
        let head = s.drop_last();
        in_order_is_ordered(head);
        let r = in_order(head);
        let w = if r.contains(s.last()) {
            r
        } else {
            placed(r, s.last())
        };
        if !r.contains(s.last()) {
            placed_keeps_order(r, s.last());
        }
        assert forall|t: Seq<char>| w.contains(t) <==> #[trigger] s.contains(t) by {
            assert(s == head.push(s.last()));
            assert(r.contains(t) <==> head.contains(t));
            if head.contains(t) {
                let k = choose|k: int| 0 <= k < head.len() && head[k] == t;
                assert(s[k] == t);
            }
            if s.contains(t) && t != s.last() {
                let k = choose|k: int| 0 <= k < s.len() && s[k] == t;
                assert(head[k] == t);
            }
            if t == s.last() {
                assert(s[s.len() - 1] == t);
            }
        }
        assert(strictly_ordered(w) && same_members(w, s));
    }
}

/// The domain separator of the idempotency key, so that the same secrets used
/// in another protocol never collide with a cashier key.
pub open spec fn key_domain() -> Seq<u8> {
    vstd::utf8::encode_utf8("BPIR-CASHIER-TOKEN-KEY-V1"@)
}

/// The bytes hashed for each secret: its byte length, then its bytes.
pub open spec fn secret_blocks(secrets: Seq<Seq<char>>) -> Seq<u8>
    decreases secrets.len(),
{
    if secrets.len() == 0 {
        Seq::empty()
    } else {
        let bytes = vstd::utf8::encode_utf8(secrets.last());
        secret_blocks(secrets.drop_last()) + encoding::le64(bytes.len() as u64) + bytes
    }
}

/// The bytes hashed for a list of secrets: the domain, the number of secrets,
/// and each secret behind its byte length.
pub open spec fn key_message(secrets: Seq<Seq<char>>) -> Seq<u8> {
    key_domain() + encoding::le64(secrets.len() as u64) + secret_blocks(secrets)
}

/// The idempotency key of a list of secrets.
pub open spec fn key_of(secrets: Seq<Seq<char>>) -> Seq<u8> {
    crypto::sha256_digest(key_message(secrets))
}

/// Idempotency key: SHA-256 over the domain tag and the secrets, each prefixed
/// by its byte length so no two secret lists share an encoding. The grant id
/// is its first 16 bytes.
pub fn token_key(secrets: &[String]) -> (r: [u8; 32])
    ensures
        r@ == key_of(text::texts(secrets@)),
{
    let mut message = encoding::copy_bytes("BPIR-CASHIER-TOKEN-KEY-V1".as_bytes());
    let mut count = u64_to_le_bytes(secrets.len() as u64);
    message.append(&mut count);
    let ghost list = text::texts(secrets@);
    let mut i: usize = 0;
    assert(list.take(0) == Seq::<Seq<char>>::empty());
    assert(message@ == key_domain() + encoding::le64(list.len() as u64) + secret_blocks(
        list.take(0),
    ));
    while i < secrets.len()
        invariant
            i <= secrets@.len(),
            list == text::texts(secrets@),
            message@ == key_domain() + encoding::le64(list.len() as u64) + secret_blocks(
                list.take(i as int),
            ),
        decreases secrets.len() - i,
    {
        let bytes = secrets[i].as_str().as_bytes();
        let mut length = u64_to_le_bytes(bytes.len() as u64);
        let mut copy = encoding::copy_bytes(bytes);
        message.append(&mut length);
        message.append(&mut copy);
        proof {
            let next = list.take(i + 1);
            assert(next.drop_last() == list.take(i as int));
            assert(next.last() == secrets@[i as int]@);
            assert(message@ == key_domain() + encoding::le64(list.len() as u64) + secret_blocks(
                next,
            ));
        }
        i += 1;
    }
    assert(list.take(i as int) == list);
    crypto::sha256(message.as_slice())
}

/// The lists of secrets a machine can hold: their number, and the byte length
/// of each, is a 64-bit number.
pub open spec fn fits_machine(secrets: Seq<Seq<char>>) -> bool {
    &&& secrets.len() <= u64::MAX
    &&& forall|i: int|
        0 <= i < secrets.len() ==> vstd::utf8::encode_utf8(#[trigger] secrets[i]).len() <= u64::MAX
}

spec fn block_of(secret: Seq<char>) -> Seq<u8> {
    let bytes = vstd::utf8::encode_utf8(secret);
    encoding::le64(bytes.len() as u64) + bytes
}

spec fn front_blocks(secrets: Seq<Seq<char>>) -> Seq<u8>
    decreases secrets.len(),
{
    if secrets.len() == 0 {
        Seq::empty()
    } else {
        block_of(secrets[0]) + front_blocks(secrets.drop_first())
    }
}

proof fn front_blocks_push(secrets: Seq<Seq<char>>, x: Seq<char>)
    ensures
        front_blocks(secrets.push(x)) == front_blocks(secrets) + block_of(x),
    decreases secrets.len(),
{
    let all = secrets.push(x);
    if secrets.len() == 0 {
        assert(all.drop_first() == Seq::<Seq<char>>::empty());
        assert(front_blocks(all) == block_of(x) + front_blocks(all.drop_first()));
        assert(front_blocks(all) == front_blocks(secrets) + block_of(x));
    } else {
        assert(all.drop_first() == secrets.drop_first().push(x));
        front_blocks_push(secrets.drop_first(), x);
        assert(front_blocks(all) == front_blocks(secrets) + block_of(x));
    }
}

proof fn secret_blocks_from_front(secrets: Seq<Seq<char>>)
    ensures
        secret_blocks(secrets) == front_blocks(secrets),
    decreases secrets.len(),
{
    if secrets.len() > 0 {
        secret_blocks_from_front(secrets.drop_last());
        front_blocks_push(secrets.drop_last(), secrets.last());
        assert(secrets == secrets.drop_last().push(secrets.last()));
        assert(secret_blocks(secrets) == front_blocks(secrets));
    }
}

proof fn front_blocks_injective(a: Seq<Seq<char>>, b: Seq<Seq<char>>)
    requires
        a.len() == b.len(),
        fits_machine(a),
        fits_machine(b),
        front_blocks(a) == front_blocks(b),
    ensures
        a == b,
    decreases a.len(),
{
    if a.len() > 0 {
        let x = vstd::utf8::encode_utf8(a[0]);
        let y = vstd::utf8::encode_utf8(b[0]);
        let fa = front_blocks(a);
        let fb = front_blocks(b);
        encoding::le64_injective(x.len() as u64, y.len() as u64);
        encoding::le64_injective(y.len() as u64, x.len() as u64);
        assert(fa.take(8) == encoding::le64(x.len() as u64));
        assert(fb.take(8) == encoding::le64(y.len() as u64));
        assert(x.len() == y.len());
        let n = x.len() as int;
        assert(fa.subrange(8, 8 + n) == x);
        assert(fb.subrange(8, 8 + n) == y);
        text::encode_utf8_injective(a[0], b[0]);
        assert(fa.skip(8 + n) == front_blocks(a.drop_first()));
        assert(fb.skip(8 + n) == front_blocks(b.drop_first()));
        let ra = a.drop_first();
        let rb = b.drop_first();
        assert(forall|i: int| 0 <= i < ra.len() ==> #[trigger] ra[i] == a[i + 1]);
        assert(forall|i: int| 0 <= i < rb.len() ==> #[trigger] rb[i] == b[i + 1]);
        front_blocks_injective(ra, rb);
        assert(a == seq![a[0]] + ra);
        assert(b == seq![b[0]] + rb);
    } else {
        assert(a == b);
    }
}

/// No two lists of secrets share an encoding: the bytes that are hashed for
/// the key determine the list.
pub proof fn key_message_injective(a: Seq<Seq<char>>, b: Seq<Seq<char>>)
    requires
        fits_machine(a),
        fits_machine(b),
        key_message(a) == key_message(b),
    ensures
        a == b,
{
    let d = key_domain().len() as int;
    let ma = key_message(a);
    let mb = key_message(b);
    encoding::le64_injective(a.len() as u64, b.len() as u64);
    encoding::le64_injective(b.len() as u64, a.len() as u64);
    assert(ma.subrange(d, d + 8) == encoding::le64(a.len() as u64));
    assert(mb.subrange(d, d + 8) == encoding::le64(b.len() as u64));
    assert(ma.skip(d + 8) == secret_blocks(a));
    assert(mb.skip(d + 8) == secret_blocks(b));
    secret_blocks_from_front(a);
    secret_blocks_from_front(b);
    front_blocks_injective(a, b);
}

/// The key does not depend on the order of a token's proofs, nor on how often
/// a secret occurs: two tokens with the same secrets have the same key.
pub proof fn key_order_independent(a: TokenContentsView, b: TokenContentsView)
    requires
        summarized(Ok(a)) is Ok,
        summarized(Ok(b)) is Ok,
        same_members(a.secrets, b.secrets),
    ensures
        key_of(summarized(Ok(a))->Ok_0.secrets) == key_of(summarized(Ok(b))->Ok_0.secrets),
{
    let x = in_order(a.secrets);
    let y = in_order(b.secrets);
    in_order_is_ordered(a.secrets);
    in_order_is_ordered(b.secrets);
    assert forall|t: Seq<char>| x.contains(t) <==> #[trigger] y.contains(t) by {
        assert(x.contains(t) <==> a.secrets.contains(t));
        assert(y.contains(t) <==> b.secrets.contains(t));
    }
    order_determines(x, y);
}

/// Why a swap did not produce money in the cashier's wallet.
#[derive(Debug, PartialEq, Eq)]
pub enum SwapError {
    /// The mint refused the token (already spent, bad signature, unknown
    /// keyset, ..). The token is worthless; answer 402.
    Rejected(String),
    /// The mint could not be reached or answered with a server error before
    /// accepting anything. The token is still spendable; answer 503.
    Unavailable(String),
    /// The request reached the mint but the outcome is unknown (timeout after
    /// sending). The token may or may not be spent; answer 503 and keep the
    /// `pending` marker so a retry is reported honestly.
    Unknown(String),
}

/// The model of a [`SwapError`].
pub enum SwapErrorView {
    Rejected(Seq<char>),
    Unavailable(Seq<char>),
    Unknown(Seq<char>),
}

impl View for SwapError {
    type V = SwapErrorView;

    open spec fn view(&self) -> SwapErrorView {
        match self {
            SwapError::Rejected(m) => SwapErrorView::Rejected(m@),
            SwapError::Unavailable(m) => SwapErrorView::Unavailable(m@),
            SwapError::Unknown(m) => SwapErrorView::Unknown(m@),
        }
    }
}

impl Clone for SwapError {
    fn clone(&self) -> (r: Self)
        ensures
            r@ == self@,
    {
        match self {
            SwapError::Rejected(m) => SwapError::Rejected(m.clone()),
            SwapError::Unavailable(m) => SwapError::Unavailable(m.clone()),
            SwapError::Unknown(m) => SwapError::Unknown(m.clone()),
        }
    }
}

impl SwapErrorView {
    /// The sentence an operator reads.
    pub open spec fn message(self) -> Seq<char> {
        match self {
            SwapErrorView::Rejected(m) => "rejected by the mint: "@ + m,
            SwapErrorView::Unavailable(m) => "mint unavailable: "@ + m,
            SwapErrorView::Unknown(m) => "swap outcome unknown: "@ + m,
        }
    }
}

impl SwapError {
    /// The sentence an operator reads.
    pub fn message(&self) -> (r: String)
        ensures
            r@ == self@.message(),
    {
        match self {
            SwapError::Rejected(m) => text::joined("rejected by the mint: ", m.as_str()),
            SwapError::Unavailable(m) => text::joined("mint unavailable: ", m.as_str()),
            SwapError::Unknown(m) => text::joined("swap outcome unknown: ", m.as_str()),
        }
    }
}

/// What the wallet reported when a swap failed.
#[derive(Debug, PartialEq, Eq)]
pub struct WalletFault {
    /// The report as one sentence.
    pub report: String,
    /// Where the mint's HTTP answer is at fault: its status, if the mint
    /// answered at all, and its message.
    pub http: Option<(Option<u16>, String)>,
}

/// The model of a [`WalletFault`].
pub struct WalletFaultView {
    pub report: Seq<char>,
    pub http: Option<(Option<u16>, Seq<char>)>,
}

impl View for WalletFault {
    type V = WalletFaultView;

    open spec fn view(&self) -> WalletFaultView {
        WalletFaultView {
            report: self.report@,
            http: match self.http {
                Some((status, message)) => Some((status, message@)),
                None => None,
            },
        }
    }
}

/// A mint that cannot be reached or fails itself is unavailable; every other
/// fault is a refusal.
pub open spec fn classified(fault: WalletFaultView) -> SwapErrorView {
    match fault.http {
        Some((None, message)) => SwapErrorView::Unavailable(message),
        Some((Some(status), message)) => if status >= 500 {
            SwapErrorView::Unavailable(
                "mint answered "@ + text::decimal_text(status as nat) + ": "@ + message,
            )
        } else {
            SwapErrorView::Rejected(fault.report)
        },
        None => SwapErrorView::Rejected(fault.report),
    }
}

/// Tell a refusal by the mint from a mint that is not there.
pub fn classify(fault: WalletFault) -> (r: SwapError)
    ensures
        r@ == classified(fault@),
{
    match fault.http {
        Some((None, message)) => SwapError::Unavailable(message),
        Some((Some(status), message)) => if status >= 500 {
            let mut m = text::joined3(
                "mint answered ",
                text::decimal(status as u128).as_str(),
                ": ",
            );
            m.append(message.as_str());
            SwapError::Unavailable(m)
        } else {
            SwapError::Rejected(fault.report)
        },
        None => SwapError::Rejected(fault.report),
    }
}

/// How an attempt to swap a token ended.
#[derive(Debug, PartialEq, Eq)]
pub enum SwapReply {
    /// No wallet serves the token's mint and unit.
    NoWallet,
    /// The mint credited this amount.
    Credited(u64),
    /// The wallet reported a fault.
    Failed(WalletFault),
    /// The mint did not answer within this time.
    TimedOut(String),
}

/// The model of a [`SwapReply`].
pub enum SwapReplyView {
    NoWallet,
    Credited(u64),
    Failed(WalletFaultView),
    TimedOut(Seq<char>),
}

impl View for SwapReply {
    type V = SwapReplyView;

    open spec fn view(&self) -> SwapReplyView {
        match self {
            SwapReply::NoWallet => SwapReplyView::NoWallet,
            SwapReply::Credited(amount) => SwapReplyView::Credited(*amount),
            SwapReply::Failed(fault) => SwapReplyView::Failed(fault@),
            SwapReply::TimedOut(limit) => SwapReplyView::TimedOut(limit@),
        }
    }
}

/// The model of the outcome of a swap.
pub open spec fn swap_view(r: Result<u64, SwapError>) -> Result<u64, SwapErrorView> {
    match r {
        Ok(received) => Ok(received),
        Err(e) => Err(e@),
    }
}

/// What the end of a swap means for the cashier: the amount that the mint
/// credited, or why there is none. Only silence leaves the outcome unknown.
pub open spec fn swap_outcome(
    summary: TokenSummaryView,
    reply: SwapReplyView,
) -> Result<u64, SwapErrorView> {
    match reply {
        SwapReplyView::NoWallet => Err(
            SwapErrorView::Rejected(
                "no wallet for "@ + summary.mint + " ("@ + summary.unit + ")"@,
            ),
        ),
        SwapReplyView::Credited(amount) => Ok(amount),
        SwapReplyView::Failed(fault) => Err(classified(fault)),
        SwapReplyView::TimedOut(limit) => Err(
            SwapErrorView::Unknown("no answer from the mint within "@ + limit),
        ),
    }
}

/// What the end of a swap means for the cashier.
pub fn received(summary: &TokenSummary, reply: SwapReply) -> (r: Result<u64, SwapError>)
    ensures
        swap_view(r) == swap_outcome(summary@, reply@),
{
    match reply {
        SwapReply::NoWallet => {
            let mut m = text::joined3("no wallet for ", summary.mint.as_str(), " (");
            m.append(summary.unit.as_str());
            m.append(")");
            Err(SwapError::Rejected(m))
        },
        SwapReply::Credited(amount) => Ok(amount),
        SwapReply::Failed(fault) => Err(classify(fault)),
        SwapReply::TimedOut(limit) => Err(
            SwapError::Unknown(text::joined("no answer from the mint within ", limit.as_str())),
        ),
    }
}

/// Whether one pair of texts comes before another: by the first texts, and
/// by the second where the first are the same.
pub open spec fn pair_before(a: (Seq<char>, Seq<char>), b: (Seq<char>, Seq<char>)) -> bool {
    text::comes_before(a.0, b.0) || (a.0 == b.0 && text::comes_before(a.1, b.1))
}

/// Whether each pair comes before all that follow it.
pub open spec fn ascending(s: Seq<(Seq<char>, Seq<char>)>) -> bool {
    forall|i: int, j: int| 0 <= i < j < s.len() ==> pair_before(#[trigger] s[i], #[trigger] s[j])
}

/// Whether a wallet serves a mint and a unit: the mint is one of `mints`
/// without its trailing slashes, and the unit is one of `units`.
pub open spec fn served(
    mints: Seq<Seq<char>>,
    units: Seq<Seq<char>>,
    pair: (Seq<char>, Seq<char>),
) -> bool {
    &&& exists|i: int|
        0 <= i < mints.len() && text::without_end_slashes(#[trigger] mints[i]) == pair.0
    &&& units.contains(pair.1)
}

/// The model of a list of pairs of texts.
pub open spec fn pairs_view(v: Seq<(String, String)>) -> Seq<(Seq<char>, Seq<char>)> {
    v.map_values(|p: (String, String)| (p.0@, p.1@))
}

/// Mints without their trailing slashes.
fn bare_mints(mints: &Vec<String>) -> (r: Vec<String>)
    ensures
        r@.len() == mints@.len(),
        forall|i: int|
            0 <= i < r@.len() ==> #[trigger] text::texts(r@)[i] == text::without_end_slashes(
                text::texts(mints@)[i],
            ),
{
    let mut r: Vec<String> = Vec::new();
    let mut i: usize = 0;
    while i < mints.len()
        invariant
            i <= mints.len(),
            r@.len() == i,
            forall|j: int|
                0 <= j < i ==> #[trigger] text::texts(r@)[j] == text::without_end_slashes(
                    text::texts(mints@)[j],
                ),
        decreases mints.len() - i,
    {
        let ghost before = text::texts(r@);
        r.push(text::trim_end_slashes(mints[i].as_str()).to_owned());
        assert(text::texts(r@) == before.push(
            text::without_end_slashes(text::texts(mints@)[i as int]),
        ));
        i += 1;
    }
    r
}

/// The mint and unit that each wallet serves, each pair once, in ascending
/// order.
pub fn wallet_keys(mints: &Vec<String>, units: &Vec<String>) -> (r: Vec<(String, String)>)
    ensures
        ascending(pairs_view(r@)),
        forall|p: (Seq<char>, Seq<char>)|
            pairs_view(r@).contains(p) <==> #[trigger] served(
                text::texts(mints@),
                text::texts(units@),
                p,
            ),
{
    let bare = bare_mints(mints);
    let ghost bare_texts = text::texts(bare@);
    let first = sorted_distinct(bare);
    let second = sorted_distinct(text::copy_texts(units));
    let ghost ms = text::texts(first@);
    let ghost us = text::texts(second@);
    let mut r: Vec<(String, String)> = Vec::new();
    let mut i: usize = 0;
    while i < first.len()
        invariant
            i <= first.len(),
            ms == text::texts(first@),
            us == text::texts(second@),
            strictly_ordered(ms),
            strictly_ordered(us),
            ascending(pairs_view(r@)),
            forall|p: (Seq<char>, Seq<char>)| #[trigger]
                pairs_view(r@).contains(p) <==> ms.take(i as int).contains(p.0) && us.contains(p.1),
        decreases first.len() - i,
    {
        let mut j: usize = 0;
        while j < second.len()
            invariant
                i < first.len(),
                j <= second.len(),
                ms == text::texts(first@),
                us == text::texts(second@),
                strictly_ordered(ms),
                strictly_ordered(us),
                ascending(pairs_view(r@)),
                forall|p: (Seq<char>, Seq<char>)| #[trigger]
                    pairs_view(r@).contains(p) <==> (ms.take(i as int).contains(p.0)
                        && us.contains(p.1)) || (p.0 == ms[i as int] && us.take(
                        j as int,
                    ).contains(p.1)),
            decreases second.len() - j,
        {
            let ghost before = pairs_view(r@);
            r.push((first[i].clone(), second[j].clone()));
            proof {
                let x = (ms[i as int], us[j as int]);
                assert(pairs_view(r@) == before.push(x));
                assert forall|k: int| 0 <= k < before.len() implies pair_before(
                    #[trigger] before[k],
                    x,
                ) by {
                    assert(before.contains(before[k]));
                    if before[k].0 != x.0 {
                        let m = choose|m: int|
                            0 <= m < i && ms.take(i as int)[m] == before[k].0;
                        assert(ms[m] == before[k].0);
                    } else {
                        if ms.take(i as int).contains(x.0) {
                            let m = choose|m: int| 0 <= m < i && ms.take(i as int)[m] == x.0;
                            assert(ms[m] == x.0);
                            text::order_irreflexive(x.0);
                        }
                        let m = choose|m: int|
                            0 <= m < j && us.take(j as int)[m] == before[k].1;
                        assert(us[m] == before[k].1);
                    }
                }
                broadcast use vstd::seq_lib::lemma_seq_contains_after_push;

                assert(us.take(j + 1) == us.take(j as int).push(us[j as int]));
            }
            j += 1;
        }
        proof {
            broadcast use vstd::seq_lib::lemma_seq_contains_after_push;

            assert(us.take(j as int) == us);
            assert(ms.take(i + 1) == ms.take(i as int).push(ms[i as int]));
        }
        i += 1;
    }
    proof {
        let given = text::texts(mints@);
        assert(ms.take(i as int) == ms);
        assert forall|p: (Seq<char>, Seq<char>)|
            pairs_view(r@).contains(p) <==> #[trigger] served(given, text::texts(units@), p) by {
            assert(ms.contains(p.0) <==> bare_texts.contains(p.0));
            assert(us.contains(p.1) <==> text::texts(units@).contains(p.1));
            if bare_texts.contains(p.0) {
                let k = choose|k: int| 0 <= k < bare_texts.len() && bare_texts[k] == p.0;
                assert(text::without_end_slashes(given[k]) == p.0);
            }
            if served(given, text::texts(units@), p) {
                let k = choose|k: int|
                    0 <= k < given.len() && text::without_end_slashes(#[trigger] given[k]) == p.0;
                assert(bare_texts[k] == p.0);
            }
        }
    }
    r
}

/// A balance, or why it could not be read.
pub open spec fn reading_view(r: Result<u64, String>) -> Result<u64, Seq<char>> {
    match r {
        Ok(amount) => Ok(amount),
        Err(why) => Err(why@),
    }
}

/// The mints and units of a list of balances.
pub open spec fn balance_keys(v: Seq<((String, String), Result<u64, String>)>) -> Seq<
    (Seq<char>, Seq<char>),
> {
    v.map_values(|line: ((String, String), Result<u64, String>)| (line.0.0@, line.0.1@))
}

/// What each wallet holds: the wallets in the order of `keys`, each with its
/// own reading. One that could not be read hides no other.
pub fn balances(keys: &Vec<(String, String)>, readings: &Vec<Result<u64, String>>) -> (r: Vec<
    ((String, String), Result<u64, String>),
>)
    requires
        keys@.len() == readings@.len(),
    ensures
        balance_keys(r@) == pairs_view(keys@),
        forall|i: int|
            0 <= i < r@.len() ==> reading_view((#[trigger] r@[i]).1) == reading_view(readings@[i]),
{
    let mut r: Vec<((String, String), Result<u64, String>)> = Vec::new();
    let mut i: usize = 0;
    while i < keys.len()
        invariant
            i <= keys.len(),
            keys@.len() == readings@.len(),
            r@.len() == i,
            forall|j: int|
                0 <= j < i ==> {
                    &&& (#[trigger] r@[j]).0.0@ == keys@[j].0@
                    &&& r@[j].0.1@ == keys@[j].1@
                    &&& reading_view(r@[j].1) == reading_view(readings@[j])
                },
        decreases keys.len() - i,
    {
        let reading = match &readings[i] {
            Ok(amount) => Ok(*amount),
            Err(why) => Err(why.clone()),
        };
        r.push(((keys[i].0.clone(), keys[i].1.clone()), reading));
        i += 1;
    }
    assert(balance_keys(r@) == pairs_view(keys@));
    r
}

/// Only a mint that could not be reached, or that failed itself, is
/// unavailable: one that gave no status, or a status of 500 and above. Any
/// lower status, and any fault that is not of the mint's answer, is a refusal.
/// A fault is never an unknown outcome.
pub proof fn server_errors_leave_the_token_spendable(
    report: Seq<char>,
    message: Seq<char>,
    status: u16,
)
    ensures
        classified(WalletFaultView { report, http: None }) == SwapErrorView::Rejected(report),
        classified(WalletFaultView { report, http: Some((None, message)) })
            == SwapErrorView::Unavailable(message),
        500 <= status ==> classified(
            WalletFaultView { report, http: Some((Some(status), message)) },
        ) is Unavailable,
        status < 500 ==> classified(WalletFaultView { report, http: Some((Some(status), message)) })
            == SwapErrorView::Rejected(report),
        forall|fault: WalletFaultView| !(#[trigger] classified(fault) is Unknown),
{
}

/// What a mint answers with a status above another that is a server error is a
/// server error too.
pub proof fn higher_statuses_are_no_less_server_errors(
    report: Seq<char>,
    message: Seq<char>,
    a: u16,
    b: u16,
)
    requires
        a <= b,
        classified(WalletFaultView { report, http: Some((Some(a), message)) }) is Unavailable,
    ensures
        classified(WalletFaultView { report, http: Some((Some(b), message)) }) is Unavailable,
{
}

/// A swap is money exactly if the mint credited something, and then it is that
/// amount; its outcome is unknown exactly if no answer came in time; a token
/// that no wallet serves is refused.
pub proof fn swaps_end_as_the_mint_says(
    summary: TokenSummaryView,
    reply: SwapReplyView,
    amount: u64,
)
    ensures
        swap_outcome(summary, reply) == Ok::<u64, SwapErrorView>(amount) <==> reply
            == SwapReplyView::Credited(amount),
        swap_outcome(summary, reply) is Ok <==> reply is Credited,
        (swap_outcome(summary, reply) matches Err(e) && e is Unknown) <==> reply is TimedOut,
        reply is NoWallet ==> (swap_outcome(summary, reply) matches Err(e) && e is Rejected),
        reply matches SwapReplyView::Failed(fault) ==> swap_outcome(summary, reply) == Err::<
            u64,
            SwapErrorView,
        >(classified(fault)),
{
}

/// A token is worth looking at if it names one mint and a unit, its proofs add
/// up and there is one: its summary has the mint without slashes at its end,
/// the unit, the sum, and every secret once, in order.
pub proof fn whole_tokens_are_summarized(contents: TokenContentsView, mint: Seq<char>, slashes: nat)
    requires
        mint.len() > 0 ==> mint.last() != '/',
        contents.mint == Some(mint + Seq::new(slashes, |i: int| '/')),
        contents.unit is Some,
        contents.value is Ok,
        contents.secrets.len() > 0,
    ensures
        summarized(Ok(contents)) matches Ok(summary) && {
            &&& summary.mint == mint
            &&& Some(summary.unit) == contents.unit
            &&& Ok::<u64, Seq<char>>(summary.amount) == contents.value
            &&& strictly_ordered(summary.secrets)
            &&& forall|secret: Seq<char>|
                contents.secrets.contains(secret) <==> #[trigger] summary.secrets.contains(secret)
        },
{
    text::end_slashes_come_off(mint, slashes);
    in_order_is_ordered(contents.secrets);
    let secrets = in_order(contents.secrets);
    assert forall|secret: Seq<char>|
        contents.secrets.contains(secret) <==> #[trigger] secrets.contains(secret) by {
        assert(secrets.contains(secret) <==> contents.secrets.contains(secret));
    }
}

/// Every other token is refused with what is wrong with it: it cannot be read,
/// names no single mint, carries no unit, does not add up or has no proof.
pub proof fn broken_tokens_are_refused(read: Result<TokenContentsView, Seq<char>>)
    ensures
        read matches Err(why) ==> summarized(read) == Err::<TokenSummaryView, TokenParseErrorView>(
            TokenParseErrorView::Malformed(why),
        ),
        read matches Ok(contents) ==> {
            &&& contents.mint is None ==> summarized(read) == Err::<
                TokenSummaryView,
                TokenParseErrorView,
            >(TokenParseErrorView::MultiMint)
            &&& contents.mint is Some && contents.unit is None ==> summarized(read) == Err::<
                TokenSummaryView,
                TokenParseErrorView,
            >(TokenParseErrorView::NoUnit)
            &&& contents.mint is Some && contents.unit is Some && contents.value is Err
                ==> summarized(read) == Err::<TokenSummaryView, TokenParseErrorView>(
                TokenParseErrorView::Malformed(contents.value->Err_0),
            )
            &&& contents.mint is Some && contents.unit is Some && contents.value is Ok
                && contents.secrets.len() == 0 ==> summarized(read) == Err::<
                TokenSummaryView,
                TokenParseErrorView,
            >(TokenParseErrorView::Empty)
        },
{
}

/// There is a wallet for every mint of the list, without the slashes at its
/// end, and every unit.
pub proof fn every_mint_and_unit_is_served(
    mints: Seq<Seq<char>>,
    units: Seq<Seq<char>>,
    i: int,
    j: int,
    mint: Seq<char>,
    slashes: nat,
)
    requires
        0 <= i < mints.len(),
        0 <= j < units.len(),
        mint.len() > 0 ==> mint.last() != '/',
        mints[i] == mint + Seq::new(slashes, |k: int| '/'),
    ensures
        served(mints, units, (mint, units[j])),
{
    text::end_slashes_come_off(mint, slashes);
}

/// A wallet is of a listed mint and a listed unit.
pub proof fn only_listed_pairs_are_served(
    mints: Seq<Seq<char>>,
    units: Seq<Seq<char>>,
    pair: (Seq<char>, Seq<char>),
)
    requires
        served(mints, units, pair),
    ensures
        exists|i: int|
            0 <= i < mints.len() && text::differs_in_end_slashes(#[trigger] mints[i], pair.0),
        exists|j: int| 0 <= j < units.len() && #[trigger] units[j] == pair.1,
{
    let i = choose|i: int|
        0 <= i < mints.len() && text::without_end_slashes(#[trigger] mints[i]) == pair.0;
    text::only_end_slashes_come_off(mints[i]);
}

/// The key of a token is the SHA-256 digest of the domain tag, the number of
/// its secrets, and every one of them behind its length in bytes, in the order
/// in which they are listed.
pub proof fn keys_are_digests_of_every_secret(
    a: Seq<Seq<char>>,
    b: Seq<Seq<char>>,
    secret: Seq<char>,
)
    ensures
        key_of(a) == crypto::sha256_digest(
            vstd::utf8::encode_utf8("BPIR-CASHIER-TOKEN-KEY-V1"@)
                + vstd::bytes::spec_u64_to_le_bytes(a.len() as u64) + secret_blocks(a),
        ),
        secret_blocks(a + b) == secret_blocks(a) + secret_blocks(b),
        secret_blocks(seq![secret]) == vstd::bytes::spec_u64_to_le_bytes(
            vstd::utf8::encode_utf8(secret).len() as u64,
        ) + vstd::utf8::encode_utf8(secret),
    decreases b.len(),
{
    let one = seq![secret];
    assert(one.drop_last() == Seq::<Seq<char>>::empty());
    assert(secret_blocks(one.drop_last()) == Seq::<u8>::empty());
    if b.len() > 0 {
        assert((a + b).drop_last() == a + b.drop_last());
        keys_are_digests_of_every_secret(a, b.drop_last(), secret);
    } else {
        assert(a + b == a);
    }
}

/// What is wrong with a token or a swap is told in one sentence, with its
/// reason; a server error of the mint with its status.
pub proof fn token_faults_are_told(why: Seq<char>, report: Seq<char>, status: u16)
    ensures
        TokenParseErrorView::Malformed(why).message() == "token is not a Cashu token: "@ + why,
        TokenParseErrorView::Empty.message() == "token has no proofs"@,
        TokenParseErrorView::NoUnit.message() == "token carries no unit"@,
        TokenParseErrorView::MultiMint.message() == "token spans several mints"@,
        SwapErrorView::Rejected(why).message() == "rejected by the mint: "@ + why,
        SwapErrorView::Unavailable(why).message() == "mint unavailable: "@ + why,
        SwapErrorView::Unknown(why).message() == "swap outcome unknown: "@ + why,
        status >= 500 ==> classified(WalletFaultView { report, http: Some((Some(status), why)) })
            == SwapErrorView::Unavailable(
            "mint answered "@ + text::decimal_text(status as nat) + ": "@ + why,
        ),
{
}

} // verus!
