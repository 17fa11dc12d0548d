//! ARC credentials as credits: per-epoch issuer keys derived from one master
//! seed, blind issuance for `POST /v2/credentials`, and the verification of
//! presentations for `POST /v2/redeem`.
//!
//! The credential scheme itself (its group, its proofs, its encodings) is the
//! caller's: each method takes the operations it needs as functions.

use vstd::bytes::*;
use vstd::prelude::*;

use crate::credit;
use crate::credit::ArcInfoV2;
use crate::crypto;
use crate::encoding;
use crate::text;

verus! {

/// Why something of the ARC scheme is not accepted.
#[derive(Debug, PartialEq, Eq)]
pub enum ArcError {
    /// What is malformed, and why.
    Malformed(&'static str, String),
    /// Why the presentation does not verify.
    Invalid(String),
}

/// The model of an [`ArcError`].
pub enum ArcErrorView {
    Malformed(Seq<char>, Seq<char>),
    Invalid(Seq<char>),
}

impl View for ArcError {
    type V = ArcErrorView;

    open spec fn view(&self) -> ArcErrorView {
        match self {
            ArcError::Malformed(what, why) => ArcErrorView::Malformed(what@, why@),
            ArcError::Invalid(why) => ArcErrorView::Invalid(why@),
        }
    }
}

impl ArcErrorView {
    /// The error as one sentence.
    pub open spec fn message(self) -> Seq<char> {
        match self {
            ArcErrorView::Malformed(what, why) => "malformed ARC "@ + what + ": "@ + why,
            ArcErrorView::Invalid(why) => "ARC presentation does not verify: "@ + why,
        }
    }
}

impl ArcError {
    /// The error as one sentence.
    pub fn message(&self) -> (r: String)
        ensures
            r@ == self@.message(),
    {
        match self {
            ArcError::Malformed(what, why) => {
                let mut m = text::joined3("malformed ARC ", what, ": ");
                m.append(why.as_str());
                m
            },
            ArcError::Invalid(why) => text::joined(
                "ARC presentation does not verify: ",
                why.as_str(),
            ),
        }
    }
}

/// The four secret scalars of an epoch, each as its 32 bytes.
#[derive(Clone, Copy, Debug, PartialEq, Eq)]
pub struct ArcKeys {
    pub x0: [u8; 32],
    pub x1: [u8; 32],
    pub x2: [u8; 32],
    pub x0_blinding: [u8; 32],
}

/// The info string of one draw: the epoch, the index of the scalar, and the
/// number of draws for it that came before.
pub open spec fn draw_info(epoch: u32, index: u8, attempt: u8) -> Seq<u8> {
    encoding::le32(epoch) + seq![index, attempt]
}

/// The bytes of one draw for a scalar of an epoch's keys.
pub open spec fn draw_block(seed: Seq<u8>, epoch: u32, index: u8, attempt: u8) -> Seq<u8> {
    crypto::hkdf_block(
        vstd::utf8::encode_utf8("BPIR-ARC-EPOCH-KEYS-V1"@),
        seed,
        draw_info(epoch, index, attempt),
    )
}

/// Whether a reading of 32 bytes as a scalar gave one that is not zero.
pub open spec fn usable(scalar: Option<[u8; 32]>) -> bool {
    match scalar {
        Some(s) => s@ != Seq::new(32, |i: int| 0u8),
        None => false,
    }
}

/// Whether `scalar` may read the bytes as `read`.
pub open spec fn reads_as<F: Fn([u8; 32]) -> Option<[u8; 32]>>(
    scalar: F,
    bytes: Seq<u8>,
    read: Option<[u8; 32]>,
) -> bool {
    exists|block: [u8; 32]| block@ == bytes && #[trigger] scalar.ensures((block,), read)
}

/// Whether the draw is one that is made again: `scalar` may read it as no
/// scalar or as zero.
pub open spec fn redrawn<F: Fn([u8; 32]) -> Option<[u8; 32]>>(
    scalar: F,
    seed: Seq<u8>,
    epoch: u32,
    index: u8,
    attempt: u8,
) -> bool {
    exists|read: Option<[u8; 32]>|
        !usable(read) && #[trigger] reads_as(scalar, draw_block(seed, epoch, index, attempt), read)
}

/// Whether `key` is the first usable draw for a scalar of an epoch's keys.
pub open spec fn first_usable<F: Fn([u8; 32]) -> Option<[u8; 32]>>(
    scalar: F,
    seed: Seq<u8>,
    epoch: u32,
    index: u8,
    key: [u8; 32],
) -> bool {
    exists|n: u8|
        {
            &&& usable(Some(key))
            &&& #[trigger] reads_as(scalar, draw_block(seed, epoch, index, n), Some(key))
            &&& forall|m: u8| m < n ==> #[trigger] redrawn(scalar, seed, epoch, index, m)
        }
}

/// Whether `keys` are the keys of an epoch, as `scalar` reads the draws.
pub open spec fn keys_of<F: Fn([u8; 32]) -> Option<[u8; 32]>>(
    scalar: F,
    seed: Seq<u8>,
    epoch: u32,
    keys: ArcKeys,
) -> bool {
    &&& first_usable(scalar, seed, epoch, 0, keys.x0)
    &&& first_usable(scalar, seed, epoch, 1, keys.x1)
    &&& first_usable(scalar, seed, epoch, 2, keys.x2)
    &&& first_usable(scalar, seed, epoch, 3, keys.x0_blinding)
}

/// Whether one of the four scalars has no usable draw at all.
pub open spec fn keyless<F: Fn([u8; 32]) -> Option<[u8; 32]>>(
    scalar: F,
    seed: Seq<u8>,
    epoch: u32,
) -> bool {
    exists|index: u8|
        index < 4 && #[trigger] exhausted(scalar, seed, epoch, index)
}

/// Whether every draw for a scalar is made again.
pub open spec fn exhausted<F: Fn([u8; 32]) -> Option<[u8; 32]>>(
    scalar: F,
    seed: Seq<u8>,
    epoch: u32,
    index: u8,
) -> bool {
    forall|m: u8| #[trigger] redrawn(scalar, seed, epoch, index, m)
}

/// No two draws share an info string.
pub proof fn draws_are_distinct(
    epoch: u32,
    index: u8,
    attempt: u8,
    other_epoch: u32,
    other_index: u8,
    other_attempt: u8,
)
    requires
        draw_info(epoch, index, attempt) == draw_info(other_epoch, other_index, other_attempt),
    ensures
        epoch == other_epoch,
        index == other_index,
        attempt == other_attempt,
{
    let a = draw_info(epoch, index, attempt);
    let b = draw_info(other_epoch, other_index, other_attempt);
    encoding::le32_injective(epoch, other_epoch);
    encoding::le32_injective(other_epoch, epoch);
    assert(a.take(4) == encoding::le32(epoch));
    assert(b.take(4) == encoding::le32(other_epoch));
    assert(a[4] == index && a[5] == attempt);
    assert(b[4] == other_index && b[5] == other_attempt);
}

/// Whether `scalar` reads the same bytes always the same way.
pub open spec fn reads_one_way<F: Fn([u8; 32]) -> Option<[u8; 32]>>(scalar: F) -> bool {
    forall|bytes: Seq<u8>, a: Option<[u8; 32]>, b: Option<[u8; 32]>| #[trigger]
        reads_as(scalar, bytes, a) && #[trigger] reads_as(scalar, bytes, b) ==> a == b
}

proof fn first_usable_is_one<F: Fn([u8; 32]) -> Option<[u8; 32]>>(
    scalar: F,
    seed: Seq<u8>,
    epoch: u32,
    index: u8,
    a: [u8; 32],
    b: [u8; 32],
)
    requires
        reads_one_way(scalar),
        first_usable(scalar, seed, epoch, index, a),
        first_usable(scalar, seed, epoch, index, b),
    ensures
        a == b,
{
    let n = choose|n: u8|
        {
            &&& usable(Some(a))
            &&& #[trigger] reads_as(scalar, draw_block(seed, epoch, index, n), Some(a))
            &&& forall|m: u8| m < n ==> #[trigger] redrawn(scalar, seed, epoch, index, m)
        };
    let k = choose|n: u8|
        {
            &&& usable(Some(b))
            &&& #[trigger] reads_as(scalar, draw_block(seed, epoch, index, n), Some(b))
            &&& forall|m: u8| m < n ==> #[trigger] redrawn(scalar, seed, epoch, index, m)
        };
    if n < k {
        assert(redrawn(scalar, seed, epoch, index, n));
    } else if k < n {
        assert(redrawn(scalar, seed, epoch, index, k));
    }
}

/// The keys of an epoch depend on the seed and the epoch alone.
pub proof fn keys_are_determined<F: Fn([u8; 32]) -> Option<[u8; 32]>>(
    scalar: F,
    seed: Seq<u8>,
    epoch: u32,
    a: ArcKeys,
    b: ArcKeys,
)
    requires
        reads_one_way(scalar),
        keys_of(scalar, seed, epoch, a),
        keys_of(scalar, seed, epoch, b),
    ensures
        a == b,
{
    first_usable_is_one(scalar, seed, epoch, 0, a.x0, b.x0);
    first_usable_is_one(scalar, seed, epoch, 1, a.x1, b.x1);
    first_usable_is_one(scalar, seed, epoch, 2, a.x2, b.x2);
    first_usable_is_one(scalar, seed, epoch, 3, a.x0_blinding, b.x0_blinding);
}

/// The issuer side of ARC for every epoch.
pub struct ArcIssuer {
    seed: [u8; 32],
    epoch_secs: u64,
    grace_secs: u64,
    presentation_limit: u32,
}

impl ArcIssuer {
    /// The master seed.
    pub closed spec fn seed(&self) -> Seq<u8> {
        self.seed@
    }

    /// The seconds of an epoch.
    pub closed spec fn epoch_length(&self) -> u64 {
        self.epoch_secs
    }

    /// The seconds after an epoch in which its credentials still count.
    pub closed spec fn grace(&self) -> u64 {
        self.grace_secs
    }

    /// The presentations per credential.
    pub closed spec fn limit(&self) -> u32 {
        self.presentation_limit
    }

    /// Whether `info` describes the epoch that holds `now`.
    pub open spec fn info_published<
        F: Fn([u8; 32]) -> Option<[u8; 32]>,
        P: Fn(ArcKeys) -> Vec<u8>,
        C: Fn(u32) -> Vec<u8>,
    >(&self, now: u64, scalar: F, public: P, context: C, info: ArcInfoV2) -> bool {
        let epoch = credit::epoch_of(now, self.epoch_length());
        &&& info.epoch == epoch
        &&& info.presentation_limit == self.limit()
        &&& key_published(scalar, public, self.seed(), epoch, info.issuer_public_key_hex@)
        &&& exists|bytes: Vec<u8>| #[trigger]
            context.ensures((epoch,), bytes) && info.presentation_context_hex@
                == encoding::hex_text(bytes@)
        &&& info.valid_until == credit::capped_end(epoch, self.epoch_length(), self.grace())
    }

    pub fn new(seed: [u8; 32], epoch_secs: u64, grace_secs: u64, presentation_limit: u32) -> (r:
        Self)
        ensures
            r.seed() == seed@,
            r.epoch_length() == epoch_secs,
            r.grace() == grace_secs,
            r.limit() == presentation_limit,
    {
        ArcIssuer { seed, epoch_secs, grace_secs, presentation_limit }
    }

    pub fn presentation_limit(&self) -> (r: u32)
        ensures
            r == self.limit(),
    {
        self.presentation_limit
    }

    pub fn current_epoch(&self, now: u64) -> (r: u32)
        requires
            self.epoch_length() > 0,
        ensures
            r == credit::epoch_of(now, self.epoch_length()),
    {
        credit::epoch_at(now, self.epoch_secs)
    }

    pub fn accepts(&self, epoch: u32, now: u64) -> (r: bool)
        ensures
            r == credit::epoch_counts(epoch, now, self.epoch_length(), self.grace()),
    {
        credit::epoch_accepted(epoch, now, self.epoch_secs, self.grace_secs)
    }

    pub fn valid_until(&self, epoch: u32) -> (r: u64)
        ensures
            r == credit::capped_end(epoch, self.epoch_length(), self.grace()),
    {
        credit::epoch_valid_until(epoch, self.epoch_secs, self.grace_secs)
    }

    /// One draw for a scalar of an epoch's keys.
    fn draw(&self, epoch: u32, index: u8, attempt: u8) -> (r: [u8; 32])
        ensures
            r@ == draw_block(self.seed(), epoch, index, attempt),
    {
        let mut info = u32_to_le_bytes(epoch);
        info.push(index);
        info.push(attempt);
        assert(info@ == draw_info(epoch, index, attempt));
        crypto::hkdf_expand("BPIR-ARC-EPOCH-KEYS-V1".as_bytes(), &self.seed, info.as_slice())
    }

    /// The first usable draw for a scalar; `None` if there is none.
    fn scalar_key<F: Fn([u8; 32]) -> Option<[u8; 32]>>(
        &self,
        epoch: u32,
        index: u8,
        scalar: &F,
    ) -> (r: Option<[u8; 32]>)
        requires
            forall|block: [u8; 32]| scalar.requires((block,)),
        ensures
            match r {
                Some(key) => first_usable(*scalar, self.seed(), epoch, index, key),
                None => exhausted(*scalar, self.seed(), epoch, index),
            },
    {
        let mut attempt: u8 = 0;
        loop
            invariant
                forall|block: [u8; 32]| scalar.requires((block,)),
                forall|m: u8|
                    m < attempt ==> #[trigger] redrawn(*scalar, self.seed(), epoch, index, m),
            decreases 255 - attempt,
        {
            let block = self.draw(epoch, index, attempt);
            let read = scalar(block);
            assert(reads_as(*scalar, draw_block(self.seed(), epoch, index, attempt), read));
            if let Some(key) = read {
                if nonzero(&key) {
                    return Some(key);
                }
            }
            assert(!usable(read));
            assert(redrawn(*scalar, self.seed(), epoch, index, attempt));
            if attempt == 255 {
                return None;
            }
            attempt += 1;
        }
    }

    /// The epoch's keys: four scalars from HKDF-SHA256 of the seed with the
    /// epoch and the scalar's index in the info string, re-drawn on the rare
    /// output that is not a valid nonzero scalar. `scalar` reads 32 bytes as
    /// a scalar and gives it back as bytes. `None` if some scalar has no
    /// usable output within 256 draws.
    pub fn keys<F: Fn([u8; 32]) -> Option<[u8; 32]>>(&self, epoch: u32, scalar: F) -> (r: Option<
        ArcKeys,
    >)
        requires
            forall|block: [u8; 32]| scalar.requires((block,)),
        ensures
            match r {
                Some(keys) => keys_of(scalar, self.seed(), epoch, keys),
                None => keyless(scalar, self.seed(), epoch),
            },
    {
        self.keys_by(epoch, &scalar)
    }

    fn keys_by<F: Fn([u8; 32]) -> Option<[u8; 32]>>(&self, epoch: u32, scalar: &F) -> (r: Option<
        ArcKeys,
    >)
        requires
            forall|block: [u8; 32]| scalar.requires((block,)),
        ensures
            match r {
                Some(keys) => keys_of(*scalar, self.seed(), epoch, keys),
                None => keyless(*scalar, self.seed(), epoch),
            },
    {
        let x0 = match self.scalar_key(epoch, 0, scalar) {
            Some(key) => key,
            None => return None,
        };
        let x1 = match self.scalar_key(epoch, 1, scalar) {
            Some(key) => key,
            None => return None,
        };
        let x2 = match self.scalar_key(epoch, 2, scalar) {
            Some(key) => key,
            None => return None,
        };
        let x0_blinding = match self.scalar_key(epoch, 3, scalar) {
            Some(key) => key,
            None => return None,
        };
        Some(ArcKeys { x0, x1, x2, x0_blinding })
    }

    /// The epoch's public key in hexadecimal. `public` gives the encoded
    /// public key of secret keys.
    pub fn public_key_hex<
        F: Fn([u8; 32]) -> Option<[u8; 32]>,
        P: Fn(ArcKeys) -> Vec<u8>,
    >(&self, epoch: u32, scalar: F, public: P) -> (r: Option<String>)
        requires
            forall|block: [u8; 32]| scalar.requires((block,)),
            forall|keys: ArcKeys| public.requires((keys,)),
        ensures
            match r {
                Some(text) => key_published(scalar, public, self.seed(), epoch, text@),
                None => keyless(scalar, self.seed(), epoch),
            },
    {
        match self.keys(epoch, scalar) {
            Some(keys) => {
                let encoded = public(keys);
                Some(encoding::hex_encode(encoded.as_slice()))
            },
            None => None,
        }
    }

    /// The `arc` section of `GET /v2/info` at `now`. `context` gives the
    /// presentation context of an epoch.
    pub fn info<
        F: Fn([u8; 32]) -> Option<[u8; 32]>,
        P: Fn(ArcKeys) -> Vec<u8>,
        C: Fn(u32) -> Vec<u8>,
    >(&self, now: u64, scalar: F, public: P, context: C) -> (r: Option<ArcInfoV2>)
        requires
            self.epoch_length() > 0,
            forall|block: [u8; 32]| scalar.requires((block,)),
            forall|keys: ArcKeys| public.requires((keys,)),
            forall|epoch: u32| context.requires((epoch,)),
        ensures
            match r {
                Some(info) => self.info_published(now, scalar, public, context, info),
                None => keyless(
                    scalar,
                    self.seed(),
                    credit::epoch_of(now, self.epoch_length()),
                ),
            },
    {
        let epoch: u32 = self.current_epoch(now);
        let issuer_public_key_hex = match self.public_key_hex(epoch, scalar, public) {
            Some(hex) => hex,
            None => return None,
        };
        let bytes = context(epoch);
        Some(
            ArcInfoV2 {
                epoch,
                presentation_limit: self.presentation_limit,
                issuer_public_key_hex,
                presentation_context_hex: encoding::hex_encode(bytes.as_slice()),
                valid_until: self.valid_until(epoch),
            },
        )
    }

    /// Answer a blinded credential request under `epoch`'s keys. `parse`
    /// reads the request, `respond` answers it. `None` if the epoch has no
    /// keys.
    pub fn issue<
        Q,
        F: Fn([u8; 32]) -> Option<[u8; 32]>,
        R: Fn(&[u8]) -> Result<Q, String>,
        A: Fn(ArcKeys, Q) -> Result<Vec<u8>, String>,
    >(&self, epoch: u32, request: &[u8], scalar: F, parse: R, respond: A) -> (r: Option<
        Result<Vec<u8>, ArcError>,
    >)
        requires
            forall|block: [u8; 32]| scalar.requires((block,)),
            forall|bytes: &[u8]| parse.requires((bytes,)),
            forall|keys: ArcKeys, parsed: Q| respond.requires((keys, parsed)),
        ensures
            exists|parsed: Result<Q, String>| #[trigger]
                parse.ensures((request,), parsed) && match parsed {
                    Err(why) => r matches Some(Err(e)) && e@ == ArcErrorView::Malformed(
                        "credential request"@,
                        why@,
                    ),
                    Ok(blinded) => match r {
                        None => keyless(scalar, self.seed(), epoch),
                        Some(answer) => exists|keys: ArcKeys, given: Result<Vec<u8>, String>|
                            #![trigger respond.ensures((keys, blinded), given)]
                            {
                                &&& keys_of(scalar, self.seed(), epoch, keys)
                                &&& respond.ensures((keys, blinded), given)
                                &&& match given {
                                    Ok(bytes) => answer == Ok::<Vec<u8>, ArcError>(bytes),
                                    Err(why) => answer matches Err(e) && e@
                                        == ArcErrorView::Invalid(why@),
                                }
                            },
                    },
                },
    {
        let blinded = match parse(request) {
            Ok(blinded) => blinded,
            Err(why) => return Some(Err(ArcError::Malformed("credential request", why))),
        };
        let keys = match self.keys(epoch, scalar) {
            Some(keys) => keys,
            None => return None,
        };
        match respond(keys, blinded) {
            Ok(bytes) => Some(Ok(bytes)),
            Err(why) => Some(Err(ArcError::Invalid(why))),
        }
    }

    /// Answer a blinded credential request under `epoch`'s keys, as
    /// [`ArcIssuer::issue`] does, together with the public key of the very
    /// keys that answered it, in hexadecimal.
    pub fn issue_with_key<
        Q,
        F: Fn([u8; 32]) -> Option<[u8; 32]>,
        P: Fn(ArcKeys) -> Vec<u8>,
        R: Fn(&[u8]) -> Result<Q, String>,
        A: Fn(ArcKeys, Q) -> Result<Vec<u8>, String>,
    >(&self, epoch: u32, request: &[u8], scalar: F, public: P, parse: R, respond: A) -> (r: Option<
        Result<(String, Vec<u8>), ArcError>,
    >)
        requires
            forall|block: [u8; 32]| scalar.requires((block,)),
            forall|keys: ArcKeys| public.requires((keys,)),
            forall|bytes: &[u8]| parse.requires((bytes,)),
            forall|keys: ArcKeys, parsed: Q| respond.requires((keys, parsed)),
        ensures
            exists|parsed: Result<Q, String>| #[trigger]
                parse.ensures((request,), parsed) && match parsed {
                    Err(why) => r matches Some(Err(e)) && e@ == ArcErrorView::Malformed(
                        "credential request"@,
                        why@,
                    ),
                    Ok(blinded) => match r {
                        None => keyless(scalar, self.seed(), epoch),
                        Some(answer) => exists|keys: ArcKeys, given: Result<Vec<u8>, String>|
                            #![trigger respond.ensures((keys, blinded), given)]
                            {
                                &&& keys_of(scalar, self.seed(), epoch, keys)
                                &&& respond.ensures((keys, blinded), given)
                                &&& match given {
                                    Ok(bytes) => answer matches Ok((key_hex, response)) && response
                                        == bytes && key_encoded(public, keys, key_hex@),
                                    Err(why) => answer matches Err(e) && e@
                                        == ArcErrorView::Invalid(why@),
                                }
                            },
                    },
                },
            r matches Some(Ok((key_hex, _))) ==> key_published(
                scalar,
                public,
                self.seed(),
                epoch,
                key_hex@,
            ),
    {
        let blinded = match parse(request) {
            Ok(blinded) => blinded,
            Err(why) => return Some(Err(ArcError::Malformed("credential request", why))),
        };
        let keys = match self.keys(epoch, scalar) {
            Some(keys) => keys,
            None => return None,
        };
        match respond(keys, blinded) {
            Ok(bytes) => {
                let encoded = public(keys);
                Some(Ok((encoding::hex_encode(encoded.as_slice()), bytes)))
            },
            Err(why) => Some(Err(ArcError::Invalid(why))),
        }
    }

    /// Whether `answer` is what verifying a presentation under `epoch` may
    /// bring: its tag in hexadecimal, or what is wrong with it.
    pub open spec fn verdict_on<
        Q,
        F: Fn([u8; 32]) -> Option<[u8; 32]>,
        R: Fn(&[u8], u64) -> Result<Q, String>,
        A: Fn(ArcKeys, u32, Q, u64) -> Result<Vec<u8>, String>,
    >(
        &self,
        epoch: u32,
        presentation: Seq<u8>,
        scalar: F,
        parse: R,
        verify: A,
        answer: Result<String, ArcError>,
    ) -> bool {
        exists|bytes: &[u8], parsed: Result<Q, String>|
            {
                &&& bytes@ == presentation
                &&& #[trigger] parse.ensures((bytes, self.limit() as u64), parsed)
                &&& match parsed {
                    Err(why) => answer matches Err(e) && e@ == ArcErrorView::Malformed(
                        "presentation"@,
                        why@,
                    ),
                    Ok(shown) => exists|keys: ArcKeys, tag: Result<Vec<u8>, String>|
                        #![trigger verify.ensures((keys, epoch, shown, self.limit() as u64), tag)]
                        {
                            &&& keys_of(scalar, self.seed(), epoch, keys)
                            &&& verify.ensures((keys, epoch, shown, self.limit() as u64), tag)
                            &&& match tag {
                                Ok(bytes) => answer matches Ok(hex) && hex@ == encoding::hex_text(
                                    bytes@,
                                ),
                                Err(why) => answer matches Err(e) && e@ == ArcErrorView::Invalid(
                                    why@,
                                ),
                            }
                        },
                }
            }
    }

    /// Whether a presentation may verify under `epoch`, with some tag.
    pub open spec fn may_pass<
        Q,
        F: Fn([u8; 32]) -> Option<[u8; 32]>,
        R: Fn(&[u8], u64) -> Result<Q, String>,
        A: Fn(ArcKeys, u32, Q, u64) -> Result<Vec<u8>, String>,
    >(&self, epoch: u32, presentation: Seq<u8>, scalar: F, parse: R, verify: A) -> bool {
        exists|tag: String| #[trigger]
            self.verdict_on(epoch, presentation, scalar, parse, verify, Ok(tag))
    }

    fn verify_one<
        Q,
        F: Fn([u8; 32]) -> Option<[u8; 32]>,
        R: Fn(&[u8], u64) -> Result<Q, String>,
        A: Fn(ArcKeys, u32, Q, u64) -> Result<Vec<u8>, String>,
    >(&self, epoch: u32, presentation: &[u8], scalar: &F, parse: &R, verify: &A) -> (r: Option<
        Result<String, ArcError>,
    >)
        requires
            forall|block: [u8; 32]| scalar.requires((block,)),
            forall|bytes: &[u8], limit: u64| parse.requires((bytes, limit)),
            forall|keys: ArcKeys, epoch: u32, parsed: Q, limit: u64| verify.requires(
                (keys, epoch, parsed, limit),
            ),
        ensures
            match r {
                Some(answer) => self.verdict_on(
                    epoch,
                    presentation@,
                    *scalar,
                    *parse,
                    *verify,
                    answer,
                ),
                None => keyless(*scalar, self.seed(), epoch),
            },
    {
        let limit: u64 = self.presentation_limit as u64;
        let shown = match parse(presentation, limit) {
            Ok(shown) => shown,
            Err(why) => return Some(Err(ArcError::Malformed("presentation", why))),
        };
        let keys = match self.keys_by(epoch, scalar) {
            Some(keys) => keys,
            None => return None,
        };
        match verify(keys, epoch, shown, limit) {
            Ok(tag) => Some(Ok(encoding::hex_encode(tag.as_slice()))),
            Err(why) => Some(Err(ArcError::Invalid(why))),
        }
    }

    /// Verify one presentation under `epoch`; the answer is its tag in
    /// hexadecimal, for the double-spend set. `parse` reads a presentation
    /// for a limit; `verify` verifies one for an epoch and a limit and gives
    /// its tag. `None` if the epoch has no keys.
    pub fn verify<
        Q,
        F: Fn([u8; 32]) -> Option<[u8; 32]>,
        R: Fn(&[u8], u64) -> Result<Q, String>,
        A: Fn(ArcKeys, u32, Q, u64) -> Result<Vec<u8>, String>,
    >(&self, epoch: u32, presentation: &[u8], scalar: F, parse: R, verify: A) -> (r: Option<
        Result<String, ArcError>,
    >)
        requires
            forall|block: [u8; 32]| scalar.requires((block,)),
            forall|bytes: &[u8], limit: u64| parse.requires((bytes, limit)),
            forall|keys: ArcKeys, epoch: u32, parsed: Q, limit: u64| verify.requires(
                (keys, epoch, parsed, limit),
            ),
        ensures
            match r {
                Some(answer) => self.verdict_on(
                    epoch,
                    presentation@,
                    scalar,
                    parse,
                    verify,
                    answer,
                ),
                None => keyless(scalar, self.seed(), epoch),
            },
    {
        self.verify_one(epoch, presentation, &scalar, &parse, &verify)
    }

    /// Verify presentations under `epoch`, in order: their tags, or what is
    /// wrong with the first that does not verify. `None` if the epoch has no
    /// keys.
    pub fn verify_all<
        Q,
        F: Fn([u8; 32]) -> Option<[u8; 32]>,
        R: Fn(&[u8], u64) -> Result<Q, String>,
        A: Fn(ArcKeys, u32, Q, u64) -> Result<Vec<u8>, String>,
    >(&self, epoch: u32, presentations: &Vec<Vec<u8>>, scalar: F, parse: R, verify: A) -> (r:
        Option<Result<Vec<String>, ArcError>>)
        requires
            forall|block: [u8; 32]| scalar.requires((block,)),
            forall|bytes: &[u8], limit: u64| parse.requires((bytes, limit)),
            forall|keys: ArcKeys, epoch: u32, parsed: Q, limit: u64| verify.requires(
                (keys, epoch, parsed, limit),
            ),
        ensures
            match r {
                None => keyless(scalar, self.seed(), epoch),
                Some(Ok(tags)) => tags@.len() == presentations@.len() && forall|i: int|
                    0 <= i < tags@.len() ==> self.verdict_on(
                        epoch,
                        presentations@[i]@,
                        scalar,
                        parse,
                        verify,
                        Ok(#[trigger] tags@[i]),
                    ),
                Some(Err(e)) => exists|i: int|
                    0 <= i < presentations@.len() && self.verdict_on(
                        epoch,
                        (#[trigger] presentations@[i])@,
                        scalar,
                        parse,
                        verify,
                        Err(e),
                    ) && forall|j: int|
                        0 <= j < i ==> self.may_pass(
                            epoch,
                            (#[trigger] presentations@[j])@,
                            scalar,
                            parse,
                            verify,
                        ),
            },
    {
        let mut tags: Vec<String> = Vec::new();
        let mut i: usize = 0;
        while i < presentations.len()
            invariant
                i <= presentations.len(),
                tags@.len() == i,
                forall|block: [u8; 32]| scalar.requires((block,)),
                forall|bytes: &[u8], limit: u64| parse.requires((bytes, limit)),
                forall|keys: ArcKeys, epoch: u32, parsed: Q, limit: u64| verify.requires(
                    (keys, epoch, parsed, limit),
                ),
                forall|j: int|
                    0 <= j < i ==> self.verdict_on(
                        epoch,
                        presentations@[j]@,
                        scalar,
                        parse,
                        verify,
                        Ok(#[trigger] tags@[j]),
                    ),
            decreases presentations.len() - i,
        {
            match self.verify_one(epoch, presentations[i].as_slice(), &scalar, &parse, &verify) {
                None => return None,
                Some(Err(e)) => {
                    assert(self.verdict_on(
                        epoch,
                        presentations@[i as int]@,
                        scalar,
                        parse,
                        verify,
                        Err(e),
                    ));
                    assert forall|j: int| 0 <= j < i implies self.may_pass(
                        epoch,
                        (#[trigger] presentations@[j])@,
                        scalar,
                        parse,
                        verify,
                    ) by {
                        assert(self.verdict_on(
                            epoch,
                            presentations@[j]@,
                            scalar,
                            parse,
                            verify,
                            Ok(tags@[j]),
                        ));
                    }
                    return Some(Err(e));
                },
                Some(Ok(tag)) => tags.push(tag),
            }
            i += 1;
        }
        Some(Ok(tags))
    }
}

/// Whether the scheme, as `parse` and `verify` stand for it, may give a
/// presentation that it verifies under an epoch's keys this tag.
pub open spec fn tag_given<
    Q,
    F: Fn([u8; 32]) -> Option<[u8; 32]>,
    R: Fn(&[u8], u64) -> Result<Q, String>,
    A: Fn(ArcKeys, u32, Q, u64) -> Result<Vec<u8>, String>,
>(
    issuer: ArcIssuer,
    epoch: u32,
    presentation: Seq<u8>,
    scalar: F,
    parse: R,
    verify: A,
    tag: Seq<u8>,
) -> bool {
    exists|bytes: &[u8], shown: Q, keys: ArcKeys, given: Vec<u8>|
        {
            &&& bytes@ == presentation
            &&& #[trigger] parse.ensures((bytes, issuer.limit() as u64), Ok(shown))
            &&& keys_of(scalar, issuer.seed(), epoch, keys)
            &&& #[trigger] verify.ensures(
                (keys, epoch, shown, issuer.limit() as u64),
                Ok(given),
            )
            &&& given@ == tag
        }
}

/// The tag that verifying a presentation brings is the one the scheme gives
/// it, in hexadecimal.
proof fn verified_tag_is_given<
    Q,
    F: Fn([u8; 32]) -> Option<[u8; 32]>,
    R: Fn(&[u8], u64) -> Result<Q, String>,
    A: Fn(ArcKeys, u32, Q, u64) -> Result<Vec<u8>, String>,
>(
    issuer: ArcIssuer,
    epoch: u32,
    presentation: Seq<u8>,
    scalar: F,
    parse: R,
    verify: A,
    answer: String,
)
    requires
        issuer.verdict_on(epoch, presentation, scalar, parse, verify, Ok(answer)),
    ensures
        tag_given(
            issuer,
            epoch,
            presentation,
            scalar,
            parse,
            verify,
            encoding::hex_bytes(answer@),
        ),
{
    let limit = issuer.limit() as u64;
    let (bytes, parsed) = choose|bytes: &[u8], parsed: Result<Q, String>|
        {
            &&& bytes@ == presentation
            &&& #[trigger] parse.ensures((bytes, limit), parsed)
            &&& parsed matches Ok(shown) && exists|keys: ArcKeys, tag: Result<Vec<u8>, String>|
                #![trigger verify.ensures((keys, epoch, shown, limit), tag)]
                {
                    &&& keys_of(scalar, issuer.seed(), epoch, keys)
                    &&& verify.ensures((keys, epoch, shown, limit), tag)
                    &&& tag matches Ok(given) && answer@ == encoding::hex_text(given@)
                }
        };
    let shown = parsed->Ok_0;
    let (keys, tag) = choose|keys: ArcKeys, tag: Result<Vec<u8>, String>|
        #![trigger verify.ensures((keys, epoch, shown, limit), tag)]
        {
            &&& keys_of(scalar, issuer.seed(), epoch, keys)
            &&& verify.ensures((keys, epoch, shown, limit), tag)
            &&& tag matches Ok(given) && answer@ == encoding::hex_text(given@)
        };
    encoding::hex_round_trip(tag->Ok_0@);
    assert(parse.ensures((bytes, limit), Ok(shown)));
    assert(verify.ensures((keys, epoch, shown, limit), Ok(tag->Ok_0)));
}

/// Two presentations bring the same tag only if the scheme gives both the
/// same tag: where it gives every presentation its own, so does the issuer.
pub proof fn tags_differ_as_the_scheme_has_them<
    Q,
    F: Fn([u8; 32]) -> Option<[u8; 32]>,
    R: Fn(&[u8], u64) -> Result<Q, String>,
    A: Fn(ArcKeys, u32, Q, u64) -> Result<Vec<u8>, String>,
>(
    issuer: ArcIssuer,
    epoch: u32,
    presentation: Seq<u8>,
    other: Seq<u8>,
    scalar: F,
    parse: R,
    verify: A,
    a: String,
    b: String,
)
    requires
        issuer.verdict_on(epoch, presentation, scalar, parse, verify, Ok(a)),
        issuer.verdict_on(epoch, other, scalar, parse, verify, Ok(b)),
        a@ == b@,
    ensures
        exists|tag: Seq<u8>| #[trigger]
            tag_given(issuer, epoch, presentation, scalar, parse, verify, tag) && #[trigger]
            tag_given(issuer, epoch, other, scalar, parse, verify, tag),
{
    verified_tag_is_given(issuer, epoch, presentation, scalar, parse, verify, a);
    verified_tag_is_given(issuer, epoch, other, scalar, parse, verify, b);
}

/// Whether the scheme reads and verifies a presentation always the same way.
pub open spec fn verifies_one_way<
    Q,
    R: Fn(&[u8], u64) -> Result<Q, String>,
    A: Fn(ArcKeys, u32, Q, u64) -> Result<Vec<u8>, String>,
>(parse: R, verify: A) -> bool {
    &&& forall|x: &[u8], y: &[u8], limit: u64, a: Result<Q, String>, b: Result<Q, String>|
        x@ == y@ && #[trigger] parse.ensures((x, limit), a) && #[trigger] parse.ensures(
            (y, limit),
            b,
        ) ==> a == b
    &&& forall|
        keys: ArcKeys,
        epoch: u32,
        shown: Q,
        limit: u64,
        a: Result<Vec<u8>, String>,
        b: Result<Vec<u8>, String>,
    | #[trigger]
        verify.ensures((keys, epoch, shown, limit), a) && #[trigger] verify.ensures(
            (keys, epoch, shown, limit),
            b,
        ) ==> a == b
}

/// A presentation that is verified again brings the same tag: that it was
/// spent before is for the set of spent tags to find.
pub proof fn tags_are_brought_again<
    Q,
    F: Fn([u8; 32]) -> Option<[u8; 32]>,
    R: Fn(&[u8], u64) -> Result<Q, String>,
    A: Fn(ArcKeys, u32, Q, u64) -> Result<Vec<u8>, String>,
>(
    issuer: ArcIssuer,
    epoch: u32,
    presentation: Seq<u8>,
    scalar: F,
    parse: R,
    verify: A,
    tag: String,
    again: Result<String, ArcError>,
)
    requires
        reads_one_way(scalar),
        verifies_one_way(parse, verify),
        issuer.verdict_on(epoch, presentation, scalar, parse, verify, Ok(tag)),
        issuer.verdict_on(epoch, presentation, scalar, parse, verify, again),
    ensures
        again matches Ok(same) && same@ == tag@,
{
    assert forall|a: ArcKeys, b: ArcKeys|
        #![trigger keys_of(scalar, issuer.seed(), epoch, a), keys_of(scalar, issuer.seed(), epoch, b)]
        keys_of(scalar, issuer.seed(), epoch, a) && keys_of(
            scalar,
            issuer.seed(),
            epoch,
            b,
        ) implies a == b by {
        keys_are_determined(scalar, issuer.seed(), epoch, a, b);
    }
}

/// Whether `text` is the hexadecimal text of the public key of secret keys.
pub open spec fn key_encoded<P: Fn(ArcKeys) -> Vec<u8>>(
    public: P,
    keys: ArcKeys,
    text: Seq<char>,
) -> bool {
    exists|encoded: Vec<u8>| #[trigger]
        public.ensures((keys,), encoded) && text == encoding::hex_text(encoded@)
}

/// Whether `text` is the hexadecimal text of an epoch's public key.
pub open spec fn key_published<
    F: Fn([u8; 32]) -> Option<[u8; 32]>,
    P: Fn(ArcKeys) -> Vec<u8>,
>(scalar: F, public: P, seed: Seq<u8>, epoch: u32, text: Seq<char>) -> bool {
    exists|keys: ArcKeys, encoded: Vec<u8>|
        #![trigger public.ensures((keys,), encoded)]
        {
            &&& keys_of(scalar, seed, epoch, keys)
            &&& public.ensures((keys,), encoded)
            &&& text == encoding::hex_text(encoded@)
        }
}

/// Whether one of 32 bytes is not zero.
fn nonzero(key: &[u8; 32]) -> (r: bool)
    ensures
        r == usable(Some(*key)),
{
    let mut i: usize = 0;
    while i < 32
        invariant
            i <= 32,
            forall|j: int| 0 <= j < i ==> key@[j] == 0,
        decreases 32 - i,
    {
        if key[i] != 0 {
            assert(key@[i as int] != Seq::new(32, |i: int| 0u8)[i as int]);
            return true;
        }
        i += 1;
    }
    assert(key@ == Seq::new(32, |i: int| 0u8));
    false
}

/// What is published of an epoch: it is the one that holds `now`, its key is
/// that of its own secret keys, and it is valid until its grace period is
/// over.
pub proof fn the_current_epoch_is_published<
    F: Fn([u8; 32]) -> Option<[u8; 32]>,
    P: Fn(ArcKeys) -> Vec<u8>,
    C: Fn(u32) -> Vec<u8>,
>(issuer: ArcIssuer, now: u64, scalar: F, public: P, context: C, info: ArcInfoV2)
    requires
        issuer.epoch_length() > 0,
        issuer.info_published(now, scalar, public, context, info),
    ensures
        info.epoch * issuer.epoch_length() <= now,
        info.epoch < u32::MAX ==> now < (info.epoch + 1) * issuer.epoch_length(),
        info.presentation_limit == issuer.limit(),
        exists|keys: ArcKeys|
            keys_of(scalar, issuer.seed(), info.epoch, keys) && #[trigger] key_encoded(
                public,
                keys,
                info.issuer_public_key_hex@,
            ),
        exists|bytes: Vec<u8>| #[trigger]
            context.ensures((info.epoch,), bytes) && info.presentation_context_hex@
                == encoding::hex_text(bytes@),
        info.valid_until < u64::MAX ==> info.valid_until == info.epoch * issuer.epoch_length()
            + issuer.epoch_length() + issuer.grace(),
        info.valid_until == u64::MAX ==> info.epoch * issuer.epoch_length()
            + issuer.epoch_length() + issuer.grace() >= u64::MAX,
{
    credit::epochs_hold_their_seconds(now, issuer.epoch_length());
    credit::epochs_count_through_their_grace(
        info.epoch,
        now,
        issuer.epoch_length(),
        issuer.grace(),
    );
    let (keys, encoded) = choose|keys: ArcKeys, encoded: Vec<u8>|
        #![trigger public.ensures((keys,), encoded)]
        {
            &&& keys_of(scalar, issuer.seed(), info.epoch, keys)
            &&& public.ensures((keys,), encoded)
            &&& info.issuer_public_key_hex@ == encoding::hex_text(encoded@)
        };
    assert(key_encoded(public, keys, info.issuer_public_key_hex@));
}

/// What HKDF-SHA256 derives from the seed for an epoch and an index, at an
/// attempt: the label is the salt, and the epoch's number, low byte first, the
/// index and the attempt are the info.
pub open spec fn epoch_block(seed: Seq<u8>, epoch: u32, index: u8, attempt: u8) -> Seq<u8> {
    crypto::hkdf_block(
        vstd::utf8::encode_utf8("BPIR-ARC-EPOCH-KEYS-V1"@),
        seed,
        vstd::bytes::spec_u32_to_le_bytes(epoch) + seq![index, attempt],
    )
}

/// Whether bytes are passed over: they read as no scalar, or as zero.
pub open spec fn passed_over<F: Fn([u8; 32]) -> Option<[u8; 32]>>(
    scalar: F,
    block: Seq<u8>,
) -> bool {
    exists|read: Option<[u8; 32]>|
        {
            &&& #[trigger] reads_as(scalar, block, read)
            &&& read matches Some(s) ==> forall|i: int| 0 <= i < 32 ==> #[trigger] s@[i] == 0
        }
}

/// Whether `key` is, of the blocks that HKDF-SHA256 derives from the seed for
/// an epoch and an index, the first that reads as a scalar other than zero.
pub open spec fn is_drawn<F: Fn([u8; 32]) -> Option<[u8; 32]>>(
    scalar: F,
    seed: Seq<u8>,
    epoch: u32,
    index: u8,
    key: [u8; 32],
) -> bool {
    exists|n: u8|
        {
            &&& #[trigger] reads_as(scalar, epoch_block(seed, epoch, index, n), Some(key))
            &&& forall|m: u8|
                m < n ==> #[trigger] passed_over(scalar, epoch_block(seed, epoch, index, m))
        }
}

proof fn first_usable_is_drawn<F: Fn([u8; 32]) -> Option<[u8; 32]>>(
    scalar: F,
    seed: Seq<u8>,
    epoch: u32,
    index: u8,
    key: [u8; 32],
)
    requires
        first_usable(scalar, seed, epoch, index, key),
    ensures
        is_drawn(scalar, seed, epoch, index, key),
        exists|i: int| 0 <= i < 32 && #[trigger] key@[i] != 0,
{
    let zeros = Seq::new(32, |i: int| 0u8);
    if forall|i: int| 0 <= i < 32 ==> #[trigger] key@[i] == 0 {
        assert(key@ == zeros);
    }
    let n = choose|n: u8|
        {
            &&& usable(Some(key))
            &&& #[trigger] reads_as(scalar, draw_block(seed, epoch, index, n), Some(key))
            &&& forall|m: u8| m < n ==> #[trigger] redrawn(scalar, seed, epoch, index, m)
        };
    assert(epoch_block(seed, epoch, index, n) == draw_block(seed, epoch, index, n));
    assert(reads_as(scalar, epoch_block(seed, epoch, index, n), Some(key)));
    assert forall|m: u8| m < n implies #[trigger] passed_over(
        scalar,
        epoch_block(seed, epoch, index, m),
    ) by {
        assert(epoch_block(seed, epoch, index, m) == draw_block(seed, epoch, index, m));
        assert(redrawn(scalar, seed, epoch, index, m));
        let read = choose|read: Option<[u8; 32]>|
            !usable(read) && #[trigger] reads_as(scalar, draw_block(seed, epoch, index, m), read);
        if let Some(s) = read {
            assert(s@ == zeros);
        }
        assert(reads_as(scalar, epoch_block(seed, epoch, index, m), read));
    }
}

/// The four secret scalars of an epoch are drawn from the seed, each under its
/// own index and the epoch's number, and none of them is zero.
pub proof fn epoch_keys_are_drawn_from_the_seed<F: Fn([u8; 32]) -> Option<[u8; 32]>>(
    scalar: F,
    seed: Seq<u8>,
    epoch: u32,
    keys: ArcKeys,
)
    requires
        keys_of(scalar, seed, epoch, keys),
    ensures
        is_drawn(scalar, seed, epoch, 0, keys.x0),
        is_drawn(scalar, seed, epoch, 1, keys.x1),
        is_drawn(scalar, seed, epoch, 2, keys.x2),
        is_drawn(scalar, seed, epoch, 3, keys.x0_blinding),
        exists|i: int| 0 <= i < 32 && #[trigger] keys.x0@[i] != 0,
        exists|i: int| 0 <= i < 32 && #[trigger] keys.x1@[i] != 0,
        exists|i: int| 0 <= i < 32 && #[trigger] keys.x2@[i] != 0,
        exists|i: int| 0 <= i < 32 && #[trigger] keys.x0_blinding@[i] != 0,
{
    first_usable_is_drawn(scalar, seed, epoch, 0, keys.x0);
    first_usable_is_drawn(scalar, seed, epoch, 1, keys.x1);
    first_usable_is_drawn(scalar, seed, epoch, 2, keys.x2);
    first_usable_is_drawn(scalar, seed, epoch, 3, keys.x0_blinding);
}

/// An epoch has no keys only if one of the four scalars finds nothing in all
/// of its 256 draws.
pub proof fn keys_are_missing_only_after_every_draw<F: Fn([u8; 32]) -> Option<[u8; 32]>>(
    scalar: F,
    seed: Seq<u8>,
    epoch: u32,
)
    requires
        keyless(scalar, seed, epoch),
    ensures
        ({
            ||| forall|m: u8| #[trigger] passed_over(scalar, epoch_block(seed, epoch, 0, m))
            ||| forall|m: u8| #[trigger] passed_over(scalar, epoch_block(seed, epoch, 1, m))
            ||| forall|m: u8| #[trigger] passed_over(scalar, epoch_block(seed, epoch, 2, m))
            ||| forall|m: u8| #[trigger] passed_over(scalar, epoch_block(seed, epoch, 3, m))
        }),
{
    let index = choose|index: u8| index < 4 && #[trigger] exhausted(scalar, seed, epoch, index);
    let zeros = Seq::new(32, |i: int| 0u8);
    assert forall|m: u8| #[trigger]
        passed_over(scalar, epoch_block(seed, epoch, index, m)) by {
        assert(epoch_block(seed, epoch, index, m) == draw_block(seed, epoch, index, m));
        assert(redrawn(scalar, seed, epoch, index, m));
        let read = choose|read: Option<[u8; 32]>|
            !usable(read) && #[trigger] reads_as(scalar, draw_block(seed, epoch, index, m), read);
        if let Some(s) = read {
            assert(s@ == zeros);
        }
        assert(reads_as(scalar, epoch_block(seed, epoch, index, m), read));
    }
}

/// A presentation that the scheme verifies under the keys of the epoch is
/// accepted, with the tag that the scheme gives it.
pub proof fn good_presentations_are_accepted<
    Q,
    F: Fn([u8; 32]) -> Option<[u8; 32]>,
    R: Fn(&[u8], u64) -> Result<Q, String>,
    A: Fn(ArcKeys, u32, Q, u64) -> Result<Vec<u8>, String>,
>(
    issuer: ArcIssuer,
    epoch: u32,
    presentation: Seq<u8>,
    scalar: F,
    parse: R,
    verify: A,
    tag: Seq<u8>,
    answer: Result<String, ArcError>,
)
    requires
        reads_one_way(scalar),
        verifies_one_way(parse, verify),
        tag_given(issuer, epoch, presentation, scalar, parse, verify, tag),
        issuer.verdict_on(epoch, presentation, scalar, parse, verify, answer),
    ensures
        answer matches Ok(hex) && hex@ == encoding::hex_text(tag),
{
    assert forall|a: ArcKeys, b: ArcKeys|
        #![trigger keys_of(scalar, issuer.seed(), epoch, a), keys_of(scalar, issuer.seed(), epoch, b)]
        keys_of(scalar, issuer.seed(), epoch, a) && keys_of(
            scalar,
            issuer.seed(),
            epoch,
            b,
        ) implies a == b by {
        keys_are_determined(scalar, issuer.seed(), epoch, a, b);
    }
}

/// A presentation is refused as malformed only if the scheme cannot read it,
/// and as invalid only if it does not verify it under the keys of the epoch;
/// the reason is the scheme's.
pub proof fn refused_presentations_are_bad<
    Q,
    F: Fn([u8; 32]) -> Option<[u8; 32]>,
    R: Fn(&[u8], u64) -> Result<Q, String>,
    A: Fn(ArcKeys, u32, Q, u64) -> Result<Vec<u8>, String>,
>(
    issuer: ArcIssuer,
    epoch: u32,
    presentation: Seq<u8>,
    scalar: F,
    parse: R,
    verify: A,
    error: ArcError,
)
    requires
        issuer.verdict_on(epoch, presentation, scalar, parse, verify, Err(error)),
    ensures
        error@ matches ArcErrorView::Malformed(what, reason) ==> what == "presentation"@
            && exists|bytes: &[u8], why: String|
            bytes@ == presentation && #[trigger] parse.ensures(
                (bytes, issuer.limit() as u64),
                Err(why),
            ) && why@ == reason,
        error@ matches ArcErrorView::Invalid(reason) ==> exists|
            bytes: &[u8],
            shown: Q,
            keys: ArcKeys,
            why: String,
        |
            bytes@ == presentation && #[trigger] parse.ensures(
                (bytes, issuer.limit() as u64),
                Ok(shown),
            ) && keys_of(scalar, issuer.seed(), epoch, keys) && #[trigger] verify.ensures(
                (keys, epoch, shown, issuer.limit() as u64),
                Err(why),
            ) && why@ == reason,
{
    let limit = issuer.limit() as u64;
    let (bytes, parsed) = choose|bytes: &[u8], parsed: Result<Q, String>|
        {
            &&& bytes@ == presentation
            &&& #[trigger] parse.ensures((bytes, limit), parsed)
            &&& match parsed {
                Err(why) => error@ == ArcErrorView::Malformed("presentation"@, why@),
                Ok(shown) => exists|keys: ArcKeys, tag: Result<Vec<u8>, String>|
                    #![trigger verify.ensures((keys, epoch, shown, limit), tag)]
                    {
                        &&& keys_of(scalar, issuer.seed(), epoch, keys)
                        &&& verify.ensures((keys, epoch, shown, limit), tag)
                        &&& tag matches Err(why) && error@ == ArcErrorView::Invalid(why@)
                    },
            }
        };
    match parsed {
        Err(why) => {
            assert(parse.ensures((bytes, limit), Err(why)));
        },
        Ok(shown) => {
            let (keys, tag) = choose|keys: ArcKeys, tag: Result<Vec<u8>, String>|
                #![trigger verify.ensures((keys, epoch, shown, limit), tag)]
                {
                    &&& keys_of(scalar, issuer.seed(), epoch, keys)
                    &&& verify.ensures((keys, epoch, shown, limit), tag)
                    &&& tag matches Err(why) && error@ == ArcErrorView::Invalid(why@)
                };
            assert(parse.ensures((bytes, limit), Ok(shown)));
            assert(verify.ensures((keys, epoch, shown, limit), Err(tag->Err_0)));
        },
    }
}

/// What is wrong with credentials is told in one sentence, with its reason.
pub proof fn credential_faults_are_told(what: Seq<char>, why: Seq<char>)
    ensures
        ArcErrorView::Malformed(what, why).message() == "malformed ARC "@ + what + ": "@ + why,
        ArcErrorView::Invalid(why).message() == "ARC presentation does not verify: "@ + why,
{
}

} // verus!
