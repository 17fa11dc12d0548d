//! `POST /v2/redeem`: a PIR server forwards what a client presented; the
//! cashier authenticates the server, verifies and settles each item, books
//! the value to the server's account, and answers with a signed gas amount.
//!
//! Authentication of the server: its request carries an operator-signed
//! identity certificate whose operator key must be one the operator
//! configured, and the request is signed by the certificate's identity key.
//! Replays are answered from the redeem store (same server and nonce, same
//! signed answer) without touching the mint again.

use vstd::prelude::*;

use crate::api::{ApiError, ApiErrorView};
use crate::credit::{IdentityCert, RedeemItemV1, RedeemRequestV1};
use crate::crypto;
use crate::encoding;
use crate::text;

pub use crate::ledger::{RedeemEvent, RedeemStore, RedeemStoreError, ServerTotals};

verus! {

/// Bytes of a redeem request's nonce.
pub const REDEEM_NONCE_LEN: usize = 16;

/// A request whose signature chain checked out.
#[derive(Debug, PartialEq, Eq)]
pub struct VerifiedRedeem {
    pub server_id: String,
    pub nonce: [u8; 16],
    pub nonce_hex: String,
    pub items: Vec<(u8, Vec<u8>)>,
}

/// The model of a [`VerifiedRedeem`].
pub struct VerifiedView {
    pub server_id: Seq<char>,
    pub nonce: Seq<u8>,
    pub nonce_hex: Seq<char>,
    pub items: Seq<(u8, Seq<u8>)>,
}

/// The model of a list of items: their kinds and payloads.
pub open spec fn items_view(items: Seq<(u8, Vec<u8>)>) -> Seq<(u8, Seq<u8>)> {
    items.map_values(|item: (u8, Vec<u8>)| (item.0, item.1@))
}

impl View for VerifiedRedeem {
    type V = VerifiedView;

    open spec fn view(&self) -> VerifiedView {
        VerifiedView {
            server_id: self.server_id@,
            nonce: self.nonce@,
            nonce_hex: self.nonce_hex@,
            items: items_view(self.items@),
        }
    }
}

/// The model of what [`verify_request`] returns.
pub open spec fn verdict_view(r: Result<VerifiedRedeem, ApiError>) -> Result<
    VerifiedView,
    ApiErrorView,
> {
    match r {
        Ok(verified) => Ok(verified@),
        Err(e) => Err(e@),
    }
}

/// The distance between two clocks.
pub open spec fn skew_of(now: u64, then: u64) -> nat {
    if now >= then {
        (now - then) as nat
    } else {
        (then - now) as nat
    }
}

/// Whether a certificate is in force at `now`. One that ends at zero does not
/// end.
pub open spec fn in_force(cert: IdentityCert, now: u64) -> bool {
    let clock = if now <= i64::MAX {
        now as int
    } else {
        i64::MAX as int
    };
    cert.valid_from <= clock && (cert.valid_until == 0 || clock < cert.valid_until)
}

/// Whether one of the operators signed the certificate.
pub open spec fn vouched(operators: Seq<[u8; 32]>, cert: IdentityCert) -> bool {
    exists|i: int| 0 <= i < operators.len() && (#[trigger] operators[i])@ == cert.operator_pubkey@
}

/// What is wrong with the server or the clock of a request, if anything.
pub open spec fn server_fault(
    request: RedeemRequestV1,
    operators: Seq<[u8; 32]>,
    now: u64,
    max_skew_secs: u64,
    cert: Result<IdentityCert, String>,
) -> Option<ApiErrorView> {
    match cert {
        Err(why) => Some(ApiErrorView::unauthorized("identity certificate: "@ + why@)),
        Ok(cert) => if !vouched(operators, cert) {
            Some(
                ApiErrorView::unauthorized(
                    "identity certificate is signed by an operator this cashier does not serve"@,
                ),
            )
        } else if cert.server_id@ != request.server_id@ {
            Some(
                ApiErrorView::unauthorized(
                    "server_id "@ + text::debug_text(request.server_id@)
                        + " does not match the certificate's "@ + text::debug_text(cert.server_id@),
                ),
            )
        } else if !in_force(cert, now) {
            Some(
                ApiErrorView::unauthorized(
                    "identity certificate is outside its validity window"@,
                ),
            )
        } else if skew_of(now, request.unix_time) > max_skew_secs {
            Some(
                ApiErrorView::invalid_request(
                    "request time is "@ + text::decimal_text(skew_of(now, request.unix_time))
                        + "s away from the cashier clock (limit "@ + text::decimal_text(
                        max_skew_secs as nat,
                    ) + "s)"@,
                ),
            )
        } else {
            None
        },
    }
}

/// The items of a request with their payloads decoded, or what is wrong with
/// the first that cannot be.
pub open spec fn decoded_items(items: Seq<RedeemItemV1>) -> Result<
    Seq<(u8, Seq<u8>)>,
    ApiErrorView,
>
    decreases items.len(),
{
    if items.len() == 0 {
        Ok(Seq::empty())
    } else {
        match decoded_items(items.drop_last()) {
            Err(e) => Err(e),
            Ok(decoded) => {
                let item = items.last();
                if !encoding::is_hex(item.payload_hex@) {
                    Err(ApiErrorView::invalid_request("item payload_hex is not hex"@))
                } else if item.payload_hex@.len() == 0 {
                    Err(ApiErrorView::invalid_request("empty item payload"@))
                } else {
                    Ok(decoded.push((item.kind, encoding::hex_bytes(item.payload_hex@))))
                }
            },
        }
    }
}

/// The nonce and the items of a request, or what is wrong with them.
pub open spec fn contents_of(request: RedeemRequestV1) -> Result<
    (Seq<u8>, Seq<(u8, Seq<u8>)>),
    ApiErrorView,
> {
    if !encoding::is_hex(request.nonce_hex@) {
        Err(ApiErrorView::invalid_request("nonce_hex is not hex"@))
    } else if encoding::hex_bytes(request.nonce_hex@).len() != 16 {
        Err(ApiErrorView::invalid_request("nonce must be 16 bytes"@))
    } else if request.items@.len() == 0 {
        Err(ApiErrorView::invalid_request("no items to redeem"@))
    } else {
        match decoded_items(request.items@) {
            Err(e) => Err(e),
            Ok(items) => Ok((encoding::hex_bytes(request.nonce_hex@), items)),
        }
    }
}

/// What is wrong with the signature of a request, if anything.
pub open spec fn signature_fault(
    request: RedeemRequestV1,
    cert: IdentityCert,
    preimage: Seq<u8>,
) -> Option<ApiErrorView> {
    let signature = encoding::hex_bytes(request.signature_hex@);
    if !encoding::is_hex(request.signature_hex@) || signature.len() != 64 {
        Some(ApiErrorView::unauthorized("request signature is malformed"@))
    } else if !crypto::ed25519_is_key(cert.identity_pubkey@) {
        Some(ApiErrorView::unauthorized("identity certificate carries no valid key"@))
    } else if !crypto::ed25519_verifies(cert.identity_pubkey@, preimage, signature) {
        Some(ApiErrorView::unauthorized("request signature does not verify"@))
    } else {
        None
    }
}

/// The verdict on a request, given what its certificate bytes decode and
/// verify to, and the bytes that its signature must cover.
pub open spec fn judged(
    request: RedeemRequestV1,
    operators: Seq<[u8; 32]>,
    now: u64,
    max_skew_secs: u64,
    cert: Result<IdentityCert, String>,
    preimage: Seq<u8>,
) -> Result<VerifiedView, ApiErrorView> {
    if operators.len() == 0 {
        Err(
            ApiErrorView::unauthorized(
                "this cashier accepts no server: operator_pubkeys is empty"@,
            ),
        )
    } else if !encoding::is_hex(request.identity_cert_hex@) {
        Err(ApiErrorView::invalid_request("identity_cert_hex is not hex"@))
    } else {
        match server_fault(request, operators, now, max_skew_secs, cert) {
            Some(e) => Err(e),
            None => match contents_of(request) {
                Err(e) => Err(e),
                Ok((nonce, items)) => match signature_fault(request, cert->Ok_0, preimage) {
                    Some(e) => Err(e),
                    None => Ok(
                        VerifiedView {
                            server_id: request.server_id@,
                            nonce,
                            nonce_hex: encoding::hex_text(nonce),
                            items,
                        },
                    ),
                },
            },
        }
    }
}

/// Whether the certificate bytes of a request are read at all.
pub open spec fn certificate_read(request: RedeemRequestV1, operators: Seq<[u8; 32]>) -> bool {
    operators.len() > 0 && encoding::is_hex(request.identity_cert_hex@)
}

/// Whether `cert` is what `certificate` may say of a request's certificate
/// bytes, where they are read.
pub open spec fn certified<C: Fn(&[u8]) -> Result<IdentityCert, String>>(
    certificate: C,
    request: RedeemRequestV1,
    operators: Seq<[u8; 32]>,
    cert: Result<IdentityCert, String>,
) -> bool {
    certificate_read(request, operators) ==> exists|bytes: &[u8]|
        bytes@ == encoding::hex_bytes(request.identity_cert_hex@) && #[trigger] certificate.ensures(
            (bytes,),
            cert,
        )
}

/// Whether `bytes` are what `preimage` may say that the signature covers,
/// where the signature is looked at.
pub open spec fn composed<P: Fn(&str, &[u8; 16], u64, &Vec<(u8, Vec<u8>)>) -> Vec<u8>>(
    preimage: P,
    request: RedeemRequestV1,
    operators: Seq<[u8; 32]>,
    now: u64,
    max_skew_secs: u64,
    cert: Result<IdentityCert, String>,
    bytes: Vec<u8>,
) -> bool {
    certificate_read(request, operators) && server_fault(
        request,
        operators,
        now,
        max_skew_secs,
        cert,
    ) is None && contents_of(request) is Ok ==> exists|
        server_id: &str,
        nonce: &[u8; 16],
        items: &Vec<(u8, Vec<u8>)>,
    |
        {
            &&& server_id@ == request.server_id@
            &&& contents_of(request)->Ok_0 == (nonce@, items_view(items@))
            &&& #[trigger] preimage.ensures((server_id, nonce, request.unix_time, items), bytes)
        }
}

/// Check the server and the clock of a request. The answer is the certificate
/// that vouches for it.
pub fn check_server<'a>(
    request: &RedeemRequestV1,
    operator_keys: &[[u8; 32]],
    now: u64,
    max_skew_secs: u64,
    cert: &'a Result<IdentityCert, String>,
) -> (r: Result<&'a IdentityCert, ApiError>)
    ensures
        match r {
            Ok(holder) => *cert == Ok::<IdentityCert, String>(*holder) && server_fault(
                *request,
                operator_keys@,
                now,
                max_skew_secs,
                *cert,
            ) is None,
            Err(e) => server_fault(*request, operator_keys@, now, max_skew_secs, *cert) == Some(
                e@,
            ),
        },
{
    let cert = match cert {
        Ok(cert) => cert,
        Err(why) => return Err(
            ApiError::unauthorized(text::joined("identity certificate: ", why.as_str())),
        ),
    };
    let mut known = false;
    let mut i: usize = 0;
    while i < operator_keys.len()
        invariant
            i <= operator_keys@.len(),
            known == vouched(operator_keys@.take(i as int), *cert),
        decreases operator_keys@.len() - i,
    {
        let key = operator_keys[i];
        let ghost before = operator_keys@.take(i as int);
        let ghost after = operator_keys@.take(i + 1);
        let equal = encoding::same_key(&key, &cert.operator_pubkey);
        proof {
            if vouched(before, *cert) {
                let j = choose|j: int|
                    0 <= j < before.len() && (#[trigger] before[j])@ == cert.operator_pubkey@;
                assert(after[j]@ == cert.operator_pubkey@);
            }
            if equal {
                assert(after[i as int]@ == cert.operator_pubkey@);
            }
            if vouched(after, *cert) {
                let j = choose|j: int|
                    0 <= j < after.len() && (#[trigger] after[j])@ == cert.operator_pubkey@;
                if j < i {
                    assert(before[j]@ == cert.operator_pubkey@);
                }
            }
        }
        known = known || equal;
        i += 1;
    }
    assert(operator_keys@.take(i as int) == operator_keys@);
    if !known {
        return Err(
            ApiError::unauthorized(
                "identity certificate is signed by an operator this cashier does not serve".to_owned(),
            ),
        );
    }
    if cert.server_id != request.server_id {
        let mut message = text::joined3(
            "server_id ",
            text::quoted(request.server_id.as_str()).as_str(),
            " does not match the certificate's ",
        );
        message.append(text::quoted(cert.server_id.as_str()).as_str());
        return Err(ApiError::unauthorized(message));
    }
    let clock: i64 = if now <= i64::MAX as u64 {
        now as i64
    } else {
        i64::MAX
    };
    if cert.valid_from > clock || (cert.valid_until != 0 && cert.valid_until <= clock) {
        return Err(
            ApiError::unauthorized(
                "identity certificate is outside its validity window".to_owned(),
            ),
        );
    }
    let skew: u64 = if now >= request.unix_time {
        now - request.unix_time
    } else {
        request.unix_time - now
    };
    if skew > max_skew_secs {
        let mut message = text::joined3(
            "request time is ",
            text::decimal(skew as u128).as_str(),
            "s away from the cashier clock (limit ",
        );
        message.append(text::decimal(max_skew_secs as u128).as_str());
        message.append("s)");
        return Err(ApiError::invalid_request(message));
    }
    Ok(cert)
}

/// A list that cannot be decoded up to some item cannot be decoded.
proof fn undecodable_prefix(items: Seq<RedeemItemV1>, n: int)
    requires
        0 <= n <= items.len(),
        decoded_items(items.take(n)) is Err,
    ensures
        decoded_items(items) == decoded_items(items.take(n)),
    decreases items.len(),
{
    if n < items.len() {
        assert(items.drop_last().take(n) == items.take(n));
        undecodable_prefix(items.drop_last(), n);
    } else {
        assert(items.take(n) == items);
    }
}

/// Decode the nonce and the items of a request.
pub fn read_contents(request: &RedeemRequestV1) -> (r: Result<
    ([u8; 16], Vec<(u8, Vec<u8>)>),
    ApiError,
>)
    ensures
        match r {
            Ok((nonce, items)) => contents_of(*request) == Ok::<
                (Seq<u8>, Seq<(u8, Seq<u8>)>),
                ApiErrorView,
            >((nonce@, items_view(items@))),
            Err(e) => contents_of(*request) == Err::<
                (Seq<u8>, Seq<(u8, Seq<u8>)>),
                ApiErrorView,
            >(e@),
        },
{
    let nonce_bytes = match encoding::hex_decode(request.nonce_hex.as_str()) {
        Ok(bytes) => bytes,
        Err(_) => return Err(ApiError::invalid_request("nonce_hex is not hex".to_owned())),
    };
    if nonce_bytes.len() != 16 {
        return Err(ApiError::invalid_request("nonce must be 16 bytes".to_owned()));
    }
    let nonce = encoding::array16(nonce_bytes.as_slice());
    if request.items.is_empty() {
        return Err(ApiError::invalid_request("no items to redeem".to_owned()));
    }
    let ghost all = request.items@;
    let mut items: Vec<(u8, Vec<u8>)> = Vec::new();
    let mut i: usize = 0;
    assert(all.take(0) == Seq::<RedeemItemV1>::empty());
    assert(items_view(items@) == Seq::<(u8, Seq<u8>)>::empty());
    while i < request.items.len()
        invariant
            i <= request.items.len(),
            all == request.items@,
            all.len() > 0,
            encoding::is_hex(request.nonce_hex@),
            encoding::hex_bytes(request.nonce_hex@).len() == 16,
            decoded_items(all.take(i as int)) == Ok::<Seq<(u8, Seq<u8>)>, ApiErrorView>(
                items_view(items@),
            ),
        decreases request.items.len() - i,
    {
        let item = &request.items[i];
        let ghost before = items@;
        proof {
            assert(all.take(i + 1).drop_last() == all.take(i as int));
            assert(all.take(i + 1).last() == item);
        }
        let payload = match encoding::hex_decode(item.payload_hex.as_str()) {
            Ok(payload) => payload,
            Err(_) => {
                proof {
                    undecodable_prefix(all, i + 1);
                }
                return Err(ApiError::invalid_request("item payload_hex is not hex".to_owned()));
            },
        };
        if payload.is_empty() {
            proof {
                undecodable_prefix(all, i + 1);
            }
            return Err(ApiError::invalid_request("empty item payload".to_owned()));
        }
        items.push((item.kind, payload));
        assert(items_view(items@) == items_view(before).push((item.kind, payload@)));
        i += 1;
    }
    assert(all.take(i as int) == all);
    Ok((nonce, items))
}

/// Check the signature of a request over `preimage`.
pub fn check_signature(request: &RedeemRequestV1, cert: &IdentityCert, preimage: &[u8]) -> (r:
    Option<ApiError>)
    ensures
        match r {
            Some(e) => signature_fault(*request, *cert, preimage@) == Some(e@),
            None => signature_fault(*request, *cert, preimage@) is None,
        },
{
    let signature = match encoding::hex_decode(request.signature_hex.as_str()) {
        Ok(bytes) => bytes,
        Err(_) => return Some(
            ApiError::unauthorized("request signature is malformed".to_owned()),
        ),
    };
    if signature.len() != 64 {
        return Some(ApiError::unauthorized("request signature is malformed".to_owned()));
    }
    if !crypto::is_public_key(&cert.identity_pubkey) {
        return Some(
            ApiError::unauthorized("identity certificate carries no valid key".to_owned()),
        );
    }
    let signature = encoding::array64(signature.as_slice());
    if !crypto::signature_verifies(&cert.identity_pubkey, preimage, &signature) {
        return Some(ApiError::unauthorized("request signature does not verify".to_owned()));
    }
    None
}

/// Check the certificate against the configured operator keys, the request
/// signature against the certificate's identity key, the clock, and the
/// encodings. Nothing here touches the network or the stores. `certificate`
/// decodes and verifies an identity certificate; `preimage` gives the bytes
/// that a server signs for its id, a nonce, a time and items.
pub fn verify_request<
    C: Fn(&[u8]) -> Result<IdentityCert, String>,
    P: Fn(&str, &[u8; 16], u64, &Vec<(u8, Vec<u8>)>) -> Vec<u8>,
>(
    request: &RedeemRequestV1,
    operator_keys: &[[u8; 32]],
    now: u64,
    max_skew_secs: u64,
    certificate: C,
    preimage: P,
) -> (r: Result<VerifiedRedeem, ApiError>)
    requires
        forall|bytes: &[u8]| certificate.requires((bytes,)),
        forall|server_id: &str, nonce: &[u8; 16], time: u64, items: &Vec<(u8, Vec<u8>)>|
            preimage.requires((server_id, nonce, time, items)),
    ensures
        exists|cert: Result<IdentityCert, String>, bytes: Vec<u8>|
            {
                &&& certified(certificate, *request, operator_keys@, cert)
                &&& composed(preimage, *request, operator_keys@, now, max_skew_secs, cert, bytes)
                &&& verdict_view(r) == #[trigger] judged(
                    *request,
                    operator_keys@,
                    now,
                    max_skew_secs,
                    cert,
                    bytes@,
                )
            },
{
    let ghost unread: Result<IdentityCert, String> = arbitrary();
    let ghost unsigned: Vec<u8> = arbitrary();
    if operator_keys.len() == 0 {
        let e = ApiError::unauthorized(
            "this cashier accepts no server: operator_pubkeys is empty".to_owned(),
        );
        assert(Err::<VerifiedView, ApiErrorView>(e@) == judged(
            *request,
            operator_keys@,
            now,
            max_skew_secs,
            unread,
            unsigned@,
        ));
        return Err(e);
    }
    let cert_bytes = match encoding::hex_decode(request.identity_cert_hex.as_str()) {
        Ok(bytes) => bytes,
        Err(_) => {
            let e = ApiError::invalid_request("identity_cert_hex is not hex".to_owned());
            assert(Err::<VerifiedView, ApiErrorView>(e@) == judged(
                *request,
                operator_keys@,
                now,
                max_skew_secs,
                unread,
                unsigned@,
            ));
            return Err(e);
        },
    };
    let cert = certificate(cert_bytes.as_slice());
    assert(certified(certificate, *request, operator_keys@, cert));
    let holder = match check_server(request, operator_keys, now, max_skew_secs, &cert) {
        Ok(holder) => holder,
        Err(e) => {
            assert(Err::<VerifiedView, ApiErrorView>(e@) == judged(
                *request,
                operator_keys@,
                now,
                max_skew_secs,
                cert,
                unsigned@,
            ));
            return Err(e);
        },
    };
    let (nonce, items) = match read_contents(request) {
        Ok(contents) => contents,
        Err(e) => {
            assert(Err::<VerifiedView, ApiErrorView>(e@) == judged(
                *request,
                operator_keys@,
                now,
                max_skew_secs,
                cert,
                unsigned@,
            ));
            return Err(e);
        },
    };
    let bytes = preimage(request.server_id.as_str(), &nonce, request.unix_time, &items);
    assert(composed(preimage, *request, operator_keys@, now, max_skew_secs, cert, bytes));
    let fault = check_signature(request, holder, bytes.as_slice());
    let verdict = match fault {
        Some(e) => Err(e),
        None => Ok(
            VerifiedRedeem {
                server_id: request.server_id.clone(),
                nonce,
                nonce_hex: encoding::hex_encode(&nonce),
                items,
            },
        ),
    };
    assert(verdict_view(verdict) == judged(
        *request,
        operator_keys@,
        now,
        max_skew_secs,
        cert,
        bytes@,
    ));
    verdict
}

/// A request is accepted only if every link of its chain holds: an operator
/// the cashier serves signed the certificate, the certificate names the
/// server and is in force, the clocks agree, and the certificate's key signed
/// the request.
pub proof fn accepted_requests_are_vouched_for(
    request: RedeemRequestV1,
    operators: Seq<[u8; 32]>,
    now: u64,
    max_skew_secs: u64,
    cert: Result<IdentityCert, String>,
    preimage: Seq<u8>,
)
    requires
        judged(request, operators, now, max_skew_secs, cert, preimage) is Ok,
    ensures
        cert matches Ok(c) && {
            &&& vouched(operators, c)
            &&& c.server_id@ == request.server_id@
            &&& in_force(c, now)
            &&& skew_of(now, request.unix_time) <= max_skew_secs
            &&& crypto::ed25519_verifies(
                c.identity_pubkey@,
                preimage,
                encoding::hex_bytes(request.signature_hex@),
            )
        },
        request.items@.len() > 0,
        judged(request, operators, now, max_skew_secs, cert, preimage)->Ok_0.items.len()
            == request.items@.len(),
{
    decoded_items_len(request.items@);
}

proof fn decoded_items_len(items: Seq<RedeemItemV1>)
    ensures
        decoded_items(items) matches Ok(decoded) ==> decoded.len() == items.len(),
    decreases items.len(),
{
    if items.len() > 0 {
        decoded_items_len(items.drop_last());
    }
}

/// Whether a text is a number of bytes in hexadecimal, two digits of either
/// case for each.
pub open spec fn is_hex_of(s: Seq<char>, bytes: nat) -> bool {
    &&& s.len() == 2 * bytes
    &&& forall|i: int|
        0 <= i < s.len() ==> '0' <= #[trigger] s[i] <= '9' || 'a' <= s[i] <= 'f' || 'A' <= s[i]
            <= 'F'
}

proof fn hex_of_its_length(s: Seq<char>)
    ensures
        s.len() % 2 == 0 ==> (encoding::is_hex(s) <==> is_hex_of(s, s.len() / 2)),
        encoding::is_hex(s) ==> encoding::hex_bytes(s).len() == s.len() / 2 && s.len() % 2 == 0,
{
    if encoding::is_hex(s) {
        assert forall|i: int| 0 <= i < s.len() implies '0' <= #[trigger] s[i] <= '9' || 'a' <= s[i]
            <= 'f' || 'A' <= s[i] <= 'F' by {
            assert(encoding::hex_value(s[i]) >= 0);
        }
    }
}

/// The items decode if and only if each payload is hexadecimal text of a byte
/// or more, and then they come out one for one, with their kinds.
proof fn items_decode_one_by_one(items: Seq<RedeemItemV1>)
    ensures
        decoded_items(items) is Ok <==> forall|i: int|
            0 <= i < items.len() ==> (#[trigger] items[i]).payload_hex@.len() > 0
                && encoding::is_hex(items[i].payload_hex@),
        decoded_items(items) matches Ok(decoded) ==> decoded.len() == items.len() && forall|i: int|
            0 <= i < items.len() ==> #[trigger] decoded[i] == (
                items[i].kind,
                encoding::hex_bytes(items[i].payload_hex@),
            ),
        decoded_items(items) matches Err(e) ==> e.status == 400 && e.error == "invalid_request"@,
    decreases items.len(),
{
    if items.len() > 0 {
        let shorter = items.drop_last();
        let last = items.len() - 1;
        items_decode_one_by_one(shorter);
        assert forall|i: int| 0 <= i < last implies #[trigger] items[i] == shorter[i] by {}
        if decoded_items(shorter) is Err {
            let i = choose|i: int|
                0 <= i < shorter.len() && !((#[trigger] shorter[i]).payload_hex@.len() > 0
                    && encoding::is_hex(shorter[i].payload_hex@));
            assert(items[i] == shorter[i]);
        }
        if decoded_items(items) is Ok {
            assert forall|i: int| 0 <= i < items.len() implies (
            #[trigger] items[i]).payload_hex@.len() > 0 && encoding::is_hex(
                items[i].payload_hex@,
            ) by {
                if i < last {
                    assert(items[i] == shorter[i]);
                }
            }
        } else if decoded_items(shorter) is Ok {
            assert(!(items[last].payload_hex@.len() > 0 && encoding::is_hex(
                items[last].payload_hex@,
            )));
        }
    }
}

/// Whether every link of a request's chain holds, given its certificate: the
/// certificate is in force at `now`, is of the server that asks, and the
/// clocks are at most `max_skew_secs` apart.
pub open spec fn holds_now(
    request: RedeemRequestV1,
    cert: IdentityCert,
    now: u64,
    max_skew_secs: u64,
) -> bool {
    &&& cert.server_id@ == request.server_id@
    &&& cert.valid_from <= now
    &&& cert.valid_until == 0 || now < cert.valid_until
    &&& -(max_skew_secs as int) <= now - request.unix_time <= max_skew_secs
}

/// Whether the nonce, the items and the signature of a request are spelled as
/// they should be: a nonce of 16 bytes, items of a byte or more, a signature
/// of 64 bytes.
pub open spec fn well_spelled(request: RedeemRequestV1) -> bool {
    &&& is_hex_of(request.nonce_hex@, 16)
    &&& request.items@.len() > 0
    &&& forall|i: int|
        0 <= i < request.items@.len() ==> {
            &&& (#[trigger] request.items@[i]).payload_hex@.len() > 0
            &&& encoding::is_hex(request.items@[i].payload_hex@)
        }
}

/// Any operator on the list may vouch for a server. A request with a
/// certificate of one of them, wherever on the list that one stands, which
/// holds now, is well spelled and was signed with the certificate's key, is
/// accepted: with the server's id, the bytes of the nonce, and every item in
/// order.
pub proof fn requests_with_a_whole_chain_are_accepted(
    request: RedeemRequestV1,
    operators: Seq<[u8; 32]>,
    i: int,
    now: u64,
    max_skew_secs: u64,
    cert: IdentityCert,
    preimage: Seq<u8>,
)
    requires
        0 <= i < operators.len(),
        operators[i]@ == cert.operator_pubkey@,
        encoding::is_hex(request.identity_cert_hex@),
        holds_now(request, cert, now, max_skew_secs),
        well_spelled(request),
        is_hex_of(request.signature_hex@, 64),
        crypto::ed25519_is_key(cert.identity_pubkey@),
        crypto::ed25519_verifies(
            cert.identity_pubkey@,
            preimage,
            encoding::hex_bytes(request.signature_hex@),
        ),
    ensures
        judged(request, operators, now, max_skew_secs, Ok(cert), preimage) == Ok::<
            VerifiedView,
            ApiErrorView,
        >(
            VerifiedView {
                server_id: request.server_id@,
                nonce: encoding::hex_bytes(request.nonce_hex@),
                nonce_hex: encoding::hex_text(encoding::hex_bytes(request.nonce_hex@)),
                items: Seq::new(
                    request.items@.len(),
                    |k: int|
                        (
                            request.items@[k].kind,
                            encoding::hex_bytes(request.items@[k].payload_hex@),
                        ),
                ),
            },
        ),
{
    hex_of_its_length(request.nonce_hex@);
    hex_of_its_length(request.signature_hex@);
    items_decode_one_by_one(request.items@);
    assert(vouched(operators, cert));
    let decoded = decoded_items(request.items@)->Ok_0;
    assert(decoded == Seq::new(
        request.items@.len(),
        |k: int|
            (request.items@[k].kind, encoding::hex_bytes(request.items@[k].payload_hex@)),
    ));
}

/// No other request is accepted.
pub proof fn only_requests_with_a_whole_chain_are_accepted(
    request: RedeemRequestV1,
    operators: Seq<[u8; 32]>,
    now: u64,
    max_skew_secs: u64,
    cert: Result<IdentityCert, String>,
    preimage: Seq<u8>,
)
    requires
        judged(request, operators, now, max_skew_secs, cert, preimage) is Ok,
    ensures
        cert matches Ok(c) && {
            &&& exists|i: int|
                0 <= i < operators.len() && (#[trigger] operators[i])@ == c.operator_pubkey@
            &&& holds_now(request, c, now, max_skew_secs)
            &&& crypto::ed25519_verifies(
                c.identity_pubkey@,
                preimage,
                encoding::hex_bytes(request.signature_hex@),
            )
        },
        well_spelled(request),
        is_hex_of(request.signature_hex@, 64),
{
    hex_of_its_length(request.nonce_hex@);
    hex_of_its_length(request.signature_hex@);
    items_decode_one_by_one(request.items@);
}

/// A server that cannot show who it is is answered 401: no operator key is
/// configured, the certificate does not verify, no operator on the list signed
/// it, it is of another server or not in force, or the request is not signed
/// with its key. A request of a certified server whose clock or spelling is
/// off is answered 400.
pub proof fn refusals_tell_strangers_from_mistakes(
    request: RedeemRequestV1,
    operators: Seq<[u8; 32]>,
    now: u64,
    max_skew_secs: u64,
    cert: Result<IdentityCert, String>,
    preimage: Seq<u8>,
)
    requires
        encoding::is_hex(request.identity_cert_hex@),
    ensures
        ({
            let r = judged(request, operators, now, max_skew_secs, cert, preimage);
            let known = cert matches Ok(c) && (exists|i: int|
                0 <= i < operators.len() && (#[trigger] operators[i])@ == c.operator_pubkey@)
                && c.server_id@ == request.server_id@ && c.valid_from <= now && (c.valid_until == 0
                || now < c.valid_until);
            let on_time = -(max_skew_secs as int) <= now - request.unix_time <= max_skew_secs;
            &&& !known ==> (r matches Err(e) && e.status == 401 && e.error == "unauthorized"@)
            &&& known && !(on_time && well_spelled(request)) ==> (r matches Err(e) && e.status == 400
                && e.error == "invalid_request"@)
            &&& known && on_time && well_spelled(request) && r is Err ==> r->Err_0.status == 401
                && r->Err_0.error == "unauthorized"@
        }),
{
    hex_of_its_length(request.nonce_hex@);
    items_decode_one_by_one(request.items@);
    if let Ok(c) = cert {
        assert(vouched(operators, c) <==> exists|i: int|
            0 <= i < operators.len() && (#[trigger] operators[i])@ == c.operator_pubkey@);
    }
}

/// The signature of a request that is accepted covers all of it: the bytes
/// under it are those of the server's id, the nonce, the request's own time
/// and every item; and the certificate is what the certificate bytes of the
/// request say.
pub proof fn signatures_cover_the_request<
    C: Fn(&[u8]) -> Result<IdentityCert, String>,
    P: Fn(&str, &[u8; 16], u64, &Vec<(u8, Vec<u8>)>) -> Vec<u8>,
>(
    request: RedeemRequestV1,
    operators: Seq<[u8; 32]>,
    now: u64,
    max_skew_secs: u64,
    certificate: C,
    preimage: P,
    cert: Result<IdentityCert, String>,
    bytes: Vec<u8>,
)
    requires
        certified(certificate, request, operators, cert),
        composed(preimage, request, operators, now, max_skew_secs, cert, bytes),
        judged(request, operators, now, max_skew_secs, cert, bytes@) is Ok,
    ensures
        exists|shown: &[u8]|
            shown@ == encoding::hex_bytes(request.identity_cert_hex@)
                && #[trigger] certificate.ensures((shown,), cert),
        exists|server_id: &str, nonce: &[u8; 16], items: &Vec<(u8, Vec<u8>)>|
            {
                &&& #[trigger] preimage.ensures((server_id, nonce, request.unix_time, items), bytes)
                &&& server_id@ == request.server_id@
                &&& nonce@ == encoding::hex_bytes(request.nonce_hex@)
                &&& items@.len() == request.items@.len()
                &&& forall|i: int|
                    0 <= i < items@.len() ==> (#[trigger] items@[i]).0 == request.items@[i].kind
                        && items@[i].1@ == encoding::hex_bytes(request.items@[i].payload_hex@)
            },
        crypto::ed25519_verifies(
            cert->Ok_0.identity_pubkey@,
            bytes@,
            encoding::hex_bytes(request.signature_hex@),
        ),
{
    items_decode_one_by_one(request.items@);
    let (server_id, nonce, items) = choose|
        server_id: &str,
        nonce: &[u8; 16],
        items: &Vec<(u8, Vec<u8>)>,
    |
        {
            &&& server_id@ == request.server_id@
            &&& contents_of(request)->Ok_0 == (nonce@, items_view(items@))
            &&& #[trigger] preimage.ensures((server_id, nonce, request.unix_time, items), bytes)
        };
    assert forall|i: int| 0 <= i < items@.len() implies (#[trigger] items@[i]).0
        == request.items@[i].kind && items@[i].1@ == encoding::hex_bytes(
        request.items@[i].payload_hex@,
    ) by {
        assert(items_view(items@)[i] == (items@[i].0, items@[i].1@));
    }
    assert(items_view(items@).len() == items@.len());
}

/// Two spellings of a nonce are one nonce: requests of a server whose nonces
/// have the same bytes are found under the same entry of the ledger.
pub proof fn nonces_are_their_bytes(
    a: RedeemRequestV1,
    b: RedeemRequestV1,
    operators: Seq<[u8; 32]>,
    now: u64,
    later: u64,
    max_skew_secs: u64,
    cert: Result<IdentityCert, String>,
    again: Result<IdentityCert, String>,
    x: Seq<u8>,
    y: Seq<u8>,
)
    requires
        judged(a, operators, now, max_skew_secs, cert, x) is Ok,
        judged(b, operators, later, max_skew_secs, again, y) is Ok,
    ensures
        ({
            let p = judged(a, operators, now, max_skew_secs, cert, x)->Ok_0;
            let q = judged(b, operators, later, max_skew_secs, again, y)->Ok_0;
            &&& p.server_id == a.server_id@
            &&& q.server_id == b.server_id@
            &&& p.nonce_hex == q.nonce_hex <==> encoding::hex_bytes(a.nonce_hex@)
                == encoding::hex_bytes(b.nonce_hex@)
        }),
{
    encoding::hex_text_injective(
        encoding::hex_bytes(a.nonce_hex@),
        encoding::hex_bytes(b.nonce_hex@),
    );
}

/// A request whose clock is off is told by how many seconds, and how many are
/// allowed.
pub proof fn clocks_that_are_off_are_told(
    request: RedeemRequestV1,
    operators: Seq<[u8; 32]>,
    now: u64,
    max_skew_secs: u64,
    cert: IdentityCert,
    i: int,
)
    requires
        0 <= i < operators.len(),
        operators[i]@ == cert.operator_pubkey@,
        cert.server_id@ == request.server_id@,
        now <= i64::MAX,
        cert.valid_from <= now,
        cert.valid_until == 0 || now < cert.valid_until,
    ensures
        now > request.unix_time + max_skew_secs ==> server_fault(
            request,
            operators,
            now,
            max_skew_secs,
            Ok(cert),
        ) == Some(
            ApiErrorView::invalid_request(
                "request time is "@ + text::decimal_text((now - request.unix_time) as nat)
                    + "s away from the cashier clock (limit "@ + text::decimal_text(
                    max_skew_secs as nat,
                ) + "s)"@,
            ),
        ),
        request.unix_time > now + max_skew_secs ==> server_fault(
            request,
            operators,
            now,
            max_skew_secs,
            Ok(cert),
        ) == Some(
            ApiErrorView::invalid_request(
                "request time is "@ + text::decimal_text((request.unix_time - now) as nat)
                    + "s away from the cashier clock (limit "@ + text::decimal_text(
                    max_skew_secs as nat,
                ) + "s)"@,
            ),
        ),
{
    assert(vouched(operators, cert));
}

} // verus!
