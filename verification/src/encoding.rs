//! Hexadecimal text, base64 and fixed-width integers.

use vstd::bytes::*;
use vstd::prelude::*;

verus! {

/// The lower-case hexadecimal digit of `n`.
pub open spec fn hex_digit(n: int) -> char {
    if n == 0 {
        '0'
    } else if n == 1 {
        '1'
    } else if n == 2 {
        '2'
    } else if n == 3 {
        '3'
    } else if n == 4 {
        '4'
    } else if n == 5 {
        '5'
    } else if n == 6 {
        '6'
    } else if n == 7 {
        '7'
    } else if n == 8 {
        '8'
    } else if n == 9 {
        '9'
    } else if n == 10 {
        'a'
    } else if n == 11 {
        'b'
    } else if n == 12 {
        'c'
    } else if n == 13 {
        'd'
    } else if n == 14 {
        'e'
    } else {
        'f'
    }
}

/// The value of a hexadecimal digit of either case; -1 for any other character.
pub open spec fn hex_value(c: char) -> int {
    if '0' <= c <= '9' {
        c as int - '0' as int
    } else if 'a' <= c <= 'f' {
        c as int - 'a' as int + 10
    } else if 'A' <= c <= 'F' {
        c as int - 'A' as int + 10
    } else {
        -1
    }
}

/// Two lower-case hexadecimal digits per byte, the high half first.
pub open spec fn hex_text(bytes: Seq<u8>) -> Seq<char> {
    Seq::new(
        2 * bytes.len(),
        |i: int|
            hex_digit(
                if i % 2 == 0 {
                    bytes[i / 2] as int / 16
                } else {
                    bytes[i / 2] as int % 16
                },
            ),
    )
}

/// Whether `s` is hexadecimal text: an even number of digits of either case.
pub open spec fn is_hex(s: Seq<char>) -> bool {
    &&& s.len() % 2 == 0
    &&& forall|i: int| 0 <= i < s.len() ==> #[trigger] hex_value(s[i]) >= 0
}

/// The bytes that hexadecimal text stands for.
pub open spec fn hex_bytes(s: Seq<char>) -> Seq<u8> {
    Seq::new(s.len() / 2, |i: int| (16 * hex_value(s[2 * i]) + hex_value(s[2 * i + 1])) as u8)
}

#[verifier::external_type_specification]
#[verifier::external_body]
pub struct ExFromHexError(hex::FromHexError);

/// `hex::encode`: the contract claims two lower-case digits per byte.
#[verifier::external_body]
pub(crate) fn hex_encode(bytes: &[u8]) -> (r: String)
    ensures
        r@ == hex_text(bytes@),
{
    hex::encode(bytes)
}

/// `hex::decode`: the contract claims that text of an even number of digits of
/// either case decodes, to one byte per pair with the high half first, and
/// that all other text is refused.
#[verifier::external_body]
pub(crate) fn hex_decode(text: &str) -> (r: Result<Vec<u8>, hex::FromHexError>)
    ensures
        r is Ok <==> is_hex(text@),
        r matches Ok(bytes) ==> bytes@ == hex_bytes(text@),
{
    hex::decode(text)
}

/// Decoding what was encoded gives the bytes back.
pub proof fn hex_round_trip(bytes: Seq<u8>)
    ensures
        is_hex(hex_text(bytes)),
        hex_bytes(hex_text(bytes)) == bytes,
{
    let s = hex_text(bytes);
    assert forall|i: int| 0 <= i < s.len() implies #[trigger] hex_value(s[i]) >= 0 by {}
    assert forall|i: int| 0 <= i < bytes.len() implies hex_bytes(s)[i] == bytes[i] by {
        assert((2 * i) / 2 == i && (2 * i + 1) / 2 == i);
        assert(s[2 * i] == hex_digit(bytes[i] as int / 16));
        assert(s[2 * i + 1] == hex_digit(bytes[i] as int % 16));
    }
    assert(hex_bytes(s) == bytes);
}

/// Different bytes have different hexadecimal text.
pub proof fn hex_text_injective(a: Seq<u8>, b: Seq<u8>)
    ensures
        hex_text(a) == hex_text(b) ==> a == b,
{
    hex_round_trip(a);
    hex_round_trip(b);
}

/// `n` as eight bytes, the lowest first.
pub open spec fn le64(n: u64) -> Seq<u8> {
    spec_u64_to_le_bytes(n)
}

/// `n` as four bytes, the lowest first.
pub open spec fn le32(n: u32) -> Seq<u8> {
    spec_u32_to_le_bytes(n)
}

/// Eight bytes each, and different for different numbers.
pub proof fn le64_injective(a: u64, b: u64)
    ensures
        le64(a).len() == 8,
        le64(a) == le64(b) ==> a == b,
{
    lemma_auto_spec_u64_to_from_le_bytes();
}

/// Four bytes each, and different for different numbers.
pub proof fn le32_injective(a: u32, b: u32)
    ensures
        le32(a).len() == 4,
        le32(a) == le32(b) ==> a == b,
{
    lemma_auto_spec_u32_to_from_le_bytes();
    assert(le32(a).len() == 4 && le32(b).len() == 4);
}

/// The `n`th character of the standard base64 alphabet.
pub open spec fn base64_digit(n: int) -> char {
    if n < 26 {
        ('A' as int + n) as char
    } else if n < 52 {
        ('a' as int + n - 26) as char
    } else if n < 62 {
        ('0' as int + n - 52) as char
    } else if n == 62 {
        '+'
    } else {
        '/'
    }
}

/// Standard base64 with padding: four characters for each three bytes.
pub open spec fn base64_text(bytes: Seq<u8>) -> Seq<char>
    decreases bytes.len(),
{
    if bytes.len() == 0 {
        Seq::empty()
    } else {
        let a = bytes[0] as int;
        let b = if bytes.len() > 1 { bytes[1] as int } else { 0 };
        let c = if bytes.len() > 2 { bytes[2] as int } else { 0 };
        let first = base64_digit(a / 4);
        let second = base64_digit(a % 4 * 16 + b / 16);
        let third = if bytes.len() > 1 { base64_digit(b % 16 * 4 + c / 64) } else { '=' };
        let fourth = if bytes.len() > 2 { base64_digit(c % 64) } else { '=' };
        let rest = if bytes.len() > 3 { bytes.skip(3) } else { Seq::empty() };
        seq![first, second, third, fourth] + base64_text(rest)
    }
}

/// `base64::Engine::encode` with the `STANDARD` engine: the contract claims
/// the standard alphabet and padding.
#[verifier::external_body]
pub(crate) fn base64_encode(bytes: &[u8]) -> (r: String)
    ensures
        r@ == base64_text(bytes@),
{
    base64::Engine::encode(&base64::engine::general_purpose::STANDARD, bytes)
}

/// The bytes of a 16-byte list as an array.
pub fn array16(bytes: &[u8]) -> (r: [u8; 16])
    requires
        bytes@.len() == 16,
    ensures
        r@ == bytes@,
{
    let mut r = [0u8; 16];
    let mut i: usize = 0;
    while i < 16
        invariant
            i <= 16,
            bytes@.len() == 16,
            forall|j: int| 0 <= j < i ==> r@[j] == bytes@[j],
        decreases 16 - i,
    {
        r[i] = bytes[i];
        i += 1;
    }
    assert(r@ == bytes@);
    r
}

/// The bytes of a 32-byte list as an array.
pub fn array32(bytes: &[u8]) -> (r: [u8; 32])
    requires
        bytes@.len() == 32,
    ensures
        r@ == bytes@,
{
    let mut r = [0u8; 32];
    let mut i: usize = 0;
    while i < 32
        invariant
            i <= 32,
            bytes@.len() == 32,
            forall|j: int| 0 <= j < i ==> r@[j] == bytes@[j],
        decreases 32 - i,
    {
        r[i] = bytes[i];
        i += 1;
    }
    assert(r@ == bytes@);
    r
}

/// The bytes of a 64-byte list as an array.
pub fn array64(bytes: &[u8]) -> (r: [u8; 64])
    requires
        bytes@.len() == 64,
    ensures
        r@ == bytes@,
{
    let mut r = [0u8; 64];
    let mut i: usize = 0;
    while i < 64
        invariant
            i <= 64,
            bytes@.len() == 64,
            forall|j: int| 0 <= j < i ==> r@[j] == bytes@[j],
        decreases 64 - i,
    {
        r[i] = bytes[i];
        i += 1;
    }
    assert(r@ == bytes@);
    r
}

/// Whether two 32-byte keys are equal.
pub fn same_key(a: &[u8; 32], b: &[u8; 32]) -> (r: bool)
    ensures
        r == (a@ == b@),
{
    let mut i: usize = 0;
    while i < 32
        invariant
            i <= 32,
            forall|j: int| 0 <= j < i ==> a@[j] == b@[j],
        decreases 32 - i,
    {
        if a[i] != b[i] {
            return false;
        }
        i += 1;
    }
    assert(a@ == b@);
    true
}

/// A copy of some bytes.
pub fn copy_bytes(bytes: &[u8]) -> (r: Vec<u8>)
    ensures
        r@ == bytes@,
{
    let mut r: Vec<u8> = Vec::new();
    r.extend_from_slice(bytes);
    assert(r@ == bytes@);
    r
}

} // verus!
