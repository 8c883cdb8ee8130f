//! Hexadecimal and base58check text encodings.
use vstd::prelude::*;
use vstd::string::StringSliceAdditionalSpecFns;

verus! {

/// The lowercase hexadecimal digit for a value below 16.
pub open spec fn hex_digit(n: u8) -> char {
    if n < 10 {
        (48 + n) as u8 as char
    } else {
        (87 + n) as u8 as char
    }
}

/// Lowercase hexadecimal text of a byte sequence, two digits per byte, high
/// nibble first.
pub open spec fn hex_text(b: Seq<u8>) -> Seq<char> {
    Seq::new(
        2 * b.len(),
        |i: int| if i % 2 == 0 { hex_digit(b[i / 2] / 16) } else { hex_digit(b[i / 2] % 16) },
    )
}

/// Whether a byte is an ASCII hexadecimal digit of either case.
pub open spec fn is_hex_byte(c: u8) -> bool {
    (48 <= c <= 57) || (65 <= c <= 70) || (97 <= c <= 102)
}

/// The value of an ASCII hexadecimal digit.
pub open spec fn hex_value(c: u8) -> u8 {
    if 48 <= c <= 57 {
        (c - 48) as u8
    } else if 65 <= c <= 70 {
        (c - 55) as u8
    } else {
        (c - 87) as u8
    }
}

/// Whether `t` is hexadecimal text (even length, digits of either case).
pub open spec fn is_hex_bytes(t: Seq<u8>) -> bool {
    &&& t.len() % 2 == 0
    &&& forall|i: int| 0 <= i < t.len() ==> is_hex_byte(#[trigger] t[i])
}

/// The bytes that hexadecimal text `t` stands for.
pub open spec fn hex_bytes_of(t: Seq<u8>) -> Seq<u8> {
    Seq::new(
        t.len() / 2,
        |i: int| (hex_value(t[2 * i]) * 16 + hex_value(t[2 * i + 1])) as u8,
    )
}

/// Relies on hex::encode: two lowercase digits per byte, high nibble first.
#[verifier::external_body]
pub(crate) fn to_hex(b: &[u8]) -> (r: String)
    ensures
        r@ == hex_text(b@),
{
    hex::encode(b)
}

/// Relies on hex::decode: text of even length made of digits of either case
/// decodes, one byte per pair of digits; anything else is refused.
#[verifier::external_body]
pub(crate) fn from_hex(t: &str) -> (r: Option<Vec<u8>>)
    ensures
        r is Some <==> is_hex_bytes(t.spec_bytes()),
        r is Some ==> r->0@ == hex_bytes_of(t.spec_bytes()),
{
    hex::decode(t).ok()
}

/// What base58check text decodes to (checksum verified and removed), or
/// `None` where it is not valid base58check.
pub uninterp spec fn base58check_decoded(t: Seq<char>) -> Option<Seq<u8>>;

/// The base58check text of a payload.
pub uninterp spec fn base58check_text(b: Seq<u8>) -> Seq<char>;

/// Relies on bs58's decoder with checksum verification and no expected version
/// byte: the payload without its checksum, or the decoder's reason for refusing.
#[verifier::external_body]
pub(crate) fn base58check_decode(t: &str) -> (r: Result<Vec<u8>, String>)
    ensures
        r is Ok <==> base58check_decoded(t@) is Some,
        r is Ok ==> r->Ok_0@ == base58check_decoded(t@)->0,
{
    bs58::decode(t).with_check(None).into_vec().map_err(|e| format!("Base58 decode error: {}", e))
}

/// Relies on bs58's encoder with an appended checksum.
#[verifier::external_body]
pub(crate) fn base58check_encode(b: &[u8]) -> (r: String)
    ensures
        r@ == base58check_text(b@),
{
    bs58::encode(b).with_check().into_string()
}

} // verus!
