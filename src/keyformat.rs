//! Extended public key text: address family by prefix, and conversion of
//! `zpub` / `ypub` text to the plain extended public key encoding.
use vstd::prelude::*;
use crate::encoding::{base58check_decode, base58check_decoded, base58check_encode, base58check_text};
use crate::text::{has_prefix, starts_with};
use crate::ErrorKind;

verus! {

/// The kind of address rendered for keys derived from an extended key.
#[derive(Debug, Clone, Copy, PartialEq, Eq, Structural)]
pub enum AddressFamily {
    /// Pay to public key hash (`xpub` and anything unrecognised).
    Legacy,
    /// Pay to witness public key hash wrapped in pay to script hash (`ypub`).
    NestedSegwit,
    /// Native pay to witness public key hash (`zpub`).
    NativeSegwit,
}

/// Version bytes of a mainnet extended public key.
pub open spec fn xpub_version() -> Seq<u8> {
    seq![0x04u8, 0x88u8, 0xB2u8, 0x1Eu8]
}

/// The address family that the text of a key announces.
pub open spec fn family_of(s: Seq<char>) -> AddressFamily {
    if has_prefix(s, "zpub"@) {
        AddressFamily::NativeSegwit
    } else if has_prefix(s, "ypub"@) {
        AddressFamily::NestedSegwit
    } else {
        AddressFamily::Legacy
    }
}

/// A decoded payload with its first four bytes replaced by the plain extended
/// public key version.
pub open spec fn with_xpub_version(d: Seq<u8>) -> Seq<u8> {
    xpub_version() + d.subrange(4, d.len() as int)
}

/// Plain extended public key text for `zpub` / `ypub` text, if it decodes.
pub open spec fn converted_text(s: Seq<char>) -> Option<Seq<char>> {
    match base58check_decoded(s) {
        Some(d) => if d.len() >= 4 {
            Some(base58check_text(with_xpub_version(d)))
        } else {
            None
        },
        None => None,
    }
}

/// The text handed to the extended key parser for input `s`.
pub open spec fn canonical_text(s: Seq<char>) -> Option<Seq<char>> {
    if family_of(s) == AddressFamily::Legacy {
        Some(s)
    } else {
        converted_text(s)
    }
}

/// The address family announced by the prefix of `s`.
pub fn family_from_prefix(s: &str) -> (r: AddressFamily)
    ensures
        r == family_of(s@),
{
    if starts_with(s, "zpub") {
        AddressFamily::NativeSegwit
    } else if starts_with(s, "ypub") {
        AddressFamily::NestedSegwit
    } else {
        AddressFamily::Legacy
    }
}

/// Re-encodes `zpub` / `ypub` text with the plain extended public key version
/// bytes, keeping the rest of the payload.
pub fn convert_to_xpub(s: &str) -> (r: Result<String, ErrorKind>)
    ensures
        r is Ok <==> converted_text(s@) is Some,
        r is Ok ==> r->Ok_0@ == converted_text(s@)->0,
        r is Err ==> r->Err_0 is InvalidKey,
{
    let decoded = match base58check_decode(s) {
        Ok(d) => d,
        Err(e) => return Err(ErrorKind::InvalidKey(e)),
    };
    if decoded.len() < 4 {
        return Err(ErrorKind::InvalidKey(String::from_str("Base58 payload too short")));
    }
    let mut converted: Vec<u8> = vec![0x04u8, 0x88u8, 0xB2u8, 0x1Eu8];
    let mut i: usize = 4;
    while i < decoded.len()
        invariant
            4 <= i <= decoded@.len(),
            converted@ == xpub_version() + decoded@.subrange(4, i as int),
        decreases decoded@.len() - i,
    {
        converted.push(decoded[i]);
        assert(decoded@.subrange(4, i + 1) =~= decoded@.subrange(4, i as int).push(decoded@[i as int]));
        i = i + 1;
    }
    Ok(base58check_encode(converted.as_slice()))
}

/// Whether text parses as a BIP32 extended public key.
pub uninterp spec fn xpub_text_valid(t: Seq<char>) -> bool;

/// Relies on bitcoin's `Xpub` text parser: whether the text is accepted, and
/// the parser's reason when it is not.
#[verifier::external_body]
fn check_xpub_text(t: &str) -> (r: Result<(), String>)
    ensures
        r is Ok <==> xpub_text_valid(t@),
{
    t.parse::<bitcoin::bip32::Xpub>().map(|_| ()).map_err(|e| format!("Invalid xpub: {}", e))
}

/// A parsed extended public key: the family its text announced, and the plain
/// extended public key text from which children are derived.
#[derive(Debug, Clone)]
pub struct ExtendedKey {
    pub family: AddressFamily,
    pub canonical: String,
}

impl ExtendedKey {
    /// The canonical text parses as an extended public key.
    pub open spec fn wf(&self) -> bool {
        xpub_text_valid(self.canonical@)
    }
}

/// The family and canonical text that input `s` parses to, if any.
pub open spec fn parsed_key(s: Seq<char>) -> Option<(AddressFamily, Seq<char>)> {
    match canonical_text(s) {
        Some(c) => if xpub_text_valid(c) {
            Some((family_of(s), c))
        } else {
            None
        },
        None => None,
    }
}

/// Parses extended public key text (`xpub`, `ypub` or `zpub`).
pub fn parse_xpub(s: &str) -> (r: Result<ExtendedKey, ErrorKind>)
    ensures
        r is Ok <==> parsed_key(s@) is Some,
        r is Ok ==> r->Ok_0.wf() && (r->Ok_0.family, r->Ok_0.canonical@) == parsed_key(s@)->0,
        r is Err ==> r->Err_0 is InvalidKey,
{
    let family = family_from_prefix(s);
    let canonical = match family {
        AddressFamily::Legacy => String::from_str(s),
        _ => convert_to_xpub(s)?,
    };
    match check_xpub_text(canonical.as_str()) {
        Ok(()) => Ok(ExtendedKey { family, canonical }),
        Err(e) => Err(ErrorKind::InvalidKey(e)),
    }
}

} // verus!
