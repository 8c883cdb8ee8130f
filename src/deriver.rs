//! Non-hardened child key derivation and address rendering.
use vstd::prelude::*;
use crate::keyformat::{parse_xpub, parsed_key, AddressFamily, ExtendedKey};
use crate::ErrorKind;

verus! {

/// First index of the hardened derivation space.
pub const HARDENED_START: u32 = 0x8000_0000;

/// The compressed public key of the child at `m/chain/index` of the extended
/// public key with text `t`, if derivation succeeds.
pub uninterp spec fn child_pubkey_of(t: Seq<char>, chain: u32, index: u32) -> Option<Seq<u8>>;

/// The mainnet native segwit address of a compressed public key.
pub uninterp spec fn p2wpkh_text(pk: Seq<u8>) -> Option<Seq<char>>;

/// The mainnet nested segwit address of a compressed public key.
pub uninterp spec fn p2shwpkh_text(pk: Seq<u8>) -> Option<Seq<char>>;

/// The mainnet legacy address of a compressed public key.
pub uninterp spec fn p2pkh_text(pk: Seq<u8>) -> Option<Seq<char>>;

/// Relies on bitcoin's `Xpub` text parser and `Xpub::derive_pub` along the
/// two normal child numbers `chain` and `index`; the child key is returned in
/// its 33-byte compressed form.
#[verifier::external_body]
fn derive_child_pubkey(t: &str, chain: u32, index: u32) -> (r: Option<Vec<u8>>)
    requires
        chain < HARDENED_START,
        index < HARDENED_START,
    ensures
        r is Some <==> child_pubkey_of(t@, chain, index) is Some,
        r is Some ==> r->0@ == child_pubkey_of(t@, chain, index)->0,
{
    let xpub = t.parse::<bitcoin::bip32::Xpub>().ok()?;
    let path = [bitcoin::bip32::ChildNumber::Normal { index: chain }, bitcoin::bip32::ChildNumber::Normal { index }];
    let child = xpub.derive_pub(&bitcoin::secp256k1::Secp256k1::verification_only(), &path).ok()?;
    Some(child.public_key.serialize().to_vec())
}

/// Relies on bitcoin's `Address::p2wpkh` for the main network.
#[verifier::external_body]
fn p2wpkh_address(pk: &[u8]) -> (r: Option<String>)
    ensures
        r is Some <==> p2wpkh_text(pk@) is Some,
        r is Some ==> r->0@ == p2wpkh_text(pk@)->0,
{
    let key = bitcoin::CompressedPublicKey::from_slice(pk).ok()?;
    Some(bitcoin::Address::p2wpkh(&key, bitcoin::Network::Bitcoin).to_string())
}

/// Relies on bitcoin's `Address::p2shwpkh` for the main network.
#[verifier::external_body]
fn p2shwpkh_address(pk: &[u8]) -> (r: Option<String>)
    ensures
        r is Some <==> p2shwpkh_text(pk@) is Some,
        r is Some ==> r->0@ == p2shwpkh_text(pk@)->0,
{
    let key = bitcoin::CompressedPublicKey::from_slice(pk).ok()?;
    Some(bitcoin::Address::p2shwpkh(&key, bitcoin::Network::Bitcoin).to_string())
}

/// Relies on bitcoin's `Address::p2pkh` for the main network.
#[verifier::external_body]
fn p2pkh_address(pk: &[u8]) -> (r: Option<String>)
    ensures
        r is Some <==> p2pkh_text(pk@) is Some,
        r is Some ==> r->0@ == p2pkh_text(pk@)->0,
{
    let key = bitcoin::CompressedPublicKey::from_slice(pk).ok()?;
    Some(bitcoin::Address::p2pkh(&key, bitcoin::Network::Bitcoin).to_string())
}

/// The address of a compressed public key in the given family.
pub open spec fn address_text(family: AddressFamily, pk: Seq<u8>) -> Option<Seq<char>> {
    match family {
        AddressFamily::NativeSegwit => p2wpkh_text(pk),
        AddressFamily::NestedSegwit => p2shwpkh_text(pk),
        AddressFamily::Legacy => p2pkh_text(pk),
    }
}

/// The address at `m/chain/index` of the key with the given family and
/// canonical text.
pub open spec fn address_at(family: AddressFamily, t: Seq<char>, chain: u32, index: u32) -> Option<Seq<char>> {
    match child_pubkey_of(t, chain, index) {
        Some(pk) => address_text(family, pk),
        None => None,
    }
}

/// Renders a compressed public key as an address of the given family.
pub fn pubkey_to_address(pk: &[u8], family: AddressFamily) -> (r: Option<String>)
    ensures
        r is Some <==> address_text(family, pk@) is Some,
        r is Some ==> r->0@ == address_text(family, pk@)->0,
{
    match family {
        AddressFamily::NativeSegwit => p2wpkh_address(pk),
        AddressFamily::NestedSegwit => p2shwpkh_address(pk),
        AddressFamily::Legacy => p2pkh_address(pk),
    }
}

/// Whether every index of `[start, start + count)`, and the chain, lie in the
/// non-hardened space.
pub open spec fn in_normal_range(chain: u32, start: u32, count: u32) -> bool {
    count == 0 || (chain < HARDENED_START && start + count <= HARDENED_START)
}

/// Whether every address of the batch can be derived.
pub open spec fn batch_derivable(family: AddressFamily, t: Seq<char>, chain: u32, start: u32, count: u32) -> bool {
    forall|j: int| 0 <= j < count ==> (#[trigger] address_at(family, t, chain, (start + j) as u32)) is Some
}

/// What deriving a batch from a parsed key gives: the addresses in index
/// order, or `DerivationFailed` as a whole.
pub open spec fn batch_ok(family: AddressFamily, t: Seq<char>, chain: u32, start: u32, count: u32, r: Result<Vec<String>, ErrorKind>) -> bool {
    if in_normal_range(chain, start, count) && batch_derivable(family, t, chain, start, count) {
        &&& r is Ok
        &&& r->Ok_0@.len() == count
        &&& forall|j: int| 0 <= j < count ==> (#[trigger] r->Ok_0@[j])@
            == address_at(family, t, chain, (start + j) as u32)->0
    } else {
        r == Err::<Vec<String>, ErrorKind>(ErrorKind::DerivationFailed)
    }
}

/// Derives the addresses at `m/chain/i` for `i` in `[start, start + count)`.
pub fn derive_from_key(key: &ExtendedKey, chain: u32, start: u32, count: u32) -> (r: Result<Vec<String>, ErrorKind>)
    ensures
        batch_ok(key.family, key.canonical@, chain, start, count, r),
{
    let mut addresses: Vec<String> = Vec::new();
    if count == 0 {
        return Ok(addresses);
    }
    if chain >= HARDENED_START || start >= HARDENED_START || count > HARDENED_START - start {
        return Err(ErrorKind::DerivationFailed);
    }
    let mut k: u32 = 0;
    while k < count
        invariant
            0 < count,
            chain < HARDENED_START,
            start + count <= HARDENED_START,
            k <= count,
            addresses@.len() == k,
            forall|j: int| 0 <= j < k ==> (#[trigger] address_at(key.family, key.canonical@, chain, (start + j) as u32)) is Some,
            forall|j: int| 0 <= j < k ==> (#[trigger] addresses@[j])@
                == address_at(key.family, key.canonical@, chain, (start + j) as u32)->0,
        decreases count - k,
    {
        let index = start + k;
        let pk = match derive_child_pubkey(key.canonical.as_str(), chain, index) {
            Some(pk) => pk,
            None => {
                assert(address_at(key.family, key.canonical@, chain, (start + k) as u32) is None);
                return Err(ErrorKind::DerivationFailed);
            },
        };
        let address = match pubkey_to_address(pk.as_slice(), key.family) {
            Some(a) => a,
            None => {
                assert(address_at(key.family, key.canonical@, chain, (start + k) as u32) is None);
                return Err(ErrorKind::DerivationFailed);
            },
        };
        addresses.push(address);
        k = k + 1;
    }
    Ok(addresses)
}

/// Derives the addresses of chain `chain` for indices `[start, start + count)`
/// of the key written in `xpub_str`.
pub fn derive_addresses_for_chain(xpub_str: &str, chain: u32, start: u32, count: u32) -> (r: Result<Vec<String>, ErrorKind>)
    ensures
        parsed_key(xpub_str@) is None ==> r is Err && r->Err_0 is InvalidKey,
        parsed_key(xpub_str@) is Some ==> {
            let (family, t) = parsed_key(xpub_str@)->0;
            batch_ok(family, t, chain, start, count, r)
        },
{
    let key = parse_xpub(xpub_str)?;
    derive_from_key(&key, chain, start, count)
}

/// Derives receiving addresses (chain 0) for indices `[start, start + count)`.
pub fn derive_addresses(xpub_str: &str, start: u32, count: u32) -> (r: Result<Vec<String>, ErrorKind>)
    ensures
        parsed_key(xpub_str@) is None ==> r is Err && r->Err_0 is InvalidKey,
        parsed_key(xpub_str@) is Some ==> {
            let (family, t) = parsed_key(xpub_str@)->0;
            batch_ok(family, t, 0, start, count, r)
        },
{
    derive_addresses_for_chain(xpub_str, 0, start, count)
}

} // verus!
