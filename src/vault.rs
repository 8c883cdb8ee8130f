//! The vault key hierarchy: the recovery phrase wrapped under a passphrase
//! key, the master key recovered from either credential, passphrase
//! rotation, and the persisted protection status.
use vstd::prelude::*;
use vstd::utf8::{decode_utf8, encode_utf8, is_ascii_chars, valid_utf8};
use vstd::string::StringSliceAdditionalSpecFns;
use crate::crypto::{derive_key_from_passphrase, derive_key_from_recovery, master_key_of, normalize_phrase, normalized, phrase_valid, validate_recovery_phrase, wrap_key_of};
use crate::encoding::{from_hex, hex_bytes_of, hex_digit, hex_text, hex_value, is_hex_bytes, to_hex};
use crate::text::text_eq;
use crate::ErrorKind;

verus! {

broadcast use vstd::utf8::group_utf8_lib;

/// Wrap material persisted for passphrase unlock: the salt of the wrap key,
/// and the recovery phrase enciphered under that key as hexadecimal text.
#[derive(Debug, Clone)]
pub struct PassphraseWrap {
    pub salt: String,
    pub wrapped: String,
}

/// Bytes `d` combined by exclusive or with key bytes `k` repeated to length.
pub open spec fn xor_bytes(d: Seq<u8>, k: Seq<u8>) -> Seq<u8> {
    Seq::new(d.len(), |i: int| d[i] ^ k[i % k.len() as int])
}

/// Relies on `String::from_utf8`: valid UTF-8 decodes, anything else is
/// refused.
#[verifier::external_body]
fn utf8_text(b: Vec<u8>) -> (r: Option<String>)
    ensures
        r is Some <==> valid_utf8(b@),
        r is Some ==> r->0@ == decode_utf8(b@),
{
    String::from_utf8(b).ok()
}

/// The hexadecimal text of the UTF-8 bytes of `data` enciphered under the
/// bytes of `key`.
pub open spec fn wrapped_text(data: Seq<char>, key: Seq<char>) -> Seq<char> {
    hex_text(xor_bytes(encode_utf8(data), encode_utf8(key)))
}

/// What hexadecimal text `t` deciphers to under key bytes `k`, if it is
/// hexadecimal and the result is valid UTF-8.
pub open spec fn deciphered(t: Seq<u8>, k: Seq<u8>) -> Option<Seq<char>> {
    if is_hex_bytes(t) && valid_utf8(xor_bytes(hex_bytes_of(t), k)) {
        Some(decode_utf8(xor_bytes(hex_bytes_of(t), k)))
    } else {
        None
    }
}

/// Enciphers `data` under `key` (byte-wise exclusive or with the key's bytes
/// repeated) and writes the result as hexadecimal text.
pub fn xor_encrypt(data: &str, key: &str) -> (r: String)
    requires
        key.len() > 0,
    ensures
        r@ == wrapped_text(data@, key@),
{
    let d = data.as_bytes();
    let k = key.as_bytes();
    let mut out: Vec<u8> = Vec::new();
    let mut i: usize = 0;
    while i < d.len()
        invariant
            d@ == encode_utf8(data@),
            k@ == encode_utf8(key@),
            k@.len() > 0,
            i <= d@.len(),
            out@ =~= xor_bytes(d@, k@).subrange(0, i as int),
        decreases d@.len() - i,
    {
        out.push(d[i] ^ k[i % k.len()]);
        i = i + 1;
    }
    to_hex(out.as_slice())
}

/// Deciphers hexadecimal text written by `xor_encrypt` under `key`.
pub fn xor_decrypt(encrypted_hex: &str, key: &str) -> (r: Result<String, ErrorKind>)
    requires
        key.len() > 0,
    ensures
        deciphered(encrypted_hex.spec_bytes(), key.spec_bytes()) is Some ==> r is Ok
            && r->Ok_0@ == deciphered(encrypted_hex.spec_bytes(), key.spec_bytes())->0,
        deciphered(encrypted_hex.spec_bytes(), key.spec_bytes()) is None ==> r == Err::<String, ErrorKind>(ErrorKind::InvalidCredential),
{
    let e = match from_hex(encrypted_hex) {
        Some(e) => e,
        None => return Err(ErrorKind::InvalidCredential),
    };
    let k = key.as_bytes();
    let mut out: Vec<u8> = Vec::new();
    let mut i: usize = 0;
    while i < e.len()
        invariant
            k@ == key.spec_bytes(),
            k@.len() > 0,
            i <= e@.len(),
            out@ =~= xor_bytes(e@, k@).subrange(0, i as int),
        decreases e@.len() - i,
    {
        out.push(e[i] ^ k[i % k.len()]);
        i = i + 1;
    }
    assert(out@ =~= xor_bytes(e@, k@));
    match utf8_text(out) {
        Some(s) => Ok(s),
        None => Err(ErrorKind::InvalidCredential),
    }
}

/// Hexadecimal text is ASCII: its UTF-8 bytes are its characters.
pub proof fn lemma_hex_text_bytes(b: Seq<u8>)
    ensures
        is_ascii_chars(hex_text(b)),
        encode_utf8(hex_text(b)).len() == 2 * b.len(),
        forall|i: int| 0 <= i < 2 * b.len() ==> #[trigger] encode_utf8(hex_text(b))[i] == hex_text(b)[i] as u8,
{
    let t = hex_text(b);
    assert forall|i: int| 0 <= i < t.len() implies '\0' <= #[trigger] t[i] <= '\u{7f}' by {
        let n = if i % 2 == 0 { b[i / 2] / 16 } else { b[i / 2] % 16 };
        assert(n < 16);
        assert(t[i] == hex_digit(n));
    }
    vstd::utf8::is_ascii_chars_encode_utf8(t);
}

/// Decoding the hexadecimal text of bytes gives the bytes back.
pub proof fn lemma_hex_round_trip(b: Seq<u8>)
    ensures
        is_hex_bytes(encode_utf8(hex_text(b))),
        hex_bytes_of(encode_utf8(hex_text(b))) == b,
{
    lemma_hex_text_bytes(b);
    let t = encode_utf8(hex_text(b));
    assert forall|n: u8| n < 16 implies (#[trigger] hex_digit(n)) as u8 as int == (if n < 10 { 48 + n } else { 87 + n })
        && hex_value(hex_digit(n) as u8) == n by {
    }
    assert forall|i: int| 0 <= i < t.len() implies crate::encoding::is_hex_byte(#[trigger] t[i]) by {
        let n = if i % 2 == 0 { b[i / 2] / 16 } else { b[i / 2] % 16 };
        assert(hex_text(b)[i] == hex_digit(n));
    }
    assert forall|j: int| 0 <= j < b.len() implies #[trigger] hex_bytes_of(t)[j] == b[j] by {
        assert(hex_text(b)[2 * j] == hex_digit(b[j] / 16));
        assert(hex_text(b)[2 * j + 1] == hex_digit(b[j] % 16));
        assert(t[2 * j] == hex_digit(b[j] / 16) as u8);
        assert(t[2 * j + 1] == hex_digit(b[j] % 16) as u8);
        let x = b[j];
        assert((x / 16) * 16 + x % 16 == x);
    }
    assert(hex_bytes_of(t) =~= b);
}

/// Enciphering twice under the same key gives the bytes back.
pub proof fn lemma_xor_twice(d: Seq<u8>, k: Seq<u8>)
    requires
        k.len() > 0,
    ensures
        xor_bytes(xor_bytes(d, k), k) == d,
{
    assert forall|i: int| 0 <= i < d.len() implies #[trigger] xor_bytes(xor_bytes(d, k), k)[i] == d[i] by {
        let a = d[i];
        let c = k[i % k.len() as int];
        assert((a ^ c) ^ c == a) by (bit_vector);
    }
    assert(xor_bytes(xor_bytes(d, k), k) =~= d);
}

/// Text enciphered by `xor_encrypt` deciphers to itself under the same key.
pub proof fn lemma_wrap_round_trip(data: Seq<char>, key: Seq<char>)
    requires
        encode_utf8(key).len() > 0,
    ensures
        deciphered(encode_utf8(wrapped_text(data, key)), encode_utf8(key)) == Some(data),
{
    let x = xor_bytes(encode_utf8(data), encode_utf8(key));
    lemma_hex_round_trip(x);
    lemma_xor_twice(encode_utf8(data), encode_utf8(key));
}

/// The recovery phrase that a passphrase recovers from wrap material: the
/// wrap is deciphered under the passphrase's key and must be a valid phrase.
pub open spec fn unwrapped(passphrase: Seq<char>, salt: Seq<char>, wrapped: Seq<char>) -> Option<Seq<char>> {
    match wrap_key_of(passphrase, salt) {
        Some(k) => match deciphered(encode_utf8(wrapped), encode_utf8(k)) {
            Some(p) => if phrase_valid(p) {
                Some(p)
            } else {
                None
            },
            None => None,
        },
        None => None,
    }
}

/// The master key that a passphrase opens through wrap material.
pub open spec fn passphrase_master_key(passphrase: Seq<char>, salt: Seq<char>, wrapped: Seq<char>) -> Option<Seq<char>> {
    match unwrapped(passphrase, salt, wrapped) {
        Some(p) => master_key_of(p),
        None => None,
    }
}

/// A wrap key text is 64 ASCII characters, so 64 bytes.
proof fn lemma_wrap_key_bytes(passphrase: Seq<char>, salt: Seq<char>)
    requires
        wrap_key_of(passphrase, salt) is Some,
    ensures
        encode_utf8(wrap_key_of(passphrase, salt)->0).len() == 64,
{
    let out = crate::crypto::argon2id_output_of(passphrase, salt)->0;
    lemma_hex_text_bytes(crate::crypto::fit32(out));
}

/// Recovers the recovery phrase from wrap material with a passphrase. Every
/// failure is reported alike, as `InvalidCredential`.
pub fn unwrap_recovery_phrase(passphrase: &str, wrap: &PassphraseWrap) -> (r: Result<String, ErrorKind>)
    ensures
        unwrapped(passphrase@, wrap.salt@, wrap.wrapped@) is Some ==> r is Ok
            && r->Ok_0@ == unwrapped(passphrase@, wrap.salt@, wrap.wrapped@)->0,
        unwrapped(passphrase@, wrap.salt@, wrap.wrapped@) is None ==> r == Err::<String, ErrorKind>(ErrorKind::InvalidCredential),
{
    let key = derive_key_from_passphrase(passphrase, wrap.salt.as_str())?;
    proof { lemma_wrap_key_bytes(passphrase@, wrap.salt@); }
    let phrase = xor_decrypt(wrap.wrapped.as_str(), key.as_str())?;
    if !validate_recovery_phrase(phrase.as_str()) {
        return Err(ErrorKind::InvalidCredential);
    }
    Ok(phrase)
}

/// The master key opened by a passphrase through wrap material.
pub fn master_key_from_passphrase(passphrase: &str, wrap: &PassphraseWrap) -> (r: Result<String, ErrorKind>)
    ensures
        passphrase_master_key(passphrase@, wrap.salt@, wrap.wrapped@) is Some ==> r is Ok
            && r->Ok_0@ == passphrase_master_key(passphrase@, wrap.salt@, wrap.wrapped@)->0,
        passphrase_master_key(passphrase@, wrap.salt@, wrap.wrapped@) is None
            ==> r == Err::<String, ErrorKind>(ErrorKind::InvalidCredential),
{
    let phrase = unwrap_recovery_phrase(passphrase, wrap)?;
    derive_key_from_recovery(phrase.as_str())
}

/// What encrypting the store needs: the master key of the recovery phrase,
/// and the wrap material for the passphrase.
#[derive(Debug, Clone)]
pub struct EncryptionPlan {
    pub master_key: String,
    pub wrap: PassphraseWrap,
}

/// Prepares the keys for encrypting the store with `recovery_phrase` as the
/// master credential and `passphrase`, under the fresh `salt`, as the
/// convenience credential. The phrase is wrapped in normalized form.
pub fn plan_encryption(passphrase: &str, recovery_phrase: &str, salt: &str) -> (r: Result<EncryptionPlan, ErrorKind>)
    ensures
        master_key_of(recovery_phrase@) is Some && wrap_key_of(passphrase@, salt@) is Some ==> {
            &&& r is Ok
            &&& r->Ok_0.master_key@ == master_key_of(recovery_phrase@)->0
            &&& r->Ok_0.wrap.salt@ == salt@
            &&& r->Ok_0.wrap.wrapped@ == wrapped_text(normalized(recovery_phrase@), wrap_key_of(passphrase@, salt@)->0)
        },
        !(master_key_of(recovery_phrase@) is Some && wrap_key_of(passphrase@, salt@) is Some)
            ==> r == Err::<EncryptionPlan, ErrorKind>(ErrorKind::InvalidCredential),
{
    let master_key = derive_key_from_recovery(recovery_phrase)?;
    let normalized_phrase = normalize_phrase(recovery_phrase);
    let key = derive_key_from_passphrase(passphrase, salt)?;
    proof { lemma_wrap_key_bytes(passphrase@, salt@); }
    let wrapped = xor_encrypt(normalized_phrase.as_str(), key.as_str());
    Ok(EncryptionPlan { master_key, wrap: PassphraseWrap { salt: String::from_str(salt), wrapped } })
}

/// Re-wraps the recovery phrase under `new_passphrase` and the fresh
/// `new_salt`, after `old_passphrase` has proved possession by unwrapping it.
pub fn plan_rotation(old_passphrase: &str, new_passphrase: &str, wrap: &PassphraseWrap, new_salt: &str) -> (r: Result<PassphraseWrap, ErrorKind>)
    ensures
        unwrapped(old_passphrase@, wrap.salt@, wrap.wrapped@) is Some && wrap_key_of(new_passphrase@, new_salt@) is Some ==> {
            &&& r is Ok
            &&& r->Ok_0.salt@ == new_salt@
            &&& r->Ok_0.wrapped@ == wrapped_text(
                unwrapped(old_passphrase@, wrap.salt@, wrap.wrapped@)->0,
                wrap_key_of(new_passphrase@, new_salt@)->0,
            )
        },
        !(unwrapped(old_passphrase@, wrap.salt@, wrap.wrapped@) is Some && wrap_key_of(new_passphrase@, new_salt@) is Some)
            ==> r == Err::<PassphraseWrap, ErrorKind>(ErrorKind::InvalidCredential),
{
    let phrase = unwrap_recovery_phrase(old_passphrase, wrap)?;
    let key = derive_key_from_passphrase(new_passphrase, new_salt)?;
    proof { lemma_wrap_key_bytes(new_passphrase@, new_salt@); }
    let wrapped = xor_encrypt(phrase.as_str(), key.as_str());
    Ok(PassphraseWrap { salt: String::from_str(new_salt), wrapped })
}

/// After encryption, the passphrase opens the same master key as the
/// recovery phrase (for a phrase whose normalized form is already
/// normalized).
pub proof fn lemma_passphrase_opens_recovery_key(passphrase: Seq<char>, salt: Seq<char>, phrase: Seq<char>)
    requires
        master_key_of(phrase) is Some,
        wrap_key_of(passphrase, salt) is Some,
        normalized(normalized(phrase)) == normalized(phrase),
    ensures
        unwrapped(passphrase, salt, wrapped_text(normalized(phrase), wrap_key_of(passphrase, salt)->0))
            == Some(normalized(phrase)),
        passphrase_master_key(passphrase, salt, wrapped_text(normalized(phrase), wrap_key_of(passphrase, salt)->0))
            == master_key_of(phrase),
{
    lemma_wrap_key_bytes(passphrase, salt);
    lemma_wrap_round_trip(normalized(phrase), wrap_key_of(passphrase, salt)->0);
}

/// After rotation, the new passphrase recovers the same phrase, and so opens
/// the same master key, as the old passphrase did before.
pub proof fn lemma_rotation_keeps_phrase(
    old_passphrase: Seq<char>,
    salt: Seq<char>,
    wrapped: Seq<char>,
    new_passphrase: Seq<char>,
    new_salt: Seq<char>,
)
    requires
        unwrapped(old_passphrase, salt, wrapped) is Some,
        wrap_key_of(new_passphrase, new_salt) is Some,
    ensures
        unwrapped(new_passphrase, new_salt, wrapped_text(unwrapped(old_passphrase, salt, wrapped)->0, wrap_key_of(new_passphrase, new_salt)->0))
            == unwrapped(old_passphrase, salt, wrapped),
        passphrase_master_key(new_passphrase, new_salt, wrapped_text(unwrapped(old_passphrase, salt, wrapped)->0, wrap_key_of(new_passphrase, new_salt)->0))
            == passphrase_master_key(old_passphrase, salt, wrapped),
{
    lemma_wrap_key_bytes(new_passphrase, new_salt);
    lemma_wrap_round_trip(unwrapped(old_passphrase, salt, wrapped)->0, wrap_key_of(new_passphrase, new_salt)->0);
}

/// The persisted protection state of the store.
#[derive(Debug, Clone, Copy, PartialEq, Eq, Structural)]
pub enum VaultStatus {
    Plaintext,
    Encrypted,
}

/// A text without its leading and trailing whitespace.
pub uninterp spec fn trimmed_of(s: Seq<char>) -> Seq<char>;

/// Relies on `str::trim`.
#[verifier::external_body]
fn trim_text(s: &str) -> (r: &str)
    ensures
        r@ == trimmed_of(s@),
{
    s.trim()
}

/// The text of the status marker.
pub open spec fn marker_text(status: VaultStatus) -> Seq<char> {
    match status {
        VaultStatus::Encrypted => "encrypted"@,
        VaultStatus::Plaintext => "plaintext"@,
    }
}

impl VaultStatus {
    /// The status a marker's content records: encrypted exactly when the
    /// content, trimmed, reads `encrypted`.
    pub fn from_marker(content: &str) -> (r: VaultStatus)
        ensures
            r == (if trimmed_of(content@) == "encrypted"@ { VaultStatus::Encrypted } else { VaultStatus::Plaintext }),
    {
        if text_eq(trim_text(content), "encrypted") {
            VaultStatus::Encrypted
        } else {
            VaultStatus::Plaintext
        }
    }

    /// The marker content that records this status.
    pub fn marker(&self) -> (r: String)
        ensures
            r@ == marker_text(*self),
    {
        match self {
            VaultStatus::Encrypted => String::from_str("encrypted"),
            VaultStatus::Plaintext => String::from_str("plaintext"),
        }
    }
}

} // verus!
