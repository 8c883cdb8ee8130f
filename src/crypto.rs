//! Key material: recovery phrases and the master key derived from them,
//! passphrase wrap keys, salts, and the advisory password strength score.
use vstd::prelude::*;
use vstd::utf8::encode_utf8;
use crate::encoding::{hex_text, to_hex};
use crate::text::{chars_of, contains_text, join_words, joined, lower_of, lowercase, occurs_in, split_words, words_of};
use crate::ErrorKind;

verus! {

/// The 64-byte BIP39 seed (empty passphrase) of a normalized English phrase,
/// or `None` where the phrase does not parse (word count, unknown word,
/// checksum).
pub uninterp spec fn bip39_seed_of(phrase: Seq<char>) -> Option<Seq<u8>>;

/// The English mnemonic text of 16 bytes of entropy.
pub uninterp spec fn mnemonic_text_of(entropy: Seq<u8>) -> Seq<char>;

/// The Argon2id (default parameters) output for a passphrase, with the bytes
/// of `salt` as salt, or `None` where hashing refuses the input.
pub uninterp spec fn argon2id_output_of(passphrase: Seq<char>, salt: Seq<char>) -> Option<Seq<u8>>;

/// Relies on bip39's `Mnemonic::parse_in_normalized` (English) and
/// `Mnemonic::to_seed` with an empty passphrase.
#[verifier::external_body]
fn mnemonic_seed(normalized: &str) -> (r: Option<Vec<u8>>)
    ensures
        r is Some <==> bip39_seed_of(normalized@) is Some,
        r is Some ==> r->0@ == bip39_seed_of(normalized@)->0 && r->0@.len() == 64,
{
    bip39::Mnemonic::parse_in_normalized(bip39::Language::English, normalized).ok().map(|m| m.to_seed("").to_vec())
}

/// Relies on bip39's `Mnemonic::from_entropy_in` (English), which accepts 16
/// bytes of entropy, and its text form (words joined by single spaces).
#[verifier::external_body]
fn mnemonic_from_entropy(entropy: &[u8]) -> (r: String)
    requires
        entropy@.len() == 16,
    ensures
        r@ == mnemonic_text_of(entropy@),
{
    bip39::Mnemonic::from_entropy_in(bip39::Language::English, entropy).expect("16 bytes is a valid entropy length").to_string()
}

/// Relies on argon2's `PasswordHasher::hash_password` for `Argon2::default()`
/// (Argon2id), with the salt text's bytes encoded by `SaltString::encode_b64`.
/// A salt of fewer than 3 bytes encodes to fewer than the 4 characters that
/// `SaltString::as_salt` expects, and would panic there.
#[verifier::external_body]
fn argon2id_hash(passphrase: &str, salt: &str) -> (r: Option<Vec<u8>>)
    requires
        encode_utf8(salt@).len() >= 3,
    ensures
        r is Some <==> argon2id_output_of(passphrase@, salt@) is Some,
        r is Some ==> r->0@ == argon2id_output_of(passphrase@, salt@)->0,
{
    let salt = argon2::password_hash::SaltString::encode_b64(salt.as_bytes()).ok()?;
    let hash = argon2::PasswordHasher::hash_password(&argon2::Argon2::default(), passphrase.as_bytes(), &salt).ok()?;
    Some(hash.hash?.as_bytes().to_vec())
}

/// Relies on getrandom's `getrandom`: `n` bytes from the operating system's
/// secure source, or `None` where the source fails.
#[verifier::external_body]
fn random_bytes(n: usize) -> (r: Option<Vec<u8>>)
    ensures
        r is Some ==> r->0@.len() == n,
{
    let mut b = vec![0u8; n];
    getrandom::getrandom(&mut b).ok()?;
    Some(b)
}

/// A phrase lowercased, with its words separated by single spaces.
pub open spec fn normalized(phrase: Seq<char>) -> Seq<char> {
    joined(words_of(lower_of(phrase)))
}

/// Whether a phrase is a valid English recovery phrase once normalized.
pub open spec fn phrase_valid(phrase: Seq<char>) -> bool {
    bip39_seed_of(normalized(phrase)) is Some
}

/// The master key of a phrase: the hexadecimal text of the first 32 bytes of
/// its seed.
pub open spec fn master_key_of(phrase: Seq<char>) -> Option<Seq<char>> {
    match bip39_seed_of(normalized(phrase)) {
        Some(seed) => Some(hex_text(seed.subrange(0, 32))),
        None => None,
    }
}

/// The master key depends on the phrase alone, and only through its
/// normalized form: two phrases that normalize alike (in particular, the same
/// phrase twice) give the same key, or are both invalid.
pub proof fn lemma_master_key_deterministic(p: Seq<char>, q: Seq<char>)
    requires
        normalized(p) == normalized(q),
    ensures
        master_key_of(p) == master_key_of(q),
        phrase_valid(p) == phrase_valid(q),
{
}

/// Bytes cut or padded with zeros to exactly 32.
pub open spec fn fit32(b: Seq<u8>) -> Seq<u8> {
    if b.len() >= 32 {
        b.subrange(0, 32)
    } else {
        b + Seq::new((32 - b.len()) as nat, |i: int| 0u8)
    }
}

/// The wrap key of a passphrase under a salt: the hexadecimal text of its
/// Argon2id output fitted to 32 bytes.
/// A salt shorter than 3 bytes gives no key.
pub open spec fn wrap_key_of(passphrase: Seq<char>, salt: Seq<char>) -> Option<Seq<char>> {
    if encode_utf8(salt).len() < 3 {
        None
    } else {
        match argon2id_output_of(passphrase, salt) {
            Some(out) => Some(hex_text(fit32(out))),
            None => None,
        }
    }
}

/// Lowercases a phrase and separates its words by single spaces.
pub fn normalize_phrase(phrase: &str) -> (r: String)
    ensures
        r@ == normalized(phrase@),
{
    let lower = lowercase(phrase);
    let words = split_words(lower.as_str());
    join_words(&words)
}

/// Whether `phrase` is a valid English recovery phrase once normalized.
pub fn validate_recovery_phrase(phrase: &str) -> (r: bool)
    ensures
        r == phrase_valid(phrase@),
{
    let normalized = normalize_phrase(phrase);
    mnemonic_seed(normalized.as_str()).is_some()
}

/// The master key of a recovery phrase, as 64 hexadecimal digits; the same
/// phrase always gives the same key.
pub fn derive_key_from_recovery(recovery_phrase: &str) -> (r: Result<String, ErrorKind>)
    ensures
        r is Ok <==> master_key_of(recovery_phrase@) is Some,
        r is Ok ==> r->Ok_0@ == master_key_of(recovery_phrase@)->0 && r->Ok_0@.len() == 64,
        r is Err ==> r->Err_0 == ErrorKind::InvalidCredential,
{
    let normalized = normalize_phrase(recovery_phrase);
    let seed = match mnemonic_seed(normalized.as_str()) {
        Some(s) => s,
        None => return Err(ErrorKind::InvalidCredential),
    };
    let key = slice_prefix(&seed, 32);
    Ok(to_hex(key.as_slice()))
}

/// The first `n` bytes.
fn slice_prefix(b: &Vec<u8>, n: usize) -> (r: Vec<u8>)
    requires
        n <= b@.len(),
    ensures
        r@ == b@.subrange(0, n as int),
{
    let mut r: Vec<u8> = Vec::new();
    let mut i: usize = 0;
    while i < n
        invariant
            n <= b@.len(),
            i <= n,
            r@ == b@.subrange(0, i as int),
        decreases n - i,
    {
        r.push(b[i]);
        assert(r@ =~= b@.subrange(0, i + 1));
        i = i + 1;
    }
    r
}

/// The wrap key of a passphrase under a salt, as 64 hexadecimal digits.
pub fn derive_key_from_passphrase(passphrase: &str, salt: &str) -> (r: Result<String, ErrorKind>)
    ensures
        r is Ok <==> wrap_key_of(passphrase@, salt@) is Some,
        r is Ok ==> r->Ok_0@ == wrap_key_of(passphrase@, salt@)->0 && r->Ok_0@.len() == 64,
        r is Err ==> r->Err_0 == ErrorKind::InvalidCredential,
{
    if salt.as_bytes().len() < 3 {
        return Err(ErrorKind::InvalidCredential);
    }
    let out = match argon2id_hash(passphrase, salt) {
        Some(o) => o,
        None => return Err(ErrorKind::InvalidCredential),
    };
    let mut key: Vec<u8> = Vec::new();
    let mut i: usize = 0;
    while i < 32
        invariant
            i <= 32,
            key@.len() == i,
            forall|j: int| 0 <= j < i ==> #[trigger] key@[j] == fit32(out@)[j],
        decreases 32 - i,
    {
        if i < out.len() {
            key.push(out[i]);
        } else {
            key.push(0u8);
        }
        i = i + 1;
    }
    assert(key@ =~= fit32(out@));
    Ok(to_hex(key.as_slice()))
}

/// A fresh salt: 16 random bytes as 32 hexadecimal digits.
pub fn generate_salt() -> (r: Result<String, ErrorKind>)
    ensures
        r is Ok ==> exists|b: Seq<u8>| b.len() == 16 && r->Ok_0@ == hex_text(b),
        r is Ok ==> r->Ok_0@.len() == 32,
        r is Err ==> r->Err_0 == ErrorKind::RandomSourceFailure,
{
    match random_bytes(16) {
        Some(b) => Ok(to_hex(b.as_slice())),
        None => Err(ErrorKind::RandomSourceFailure),
    }
}

/// A new 12-word recovery phrase from 16 bytes of secure randomness.
pub fn generate_recovery_phrase() -> (r: Result<String, ErrorKind>)
    ensures
        r is Ok ==> exists|e: Seq<u8>| e.len() == 16 && r->Ok_0@ == mnemonic_text_of(e),
        r is Err ==> r->Err_0 == ErrorKind::RandomSourceFailure,
{
    match random_bytes(16) {
        Some(entropy) => Ok(mnemonic_from_entropy(entropy.as_slice())),
        None => Err(ErrorKind::RandomSourceFailure),
    }
}

/// Whether a character is alphabetic or numeric in Unicode's sense.
pub uninterp spec fn alphanumeric(c: char) -> bool;

/// Relies on `char::is_alphanumeric`.
#[verifier::external_body]
fn is_alphanumeric(c: char) -> (r: bool)
    ensures
        r == alphanumeric(c),
{
    c.is_alphanumeric()
}

pub open spec fn is_ascii_lower(c: char) -> bool {
    'a' <= c <= 'z'
}

pub open spec fn is_ascii_upper(c: char) -> bool {
    'A' <= c <= 'Z'
}

pub open spec fn is_ascii_digit(c: char) -> bool {
    '0' <= c <= '9'
}

/// Whether some character of `s` satisfies `p`.
pub open spec fn has_char(s: Seq<char>, p: spec_fn(char) -> bool) -> bool {
    exists|i: int| 0 <= i < s.len() && p(#[trigger] s[i])
}

/// Points for a password of `n` bytes: 20 from 8, 15 more from 12, 10 more
/// from 16, 5 more from 20.
pub open spec fn length_points(n: int) -> int {
    (if n >= 8 { 20int } else { 0 }) + (if n >= 12 { 15int } else { 0 }) + (if n >= 16 { 10int } else { 0 }) + (if n >= 20 { 5int } else { 0 })
}

/// The four character classes that a password shows: lowercase, uppercase,
/// digit, and anything neither alphabetic nor numeric.
pub open spec fn classes(s: Seq<char>) -> (bool, bool, bool, bool) {
    (
        has_char(s, |c: char| is_ascii_lower(c)),
        has_char(s, |c: char| is_ascii_upper(c)),
        has_char(s, |c: char| is_ascii_digit(c)),
        has_char(s, |c: char| !alphanumeric(c)),
    )
}

/// Points for the classes shown (10, 15, 15, 20) and the bonus for showing
/// three (10) or all four (10 more).
pub open spec fn class_points(k: (bool, bool, bool, bool)) -> int {
    let variety = (if k.0 { 1int } else { 0 }) + (if k.1 { 1int } else { 0 }) + (if k.2 { 1int } else { 0 }) + (if k.3 { 1int } else { 0 });
    (if k.0 { 10int } else { 0 }) + (if k.1 { 15int } else { 0 }) + (if k.2 { 15int } else { 0 }) + (if k.3 { 20int } else { 0 })
        + (if variety >= 3 { 10int } else { 0 }) + (if variety == 4 { 10int } else { 0 })
}

/// Whether the lowercased password holds a common pattern.
pub open spec fn has_common_pattern(lower: Seq<char>) -> bool {
    occurs_in(lower, "password"@) || occurs_in(lower, "123456"@) || occurs_in(lower, "qwerty"@)
}

/// The score of a password with characters `s` and `n` bytes: length and
/// class points, less 30 (not below zero) for a common pattern, at most 100.
pub open spec fn strength_score(s: Seq<char>, n: int) -> int {
    let raw = length_points(n) + class_points(classes(s));
    let after = if has_common_pattern(lower_of(s)) {
        if raw >= 30 { raw - 30 } else { 0 }
    } else {
        raw
    };
    if after > 100 { 100 } else { after }
}

/// The band of a score: its level and its label.
pub open spec fn band_of(score: int) -> (Seq<char>, Seq<char>) {
    if score <= 20 {
        ("very_weak"@, "Very Weak"@)
    } else if score <= 40 {
        ("weak"@, "Weak"@)
    } else if score <= 60 {
        ("fair"@, "Fair"@)
    } else if score <= 80 {
        ("strong"@, "Strong"@)
    } else {
        ("very_strong"@, "Very Strong"@)
    }
}

/// An advisory password strength: a score from 0 to 100 and its band.
#[derive(Debug, Clone)]
pub struct PasswordStrength {
    pub score: u32,
    pub level: String,
    pub label: String,
}

/// Whether some character of `cs` satisfies the class test `k` (0: lowercase,
/// 1: uppercase, 2: digit, 3: neither alphabetic nor numeric).
fn has_class(cs: &Vec<char>, k: u8) -> (r: bool)
    requires
        k < 4,
    ensures
        k == 0 ==> r == classes(cs@).0,
        k == 1 ==> r == classes(cs@).1,
        k == 2 ==> r == classes(cs@).2,
        k == 3 ==> r == classes(cs@).3,
{
    let mut i: usize = 0;
    while i < cs.len()
        invariant
            k < 4,
            i <= cs@.len(),
            k == 0 ==> forall|j: int| 0 <= j < i ==> !is_ascii_lower(#[trigger] cs@[j]),
            k == 1 ==> forall|j: int| 0 <= j < i ==> !is_ascii_upper(#[trigger] cs@[j]),
            k == 2 ==> forall|j: int| 0 <= j < i ==> !is_ascii_digit(#[trigger] cs@[j]),
            k == 3 ==> forall|j: int| 0 <= j < i ==> alphanumeric(#[trigger] cs@[j]),
        decreases cs@.len() - i,
    {
        let c = cs[i];
        let hit = if k == 0 {
            'a' <= c && c <= 'z'
        } else if k == 1 {
            'A' <= c && c <= 'Z'
        } else if k == 2 {
            '0' <= c && c <= '9'
        } else {
            !is_alphanumeric(c)
        };
        if hit {
            let ghost gi = i as int;
            if k == 0 {
                assert((|c: char| is_ascii_lower(c))(cs@[gi]));
            } else if k == 1 {
                assert((|c: char| is_ascii_upper(c))(cs@[gi]));
            } else if k == 2 {
                assert((|c: char| is_ascii_digit(c))(cs@[gi]));
            } else {
                assert((|c: char| !alphanumeric(c))(cs@[gi]));
            }
            return true;
        }
        i = i + 1;
    }
    false
}

/// Scores a password; advisory only.
pub fn calculate_password_strength(password: &str) -> (r: PasswordStrength)
    ensures
        r.score == strength_score(password@, password.len() as int),
        (r.level@, r.label@) == band_of(r.score as int),
{
    let len = password.len();
    let mut score: u32 = 0;
    if len >= 8 {
        score = score + 20;
    }
    if len >= 12 {
        score = score + 15;
    }
    if len >= 16 {
        score = score + 10;
    }
    if len >= 20 {
        score = score + 5;
    }
    let cs = chars_of(password);
    let has_lower = has_class(&cs, 0);
    let has_upper = has_class(&cs, 1);
    let has_digit = has_class(&cs, 2);
    let has_special = has_class(&cs, 3);
    if has_lower {
        score = score + 10;
    }
    if has_upper {
        score = score + 15;
    }
    if has_digit {
        score = score + 15;
    }
    if has_special {
        score = score + 20;
    }
    let mut variety: u32 = 0;
    if has_lower {
        variety = variety + 1;
    }
    if has_upper {
        variety = variety + 1;
    }
    if has_digit {
        variety = variety + 1;
    }
    if has_special {
        variety = variety + 1;
    }
    if variety >= 3 {
        score = score + 10;
    }
    if variety == 4 {
        score = score + 10;
    }
    assert(score == length_points(len as int) + class_points(classes(password@)));
    let lower = lowercase(password);
    let common = contains_text(lower.as_str(), "password") || contains_text(lower.as_str(), "123456")
        || contains_text(lower.as_str(), "qwerty");
    assert(common == has_common_pattern(lower_of(password@)));
    if common {
        score = score.saturating_sub(30);
    }
    let final_score = if score > 100 { 100 } else { score };
    assert(final_score == strength_score(password@, len as int));
    let (level, label) = if final_score <= 20 {
        ("very_weak", "Very Weak")
    } else if final_score <= 40 {
        ("weak", "Weak")
    } else if final_score <= 60 {
        ("fair", "Fair")
    } else if final_score <= 80 {
        ("strong", "Strong")
    } else {
        ("very_strong", "Very Strong")
    };
    PasswordStrength { score: final_score, level: String::from_str(level), label: String::from_str(label) }
}

} // verus!
