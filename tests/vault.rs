use satstone::crypto::{derive_key_from_recovery, generate_recovery_phrase};
use satstone::vault::{
    master_key_from_passphrase, plan_encryption, plan_rotation, unwrap_recovery_phrase, xor_decrypt, xor_encrypt,
    PassphraseWrap, VaultStatus,
};
use satstone::ErrorKind;

const ABANDON: &str = "abandon abandon abandon abandon abandon abandon abandon abandon abandon abandon abandon about";
const SALT: &str = "00112233445566778899aabbccddeeff";
const SALT2: &str = "ffeeddccbbaa99887766554433221100";

#[test]
fn xor_wrap_round_trips() {
    let enc = xor_encrypt("hello", "k1");
    // 'h' ^ 'k', 'e' ^ '1', 'l' ^ 'k', 'l' ^ '1', 'o' ^ 'k'
    assert_eq!(enc, "0354075d04");
    assert_eq!(xor_decrypt(&enc, "k1").unwrap(), "hello");
    assert_eq!(xor_decrypt("0354075D04", "k1").unwrap(), "hello");
    assert_eq!(xor_decrypt("zz", "k1"), Err(ErrorKind::InvalidCredential));
    assert_eq!(xor_decrypt("035", "k1"), Err(ErrorKind::InvalidCredential));
    // 0xff ^ 'k' is not valid UTF-8 on its own.
    assert_eq!(xor_decrypt("94", "k1"), Err(ErrorKind::InvalidCredential));
}

#[test]
fn passphrase_opens_the_recovery_key() {
    let plan = plan_encryption("hunter22", ABANDON, SALT).unwrap();
    assert_eq!(plan.master_key, derive_key_from_recovery(ABANDON).unwrap());
    assert_eq!(plan.wrap.salt, SALT);
    assert_ne!(plan.wrap.wrapped, ABANDON);
    assert_eq!(unwrap_recovery_phrase("hunter22", &plan.wrap).unwrap(), ABANDON);
    assert_eq!(master_key_from_passphrase("hunter22", &plan.wrap).unwrap(), plan.master_key);
}

#[test]
fn wrong_passphrase_is_an_invalid_credential() {
    let plan = plan_encryption("hunter22", ABANDON, SALT).unwrap();
    assert_eq!(master_key_from_passphrase("hunter23", &plan.wrap), Err(ErrorKind::InvalidCredential));
    let corrupted = PassphraseWrap { salt: SALT.to_string(), wrapped: "not hex".to_string() };
    assert_eq!(master_key_from_passphrase("hunter22", &corrupted), Err(ErrorKind::InvalidCredential));
    let no_salt = PassphraseWrap { salt: String::new(), wrapped: plan.wrap.wrapped.clone() };
    assert_eq!(master_key_from_passphrase("hunter22", &no_salt), Err(ErrorKind::InvalidCredential));
}

#[test]
fn encryption_refuses_an_invalid_phrase() {
    let bad = "abandon abandon abandon abandon abandon abandon abandon abandon abandon abandon abandon abandon";
    assert!(matches!(plan_encryption("pw", bad, SALT), Err(ErrorKind::InvalidCredential)));
}

#[test]
fn messy_phrase_is_wrapped_normalized() {
    let plan = plan_encryption("pw", "  Abandon abandon abandon abandon abandon abandon abandon abandon abandon abandon abandon ABOUT", SALT)
        .unwrap();
    assert_eq!(unwrap_recovery_phrase("pw", &plan.wrap).unwrap(), ABANDON);
    assert_eq!(plan.master_key, derive_key_from_recovery(ABANDON).unwrap());
}

#[test]
fn rotation_moves_access_to_the_new_passphrase() {
    let plan = plan_encryption("old pass", ABANDON, SALT).unwrap();
    let rotated = plan_rotation("old pass", "new pass", &plan.wrap, SALT2).unwrap();
    assert_eq!(rotated.salt, SALT2);
    assert_eq!(master_key_from_passphrase("new pass", &rotated).unwrap(), plan.master_key);
    assert_eq!(master_key_from_passphrase("old pass", &rotated), Err(ErrorKind::InvalidCredential));
    assert!(matches!(plan_rotation("wrong", "new pass", &plan.wrap, SALT2), Err(ErrorKind::InvalidCredential)));
}

#[test]
fn re_encryption_with_a_fresh_phrase_changes_the_key() {
    let first = plan_encryption("pw", ABANDON, SALT).unwrap();
    let fresh = generate_recovery_phrase().unwrap();
    let second = plan_encryption("pw", &fresh, SALT2).unwrap();
    assert_eq!(second.master_key, derive_key_from_recovery(&fresh).unwrap());
    assert_ne!(second.master_key, first.master_key);
    assert_eq!(master_key_from_passphrase("pw", &second.wrap).unwrap(), second.master_key);
    assert_ne!(derive_key_from_recovery(ABANDON).unwrap(), second.master_key);
}

#[test]
fn status_marker_round_trips() {
    assert_eq!(VaultStatus::from_marker("encrypted\n"), VaultStatus::Encrypted);
    assert_eq!(VaultStatus::from_marker(" plaintext"), VaultStatus::Plaintext);
    assert_eq!(VaultStatus::from_marker(""), VaultStatus::Plaintext);
    assert_eq!(VaultStatus::Encrypted.marker(), "encrypted");
    assert_eq!(VaultStatus::from_marker(&VaultStatus::Encrypted.marker()), VaultStatus::Encrypted);
    assert_eq!(VaultStatus::from_marker(&VaultStatus::Plaintext.marker()), VaultStatus::Plaintext);
}
