use satstone::crypto::{
    calculate_password_strength, derive_key_from_passphrase, derive_key_from_recovery, generate_recovery_phrase,
    generate_salt, normalize_phrase, validate_recovery_phrase,
};
use satstone::ErrorKind;

const ABANDON: &str = "abandon abandon abandon abandon abandon abandon abandon abandon abandon abandon abandon about";

#[test]
fn test_generate_recovery_phrase() {
    let phrase = generate_recovery_phrase().unwrap();
    let words: Vec<&str> = phrase.split_whitespace().collect();
    assert_eq!(words.len(), 12);
}

#[test]
fn test_derive_key_deterministic() {
    let phrase = ABANDON;
    let key1 = derive_key_from_recovery(phrase).unwrap();
    let key2 = derive_key_from_recovery(phrase).unwrap();
    assert_eq!(key1, key2);
    assert_eq!(key1.len(), 64); // 32 bytes = 64 hex chars
}

#[test]
fn test_password_strength() {
    assert!(calculate_password_strength("123").score < 30);
    assert!(calculate_password_strength("MyP@ssw0rd!").score >= 60);
}

#[test]
fn master_key_of_reference_phrase_is_first_half_of_seed() {
    let key = derive_key_from_recovery(ABANDON).unwrap();
    assert_eq!(key, "5eb00bbddcf069084889a8ab9155568165f5c453ccb85e70811aaed6f6da5fc1");
}

#[test]
fn master_key_ignores_case_and_spacing() {
    let messy = "  ABANDON abandon\tabandon abandon abandon abandon abandon abandon abandon abandon abandon   About ";
    assert_eq!(derive_key_from_recovery(messy).unwrap(), derive_key_from_recovery(ABANDON).unwrap());
    assert_eq!(normalize_phrase(messy), ABANDON);
}

#[test]
fn invalid_phrase_is_an_invalid_credential() {
    let bad_checksum = "abandon abandon abandon abandon abandon abandon abandon abandon abandon abandon abandon abandon";
    assert_eq!(derive_key_from_recovery(bad_checksum), Err(ErrorKind::InvalidCredential));
    assert!(!validate_recovery_phrase(bad_checksum));
    assert!(!validate_recovery_phrase("not a phrase"));
    assert!(validate_recovery_phrase(ABANDON));
}

#[test]
fn generated_phrase_validates() {
    let phrase = generate_recovery_phrase().unwrap();
    assert!(validate_recovery_phrase(&phrase));
    assert!(derive_key_from_recovery(&phrase).is_ok());
}

#[test]
fn salt_is_32_hex_digits_and_fresh() {
    let a = generate_salt().unwrap();
    let b = generate_salt().unwrap();
    assert_eq!(a.len(), 32);
    assert!(a.chars().all(|c| c.is_ascii_hexdigit() && !c.is_ascii_uppercase()));
    assert_ne!(a, b);
}

#[test]
fn passphrase_key_depends_on_salt() {
    let k1 = derive_key_from_passphrase("correct horse", "00112233445566778899aabbccddeeff").unwrap();
    let k2 = derive_key_from_passphrase("correct horse", "00112233445566778899aabbccddeeff").unwrap();
    let k3 = derive_key_from_passphrase("correct horse", "ffeeddccbbaa99887766554433221100").unwrap();
    assert_eq!(k1.len(), 64);
    assert_eq!(k1, k2);
    assert_ne!(k1, k3);
}

#[test]
fn passphrase_key_refuses_a_short_salt() {
    assert_eq!(derive_key_from_passphrase("pw", "ab"), Err(ErrorKind::InvalidCredential));
}

#[test]
fn strength_exact_scores_and_bands() {
    let s = calculate_password_strength("MyP@ssw0rd!");
    assert_eq!(s.score, 100);
    assert_eq!(s.level, "very_strong");
    assert_eq!(s.label, "Very Strong");

    let s = calculate_password_strength("123");
    assert_eq!(s.score, 15);
    assert_eq!(s.level, "very_weak");

    // 20 (length) + 10 (lower) + 15 (digit), less 30 for the pattern.
    let s = calculate_password_strength("password123");
    assert_eq!(s.score, 15);

    // 20 + 15 + 10 (length) + 10 (lower) = 55.
    let s = calculate_password_strength("abcdefghijklmnop");
    assert_eq!(s.score, 55);
    assert_eq!(s.level, "fair");
    assert_eq!(s.label, "Fair");

    let s = calculate_password_strength("");
    assert_eq!(s.score, 0);
    assert_eq!(s.level, "very_weak");
}

#[test]
fn strength_penalty_sees_uppercase_patterns() {
    // 20 (length) + 10 + 15 (lower, upper) = 45, less 30.
    assert_eq!(calculate_password_strength("QWERTYuiop").score, 15);
}
