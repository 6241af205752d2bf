use std::collections::HashSet;

use zbiorauth::crypto::generate_short_token;
use zbiorauth::pwd::PwdError;
use zbiorauth::pwd::hash_password;
use zbiorauth::pwd::verify_password;

#[test]
fn password_verifies_against_its_own_hash() {
    let h = hash_password("p@ss").unwrap();
    assert_eq!(verify_password("p@ss", &h), Ok(true));
}

#[test]
fn wrong_password_fails_verification() {
    let h = hash_password("correct horse").unwrap();
    assert_eq!(verify_password("battery staple", &h), Ok(false));
    assert_eq!(verify_password("", &h), Ok(false));
}

#[test]
fn two_hashes_of_one_password_differ_yet_both_verify() {
    let h1 = hash_password("p@ss").unwrap();
    let h2 = hash_password("p@ss").unwrap();
    assert_ne!(h1, h2);
    assert_eq!(verify_password("p@ss", &h1), Ok(true));
    assert_eq!(verify_password("p@ss", &h2), Ok(true));
}

#[test]
fn hash_is_self_describing() {
    // The hash string embeds the algorithm identifier and the salt.
    let h = hash_password("p@ss").unwrap();
    assert!(h.starts_with("$argon2"));
}

#[test]
fn malformed_stored_hash_is_distinguished_from_mismatch() {
    assert_eq!(verify_password("p@ss", "not a hash"), Err(PwdError::MalformedHash));
    assert_eq!(verify_password("p@ss", ""), Err(PwdError::MalformedHash));
}

#[test]
fn ten_thousand_tokens_are_distinct() {
    let mut seen: HashSet<String> = HashSet::new();
    for _ in 0..10_000 {
        let t = generate_short_token();
        assert!(seen.insert(t));
    }
    assert_eq!(seen.len(), 10_000);
}

#[test]
fn tokens_use_the_crockford_alphabet() {
    let alphabet = "0123456789ABCDEFGHJKMNPQRSTVWXYZ";
    for _ in 0..100 {
        let t = generate_short_token();
        assert_eq!(t.len(), 13);
        for c in t.chars() {
            assert!(alphabet.contains(c));
        }
    }
}
