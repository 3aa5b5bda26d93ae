use landing_form::jwt::{create_jwt, create_jwt_at, is_valid_jwt, is_valid_jwt_at};
use landing_form::security::hash_password;

const SECRET: &str = "a-test-signing-secret";
const SALT: &str = "a-test-salt-of-16";

#[test]
fn token_round_trip_is_valid() {
    let token = create_jwt_at(SECRET, 1_700_000_000).expect("signing should succeed");
    assert!(!token.is_empty());
    let (ok, msg) = is_valid_jwt_at(&token, SECRET, 1_700_000_000);
    assert!(ok);
    assert_eq!(msg, "OK");
}

#[test]
fn token_accepted_one_second_before_expiry() {
    let issued: i64 = 1_700_000_000;
    let token = create_jwt_at(SECRET, issued).unwrap();
    let (ok, msg) = is_valid_jwt_at(&token, SECRET, issued + 600 - 1);
    assert!(ok);
    assert_eq!(msg, "OK");
}

#[test]
fn token_accepted_at_expiry_second() {
    let issued: i64 = 1_700_000_000;
    let token = create_jwt_at(SECRET, issued).unwrap();
    let (ok, _) = is_valid_jwt_at(&token, SECRET, issued + 600);
    assert!(ok);
}

#[test]
fn token_rejected_after_expiry() {
    let issued: i64 = 1_700_000_000;
    let token = create_jwt_at(SECRET, issued).unwrap();
    let (ok, msg) = is_valid_jwt_at(&token, SECRET, issued + 601);
    assert!(!ok);
    assert_eq!(msg, "Your session has expired, please log in again");
}

#[test]
fn tampered_token_rejected_with_generic_message() {
    let token = create_jwt_at(SECRET, 1_700_000_000).unwrap();
    let mut tampered = token.clone();
    tampered.push('x');
    let (ok, msg) = is_valid_jwt_at(&tampered, SECRET, 1_700_000_000);
    assert!(!ok);
    assert_eq!(msg, "Something went wrong on the server side");
}

#[test]
fn token_under_wrong_secret_rejected() {
    let token = create_jwt_at(SECRET, 1_700_000_000).unwrap();
    let (ok, msg) = is_valid_jwt_at(&token, "another-secret", 1_700_000_000);
    assert!(!ok);
    assert_eq!(msg, "Something went wrong on the server side");
}

#[test]
fn garbage_token_rejected() {
    let (ok, msg) = is_valid_jwt_at("not-a-token", SECRET, 1_700_000_000);
    assert!(!ok);
    assert_eq!(msg, "Something went wrong on the server side");
}

#[test]
fn token_is_a_three_part_jwt() {
    let token = create_jwt_at(SECRET, 1_700_000_000).unwrap();
    assert_eq!(token.matches('.').count(), 2);
}

#[test]
fn clock_based_token_checks_out_now() {
    let token = create_jwt(SECRET).expect("signing should succeed");
    let (ok, msg) = is_valid_jwt(&token, SECRET);
    assert!(ok, "a freshly issued token must validate: {msg}");
}

#[test]
fn hashing_is_deterministic_and_encoded() {
    let a = hash_password("qwerty123".to_string(), SALT).unwrap();
    let b = hash_password("qwerty123".to_string(), SALT).unwrap();
    assert_eq!(a, b);
    assert_eq!(a.len(), 48);
    assert_ne!(a, "qwerty123");
}

#[test]
fn hashing_differs_for_different_passwords() {
    let a = hash_password("qwerty123".to_string(), SALT).unwrap();
    let b = hash_password("different1".to_string(), SALT).unwrap();
    assert_ne!(a, b);
}

#[test]
fn short_salt_fails_hashing() {
    let r = hash_password("qwerty123".to_string(), "salty");
    assert_eq!(r.unwrap_err(), 500);
}

#[test]
fn salt_length_counts_bytes_not_characters() {
    // seven characters but fourteen UTF-8 bytes: accepted
    let r = hash_password("qwerty123".to_string(), "ééééééé");
    assert_eq!(r.unwrap().len(), 48);
    // seven ASCII characters: refused
    let r = hash_password("qwerty123".to_string(), "salted!");
    assert_eq!(r.unwrap_err(), 500);
}
