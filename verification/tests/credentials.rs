use landing_form::dto::SignIn;
use landing_form::register::register_at;
use landing_form::store::IdentityStore;
use landing_form::strutil::{i64_dec_string, parse_i32, parse_i64};
use landing_form::verify_login::verify;

const SECRET: &str = "a-test-signing-secret";
const SALT: &str = "a-test-salt-of-16";
const NOW: i64 = 1_700_000_000;

fn store_with_john() -> IdentityStore {
    let mut store = IdentityStore::new();
    let john = landing_form::dto::RegisterUserDto {
        name: "John".to_string(),
        email: Some("j@x.com".to_string()),
        phone_number_code: 1,
        phone_number: "1111111111".to_string(),
        password: Some("qwerty123".to_string()),
    };
    register_at(&mut store, john, SALT, SECRET, NOW).unwrap();
    store
}

fn sign_in(login: &str, password: &str) -> SignIn {
    SignIn {
        login: login.to_string(),
        password: password.to_string(),
    }
}

#[test]
fn verify_by_phone_succeeds() {
    let store = store_with_john();
    let r = verify(&store, sign_in("+1 1111111111", "qwerty123"), SALT);
    assert_eq!(r.status_code, 200);
    assert_eq!(r.message.unwrap(), "Authorization was successful!");
    assert!(r.redirect.is_none());
}

#[test]
fn verify_by_email_succeeds() {
    let store = store_with_john();
    let r = verify(&store, sign_in("j@x.com", "qwerty123"), SALT);
    assert_eq!(r.status_code, 200);
}

#[test]
fn verify_wrong_password_refused() {
    let store = store_with_john();
    let r = verify(&store, sign_in("+1 1111111111", "wrongpass"), SALT);
    assert_eq!(r.status_code, 401);
    assert_eq!(r.message.unwrap(), "Login or password or both are incorrect");
}

#[test]
fn verify_unknown_email_refused() {
    let store = store_with_john();
    let r = verify(&store, sign_in("nobody@nowhere.org", "qwerty123"), SALT);
    assert_eq!(r.status_code, 401);
    assert_eq!(r.message.unwrap(), "Login or password or both are incorrect");
}

#[test]
fn verify_phone_without_space_is_bad_request() {
    let store = store_with_john();
    let r = verify(&store, sign_in("+11111111111", "qwerty123"), SALT);
    assert_eq!(r.status_code, 400);
    assert_eq!(r.message.unwrap(), "The password is too short");
    assert_eq!(
        r.redirect.unwrap(),
        "http://127.0.0.1:5500/frontend/HTML/unauthorized.html"
    );
}

#[test]
fn verify_phone_with_two_spaces_is_bad_request() {
    let store = store_with_john();
    let r = verify(&store, sign_in("+1 111 111", "qwerty123"), SALT);
    assert_eq!(r.status_code, 400);
}

#[test]
fn verify_unparsable_code_is_wrong_format() {
    let store = store_with_john();
    let r = verify(&store, sign_in("+abc 1111111111", "qwerty123"), SALT);
    assert_eq!(r.status_code, 401);
    assert_eq!(
        r.message.unwrap(),
        "The phone number is written in a wrong format"
    );
    assert!(r.redirect.is_some());
}

#[test]
fn verify_unparsable_number_is_wrong_format() {
    let store = store_with_john();
    let r = verify(&store, sign_in("+1 11a1", "qwerty123"), SALT);
    assert_eq!(r.status_code, 401);
    assert_eq!(
        r.message.unwrap(),
        "The phone number is written in a wrong format"
    );
}

#[test]
fn verify_compares_the_canonical_number() {
    // a stored number with a leading zero can never match, because the
    // parsed number is rendered canonically before comparison
    let mut store = IdentityStore::new();
    let user = landing_form::dto::RegisterUserDto {
        name: "Zoe".to_string(),
        email: Some("z@x.com".to_string()),
        phone_number_code: 1,
        phone_number: "0123456789".to_string(),
        password: Some("qwerty123".to_string()),
    };
    register_at(&mut store, user, SALT, SECRET, NOW).unwrap();
    let r = verify(&store, sign_in("+1 0123456789", "qwerty123"), SALT);
    assert_eq!(r.status_code, 401);
}

#[test]
fn parse_i64_handles_signs_zeros_and_overflow() {
    assert_eq!(parse_i64("123"), Some(123));
    assert_eq!(parse_i64("+42"), Some(42));
    assert_eq!(parse_i64("-42"), Some(-42));
    assert_eq!(parse_i64("-0"), Some(0));
    assert_eq!(parse_i64("00123"), Some(123));
    assert_eq!(parse_i64("9223372036854775807"), Some(i64::MAX));
    assert_eq!(parse_i64("-9223372036854775808"), Some(i64::MIN));
    assert_eq!(parse_i64("9223372036854775808"), None);
    assert_eq!(parse_i64("-9223372036854775809"), None);
    assert_eq!(parse_i64(""), None);
    assert_eq!(parse_i64("+"), None);
    assert_eq!(parse_i64("12x3"), None);
    assert_eq!(parse_i64("--1"), None);
    assert_eq!(parse_i64("0000000000000000000000001"), Some(1));
}

#[test]
fn parse_i32_respects_its_range() {
    assert_eq!(parse_i32("2147483647"), Some(i32::MAX));
    assert_eq!(parse_i32("-2147483648"), Some(i32::MIN));
    assert_eq!(parse_i32("2147483648"), None);
    assert_eq!(parse_i32("7"), Some(7));
}

#[test]
fn decimal_rendering_matches_std() {
    for n in [
        0i64,
        7,
        10,
        999,
        -1,
        -120,
        i64::MAX,
        i64::MIN,
        1_000_000_007,
    ] {
        assert_eq!(i64_dec_string(n), n.to_string());
    }
}
