use landing_form::dto::RegisterUserDto;
use landing_form::insert::is_valid_insert_form;
use landing_form::validation::is_valid_form;

fn base_form() -> RegisterUserDto {
    RegisterUserDto {
        name: "John".to_string(),
        email: Some("john@example.com".to_string()),
        phone_number_code: 1,
        phone_number: "1111111111".to_string(),
        password: Some("qwerty123".to_string()),
    }
}

#[test]
fn valid_form_passes() {
    let (ok, msg) = is_valid_form(&base_form());
    assert!(ok);
    assert_eq!(msg, "");
}

#[test]
fn empty_name_rejected() {
    let mut form = base_form();
    form.name = "".to_string();
    let (ok, msg) = is_valid_form(&form);
    assert!(!ok);
    assert_eq!(msg, "The \"name\" field cannot be empty");
}

#[test]
fn missing_email_rejected() {
    let mut form = base_form();
    form.email = None;
    let (ok, msg) = is_valid_form(&form);
    assert!(!ok);
    assert_eq!(msg, "Email cannot be empty");
}

#[test]
fn email_without_at_rejected() {
    let mut form = base_form();
    form.email = Some("john.example.com".to_string());
    let (ok, msg) = is_valid_form(&form);
    assert!(!ok);
    assert_eq!(msg, "Email has to contain \"@\" symbol");
}

#[test]
fn email_without_dot_rejected() {
    let mut form = base_form();
    form.email = Some("john@examplecom".to_string());
    let (ok, msg) = is_valid_form(&form);
    assert!(!ok);
    assert_eq!(msg, "Email has to contain \".\" symbol");
}

#[test]
fn zero_phone_code_rejected() {
    let mut form = base_form();
    form.phone_number_code = 0;
    let (ok, msg) = is_valid_form(&form);
    assert!(!ok);
    assert_eq!(msg, "The phone number code is invalid");
}

#[test]
fn large_phone_code_rejected() {
    let mut form = base_form();
    form.phone_number_code = 1000;
    let (ok, msg) = is_valid_form(&form);
    assert!(!ok);
    assert_eq!(msg, "The phone number code is invalid");
}

#[test]
fn boundary_phone_codes_accepted() {
    let mut form = base_form();
    form.phone_number_code = 1;
    assert!(is_valid_form(&form).0);
    form.phone_number_code = 999;
    assert!(is_valid_form(&form).0);
}

#[test]
fn short_phone_number_rejected() {
    let mut form = base_form();
    form.phone_number = "123".to_string();
    let (ok, msg) = is_valid_form(&form);
    assert!(!ok);
    assert_eq!(msg, "The phone number is too short");
}

#[test]
fn non_digit_phone_number_rejected() {
    let mut form = base_form();
    form.phone_number = "12a4567".to_string();
    let (ok, msg) = is_valid_form(&form);
    assert!(!ok);
    assert_eq!(msg, "The phone number is not valid");
}

#[test]
fn missing_password_rejected() {
    let mut form = base_form();
    form.password = None;
    let (ok, msg) = is_valid_form(&form);
    assert!(!ok);
    assert_eq!(msg, "The password cannot be absent");
}

#[test]
fn short_password_rejected() {
    let mut form = base_form();
    form.password = Some("abc123".to_string());
    let (ok, msg) = is_valid_form(&form);
    assert!(!ok);
    assert_eq!(
        msg,
        "The password length must be between 7 and 30 characters inclusive"
    );
}

#[test]
fn long_password_rejected() {
    let mut form = base_form();
    form.password = Some("a".repeat(31));
    let (ok, msg) = is_valid_form(&form);
    assert!(!ok);
    assert_eq!(
        msg,
        "The password length must be between 7 and 30 characters inclusive"
    );
}

#[test]
fn password_length_boundaries_accepted() {
    let mut form = base_form();
    form.password = Some("a".repeat(7));
    assert!(is_valid_form(&form).0);
    form.password = Some("a".repeat(30));
    assert!(is_valid_form(&form).0);
}

#[test]
fn non_ascii_password_rejected() {
    let mut form = base_form();
    form.password = Some("pässwörter".to_string());
    let (ok, msg) = is_valid_form(&form);
    assert!(!ok);
    assert_eq!(
        msg,
        "The password must contain only a-z, A-Z, 0-9, !$%#> or some other ASCII characters only"
    );
}

#[test]
fn insert_form_allows_missing_email_and_password() {
    let mut form = base_form();
    form.email = None;
    form.password = None;
    let (status, msg) = is_valid_insert_form(&form);
    assert_eq!(status, 200);
    assert_eq!(msg, "");
}

#[test]
fn insert_form_checks_email_shape_when_given() {
    let mut form = base_form();
    form.email = Some("nodotataddr".to_string());
    let (status, msg) = is_valid_insert_form(&form);
    assert_eq!(status, 401);
    assert_eq!(msg, "Email has to contain \"@\" symbol");
}
