use vstd::prelude::*;
use crate::dto::RegisterUserDto;
use crate::strutil::{all_ascii, all_digits, contains_char, str_all_ascii, str_all_digits};

verus! {

/// An acceptable email holds both an `@` and a `.`.
pub open spec fn email_ok(email: Seq<char>) -> bool {
    email.contains('@') && email.contains('.')
}

/// An acceptable phone country code lies in 1..=999.
pub open spec fn phone_code_ok(code: i32) -> bool {
    1 <= code && code <= 999
}

/// An acceptable phone number has at least 4 characters, all of them
/// decimal digits.
pub open spec fn phone_number_ok(number: Seq<char>) -> bool {
    number.len() >= 4 && all_digits(number)
}

/// An acceptable password has 7 to 30 characters, all of them ASCII.
pub open spec fn password_ok(password: Seq<char>) -> bool {
    7 <= password.len() && password.len() <= 30 && all_ascii(password)
}

/// The verdict on a registration form: the first failing rule's message,
/// or nothing when every rule passes. The rules run in a fixed order:
/// name, email presence, email shape, country code, phone number length,
/// phone number digits, password presence, password length, password
/// character range.
pub open spec fn register_validation_message(u: RegisterUserDto) -> Option<Seq<char>> {
    if u.name@.len() == 0 {
        Some("The \"name\" field cannot be empty"@)
    } else if u.email is None {
        Some("Email cannot be empty"@)
    } else if !u.email->0@.contains('@') {
        Some("Email has to contain \"@\" symbol"@)
    } else if !u.email->0@.contains('.') {
        Some("Email has to contain \".\" symbol"@)
    } else if !phone_code_ok(u.phone_number_code) {
        Some("The phone number code is invalid"@)
    } else if u.phone_number@.len() < 4 {
        Some("The phone number is too short"@)
    } else if !all_digits(u.phone_number@) {
        Some("The phone number is not valid"@)
    } else if u.password is None {
        Some("The password cannot be absent"@)
    } else if u.password->0@.len() < 7 || u.password->0@.len() > 30 {
        Some("The password length must be between 7 and 30 characters inclusive"@)
    } else if !all_ascii(u.password->0@) {
        Some(
            "The password must contain only a-z, A-Z, 0-9, !$%#> or some other ASCII characters only"@,
        )
    } else {
        None
    }
}

/// The form passes every registration rule.
pub open spec fn register_form_valid(u: RegisterUserDto) -> bool {
    register_validation_message(u) is None
}

/// Check a registration form against the rules, in order; the first
/// failure wins. Yields whether the form passed, and the failure's
/// message (empty on a pass).
pub fn is_valid_form(user: &RegisterUserDto) -> (r: (bool, String))
    ensures
        r.0 == register_form_valid(*user),
        match register_validation_message(*user) {
            Some(m) => r.1@ == m,
            None => r.1@.len() == 0,
        },
{
    if user.name.as_str().is_empty() {
        return (false, "The \"name\" field cannot be empty".to_owned());
    }
    match &user.email {
        Some(email) => {
            if !contains_char(email.as_str(), '@') {
                return (false, "Email has to contain \"@\" symbol".to_owned());
            }
            if !contains_char(email.as_str(), '.') {
                return (false, "Email has to contain \".\" symbol".to_owned());
            }
        },
        None => {
            return (false, "Email cannot be empty".to_owned());
        },
    }
    if user.phone_number_code < 1 || user.phone_number_code > 999 {
        return (false, "The phone number code is invalid".to_owned());
    }
    if user.phone_number.as_str().unicode_len() < 4 {
        return (false, "The phone number is too short".to_owned());
    }
    if !str_all_digits(user.phone_number.as_str()) {
        return (false, "The phone number is not valid".to_owned());
    }
    match &user.password {
        Some(password) => {
            let plen = password.as_str().unicode_len();
            if plen < 7 || plen > 30 {
                return (
                    false,
                    "The password length must be between 7 and 30 characters inclusive".to_owned(),
                );
            }
            if !str_all_ascii(password.as_str()) {
                return (
                    false,
                    "The password must contain only a-z, A-Z, 0-9, !$%#> or some other ASCII characters only".to_owned(),
                );
            }
        },
        None => {
            return (false, "The password cannot be absent".to_owned());
        },
    }
    (true, String::new())
}

} // verus!
