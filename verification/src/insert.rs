use vstd::prelude::*;
use crate::dto::{EmailPayload, RegisterUserDto};
use crate::register::server_error_msg;
use crate::responses::{
    DefaultResponse, STATUS_INTERNAL_SERVER_ERROR, STATUS_OK, STATUS_UNAUTHORIZED,
};
use crate::store::{fresh_row, has_email, has_phone, IdentityStore};
use crate::strutil::{all_digits, contains_char, str_all_digits};
use crate::validation::phone_code_ok;

verus! {

/// The verdict on a subscription form: the first failing rule's status
/// and message, or 200 with an empty message when every rule passes.
/// Unlike full registration, the email is optional (checked for shape
/// only when given) and no password is expected.
pub open spec fn insert_validation(u: RegisterUserDto) -> (u16, Seq<char>) {
    if u.name@.len() == 0 {
        (STATUS_UNAUTHORIZED, "The \"name\" field cannot be empty"@)
    } else if u.email matches Some(e) && !e@.contains('@') {
        (STATUS_UNAUTHORIZED, "Email has to contain \"@\" symbol"@)
    } else if u.email matches Some(e) && !e@.contains('.') {
        (STATUS_UNAUTHORIZED, "Email has to contain \".\" symbol"@)
    } else if !phone_code_ok(u.phone_number_code) {
        (STATUS_UNAUTHORIZED, "The phone number code is invalid"@)
    } else if u.phone_number@.len() < 4 {
        (STATUS_UNAUTHORIZED, "The phone number is too short"@)
    } else if !all_digits(u.phone_number@) {
        (STATUS_UNAUTHORIZED, "The phone number is not valid"@)
    } else {
        (STATUS_OK, Seq::empty())
    }
}

/// Check a subscription form against its rules, in order; the first
/// failure wins.
pub fn is_valid_insert_form(user: &RegisterUserDto) -> (r: (u16, String))
    ensures
        r.0 == insert_validation(*user).0,
        r.1@ == insert_validation(*user).1,
{
    if user.name.as_str().is_empty() {
        return (STATUS_UNAUTHORIZED, "The \"name\" field cannot be empty".to_owned());
    }
    match &user.email {
        Some(email) => {
            if !contains_char(email.as_str(), '@') {
                return (STATUS_UNAUTHORIZED, "Email has to contain \"@\" symbol".to_owned());
            }
            if !contains_char(email.as_str(), '.') {
                return (STATUS_UNAUTHORIZED, "Email has to contain \".\" symbol".to_owned());
            }
        },
        None => {},
    }
    if user.phone_number_code < 1 || user.phone_number_code > 999 {
        return (STATUS_UNAUTHORIZED, "The phone number code is invalid".to_owned());
    }
    if user.phone_number.as_str().unicode_len() < 4 {
        return (STATUS_UNAUTHORIZED, "The phone number is too short".to_owned());
    }
    if !str_all_digits(user.phone_number.as_str()) {
        return (STATUS_UNAUTHORIZED, "The phone number is not valid".to_owned());
    }
    (STATUS_OK, String::new())
}

/// The form's email is already held by some row (never the case when
/// the form carries no email).
pub open spec fn insert_email_conflict(s: IdentityStore, form: RegisterUserDto) -> bool {
    form.email matches Some(e) && has_email(s.users@, e@)
}

/// Everything a subscription insert guarantees.
///
/// - An invalid form is refused with its rule's status and message.
/// - A phone pair already in the store, or an email already in the
///   store, is refused; nothing else is.
/// - Otherwise a fresh unverified row is appended under the next id —
///   unless the id space is exhausted, which surfaces the generic
///   internal error.
/// - The store changes only on success, and only by that one row.
pub open spec fn insert_post(
    olds: IdentityStore,
    news: IdentityStore,
    user: RegisterUserDto,
    r: DefaultResponse,
) -> bool {
    let v = insert_validation(user);
    let phone_dup = has_phone(olds.users@, user.phone_number_code, user.phone_number@);
    let email_dup = insert_email_conflict(olds, user);
    &&& news.wf()
    &&& r.redirect is None
    &&& v.0 != STATUS_OK ==> r.status_code == v.0 && (r.message matches Some(m) && m@ == v.1)
        && news == olds
    &&& v.0 == STATUS_OK && phone_dup ==> r.status_code == STATUS_UNAUTHORIZED && (r.message
        matches Some(m) && m@ == "The user with this phone number already exists"@) && news == olds
    &&& v.0 == STATUS_OK && !phone_dup && email_dup ==> r.status_code == STATUS_UNAUTHORIZED && (
    r.message matches Some(m) && m@ == "The user with this email already exists"@) && news == olds
    &&& v.0 == STATUS_OK && !phone_dup && !email_dup && olds.next_id == i32::MAX
        ==> r.status_code == STATUS_INTERNAL_SERVER_ERROR && (r.message matches Some(m) && m@
        == server_error_msg()) && news == olds
    &&& v.0 == STATUS_OK && !phone_dup && !email_dup && olds.next_id < i32::MAX
        ==> r.status_code == STATUS_OK && (r.message matches Some(m) && m@
        == "The subscription was successful!"@) && news.users@ == olds.users@.push(
        fresh_row(user, olds.next_id),
    ) && news.next_id == olds.next_id + 1 && news.user_roles == olds.user_roles && news.roles
        == olds.roles
}

/// Add a subscription: insert an unverified row for the form, provided
/// its phone pair and email are not yet taken. The caller sends the
/// welcome mail afterwards on success, when the form carries an email.
pub fn insert(store: &mut IdentityStore, user: RegisterUserDto) -> (r: DefaultResponse)
    requires
        old(store).wf(),
    ensures
        insert_post(*old(store), *final(store), user, r),
{
    let (status, message) = is_valid_insert_form(&user);
    if status != STATUS_OK {
        return DefaultResponse { status_code: status, message: Some(message), redirect: None };
    }
    match store.find_by_phone(user.phone_number_code, user.phone_number.as_str()) {
        Some(_) => {
            return DefaultResponse {
                status_code: STATUS_UNAUTHORIZED,
                message: Some("The user with this phone number already exists".to_owned()),
                redirect: None,
            };
        },
        None => {},
    }
    match &user.email {
        Some(email) => {
            match store.find_by_email(email.as_str()) {
                Some(_) => {
                    return DefaultResponse {
                        status_code: STATUS_UNAUTHORIZED,
                        message: Some("The user with this email already exists".to_owned()),
                        redirect: None,
                    };
                },
                None => {},
            }
        },
        None => {},
    }
    match store.insert(user) {
        Ok(_) => {},
        Err(_) => {
            return DefaultResponse {
                status_code: STATUS_INTERNAL_SERVER_ERROR,
                message: Some("Something went wrong on the server side".to_owned()),
                redirect: None,
            };
        },
    }
    DefaultResponse {
        status_code: STATUS_OK,
        message: Some("The subscription was successful!".to_owned()),
        redirect: None,
    }
}

/// The welcome mail a fresh subscription triggers, for the caller to
/// dispatch.
pub fn subscription_email(name: String, email: String) -> (r: EmailPayload)
    ensures
        r.full_name == name,
        r.email == email,
        r.subject@ == "Subscription is activated"@,
        r.message@ == "Welcome to Manuspect!"@,
{
    EmailPayload {
        full_name: name,
        subject: "Subscription is activated".to_owned(),
        email: email,
        message: "Welcome to Manuspect!".to_owned(),
    }
}

} // verus!
