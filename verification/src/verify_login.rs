use vstd::prelude::*;
use crate::dto::SignIn;
use crate::models::User;
use crate::register::server_error_msg;
use crate::responses::{
    DefaultResponse, STATUS_BAD_REQUEST, STATUS_INTERNAL_SERVER_ERROR, STATUS_OK,
    STATUS_UNAUTHORIZED,
};
use crate::security::{hash_password, hashed_password_of, password_len_ok, salt_ok};
use crate::store::IdentityStore;
use crate::strutil::{
    all_ascii,
    count_char, dec_string, first_idx_of, i64_dec_string, parse_i32, parse_i64, parsed_i32,
    parsed_i64, remove_first, str_count_char, str_eq, str_find_char, str_remove_first,
};

verus! {

/// Where a failed bare credential check redirects the client.
pub open spec fn unauthorized_redirect() -> Seq<char> {
    "http://127.0.0.1:5500/frontend/HTML/unauthorized.html"@
}

/// The message of a failed bare credential check.
pub open spec fn credentials_incorrect_msg() -> Seq<char> {
    "Login or password or both are incorrect"@
}

/// The row carries this phone pair and this stored password hash.
pub open spec fn phone_cred_match(u: User, code: i32, number: Seq<char>, hash: Seq<char>) -> bool {
    &&& u.phone_number_code == code
    &&& u.phone_number@ == number
    &&& (u.password matches Some(p) && p@ == hash)
}

/// The row carries this email and this stored password hash.
pub open spec fn email_cred_match(u: User, email: Seq<char>, hash: Seq<char>) -> bool {
    &&& (u.email matches Some(e) && e@ == email)
    &&& (u.password matches Some(p) && p@ == hash)
}

/// Some row carries the phone pair and the hash.
pub open spec fn has_phone_credential(
    s: Seq<User>,
    code: i32,
    number: Seq<char>,
    hash: Seq<char>,
) -> bool {
    exists|i: int| 0 <= i < s.len() && phone_cred_match(#[trigger] s[i], code, number, hash)
}

/// Some row carries the email and the hash.
pub open spec fn has_email_credential(s: Seq<User>, email: Seq<char>, hash: Seq<char>) -> bool {
    exists|i: int| 0 <= i < s.len() && email_cred_match(#[trigger] s[i], email, hash)
}

/// The fields of a response that grants the check.
pub open spec fn granted_response(r: DefaultResponse) -> bool {
    &&& r.status_code == STATUS_OK
    &&& (r.message matches Some(m) && m@ == "Authorization was successful!"@)
    &&& r.redirect is None
}

/// The fields of a response that refuses the credentials themselves.
pub open spec fn refused_response(r: DefaultResponse) -> bool {
    &&& r.status_code == STATUS_UNAUTHORIZED
    &&& (r.message matches Some(m) && m@ == credentials_incorrect_msg())
    &&& r.redirect is None
}

/// The fields of a response that refuses a malformed phone login.
pub open spec fn wrong_format_response(r: DefaultResponse) -> bool {
    &&& r.status_code == STATUS_UNAUTHORIZED
    &&& (r.message matches Some(m) && m@ == "The phone number is written in a wrong format"@)
    &&& (r.redirect matches Some(u) && u@ == unauthorized_redirect())
}

/// What a phone-shaped login (leading `+`) decides: the login must be
/// exactly two space-separated parts; the first, its first `+`
/// dropped, must parse as the country code and the second as the
/// number; the check passes when some row carries that pair — the
/// number written canonically — together with the hashed password.
pub open spec fn verify_phone_outcome(
    s: IdentityStore,
    login: Seq<char>,
    hash: Seq<char>,
    r: DefaultResponse,
) -> bool {
    if count_char(login, ' ') != 1 {
        &&& r.status_code == STATUS_BAD_REQUEST
        &&& (r.message matches Some(m) && m@ == "The password is too short"@)
        &&& (r.redirect matches Some(u) && u@ == unauthorized_redirect())
    } else {
        let sp = first_idx_of(login, ' ');
        let code_part = remove_first(login.take(sp), '+');
        let number_part = login.skip(sp + 1);
        match parsed_i32(code_part) {
            None => wrong_format_response(r),
            Some(code) => match parsed_i64(number_part) {
                None => wrong_format_response(r),
                Some(num) => if has_phone_credential(
                    s.users@,
                    code,
                    dec_string(num as int),
                    hash,
                ) {
                    granted_response(r)
                } else {
                    refused_response(r)
                },
            },
        }
    }
}

/// Everything a bare credential check guarantees. The supplied
/// password is hashed and compared against stored rows: a login with a
/// leading `+` is treated as a phone pair, anything else as an email.
/// Only a hashing failure surfaces the generic internal error — owed
/// whenever an ASCII salt is shorter than 8 characters, impossible
/// whenever the salt is acceptable and the password within Argon2's
/// length bound; every other outcome is decided exactly by
/// `verify_phone_outcome` or the email lookup.
pub open spec fn verify_post(
    s: IdentityStore,
    user: SignIn,
    salt: Seq<char>,
    r: DefaultResponse,
) -> bool {
    let login = user.login@;
    let hash = hashed_password_of(user.password@, salt);
    let plus = login.len() > 0 && login[0] == '+';
    &&& r.status_code == STATUS_INTERNAL_SERVER_ERROR ==> (r.message matches Some(m) && m@
        == server_error_msg()) && r.redirect is None
    &&& all_ascii(salt) && salt.len() < 8 ==> r.status_code == STATUS_INTERNAL_SERVER_ERROR
    &&& salt_ok(salt) && password_len_ok(user.password@) ==> r.status_code
        != STATUS_INTERNAL_SERVER_ERROR
    &&& r.status_code != STATUS_INTERNAL_SERVER_ERROR && plus ==> verify_phone_outcome(
        s,
        login,
        hash,
        r,
    )
    &&& r.status_code != STATUS_INTERNAL_SERVER_ERROR && !plus ==> if has_email_credential(
        s.users@,
        login,
        hash,
    ) {
        granted_response(r)
    } else {
        refused_response(r)
    }
}

/// Is there a row carrying this phone pair and stored hash?
fn find_phone_credential(store: &IdentityStore, code: i32, number: &str, hash: &str) -> (r: bool)
    ensures
        r == has_phone_credential(store.users@, code, number@, hash@),
{
    let n = store.users.len();
    let mut i: usize = 0;
    while i < n
        invariant
            n == store.users@.len(),
            i <= n,
            forall|j: int|
                0 <= j < i ==> !phone_cred_match(#[trigger] store.users@[j], code, number@, hash@),
        decreases n - i,
    {
        let u = &store.users[i];
        let pw_hit = match &u.password {
            Some(p) => str_eq(p.as_str(), hash),
            None => false,
        };
        if u.phone_number_code == code && str_eq(u.phone_number.as_str(), number) && pw_hit {
            proof {
                assert(phone_cred_match(store.users@[i as int], code, number@, hash@));
            }
            return true;
        }
        i = i + 1;
    }
    false
}

/// Is there a row carrying this email and stored hash?
fn find_email_credential(store: &IdentityStore, email: &str, hash: &str) -> (r: bool)
    ensures
        r == has_email_credential(store.users@, email@, hash@),
{
    let n = store.users.len();
    let mut i: usize = 0;
    while i < n
        invariant
            n == store.users@.len(),
            i <= n,
            forall|j: int|
                0 <= j < i ==> !email_cred_match(#[trigger] store.users@[j], email@, hash@),
        decreases n - i,
    {
        let u = &store.users[i];
        let email_hit = match &u.email {
            Some(e) => str_eq(e.as_str(), email),
            None => false,
        };
        let pw_hit = match &u.password {
            Some(p) => str_eq(p.as_str(), hash),
            None => false,
        };
        if email_hit && pw_hit {
            proof {
                assert(email_cred_match(store.users@[i as int], email@, hash@));
            }
            return true;
        }
        i = i + 1;
    }
    false
}

/// A count of one means the character occurs, so its first index is
/// meaningful.
proof fn lemma_count_char_contains(s: Seq<char>, c: char)
    ensures
        (count_char(s, c) > 0) == s.contains(c),
    decreases s.len(),
{
    if s.len() > 0 {
        lemma_count_char_contains(s.skip(1), c);
        if s[0] == c {
            assert(s.contains(c));
        } else {
            if s.skip(1).contains(c) {
                let j = choose|j: int| 0 <= j < s.skip(1).len() && s.skip(1)[j] == c;
                assert(s[j + 1] == c);
                assert(s.contains(c));
            }
            if s.contains(c) {
                let j = choose|j: int| 0 <= j < s.len() && s[j] == c;
                assert(j >= 1);
                assert(s.skip(1)[j - 1] == c);
                assert(s.skip(1).contains(c));
            }
        }
    }
}

/// Check a bare credential form: hash the supplied password, read the
/// login as a phone pair (leading `+`) or an email, and report whether
/// a stored row matches.
#[verifier::rlimit(100)]
#[verifier::spinoff_prover]
pub fn verify(store: &IdentityStore, user: SignIn, salt: &str) -> (r: DefaultResponse)
    requires
        store.wf(),
    ensures
        verify_post(*store, user, salt@, r),
{
    let hashed = match hash_password(user.password.clone(), salt) {
        Ok(h) => h,
        Err(_) => {
            return DefaultResponse {
                status_code: STATUS_INTERNAL_SERVER_ERROR,
                message: Some("Something went wrong on the server side".to_owned()),
                redirect: None,
            };
        },
    };
    let login = user.login.as_str();
    let len = login.unicode_len();
    let plus = len > 0 && login.get_char(0) == '+';
    if plus {
        let spaces = str_count_char(login, ' ');
        if spaces != 1 {
            return DefaultResponse {
                status_code: STATUS_BAD_REQUEST,
                message: Some("The password is too short".to_owned()),
                redirect: Some(
                    "http://127.0.0.1:5500/frontend/HTML/unauthorized.html".to_owned(),
                ),
            };
        }
        proof {
            lemma_count_char_contains(login@, ' ');
        }
        let sp = match str_find_char(login, ' ') {
            Some(i) => i,
            None => {
                proof {
                    assert(false);
                }
                return DefaultResponse {
                    status_code: STATUS_BAD_REQUEST,
                    message: Some("The password is too short".to_owned()),
                    redirect: None,
                };
            },
        };
        let code_raw = login.substring_char(0, sp);
        let code_part = str_remove_first(code_raw, '+');
        let number_part = login.substring_char(sp + 1, len);
        proof {
            assert(code_raw@ =~= login@.take(sp as int));
            assert(number_part@ =~= login@.skip(sp as int + 1));
        }
        let code = match parse_i32(code_part.as_str()) {
            Some(c) => c,
            None => {
                return DefaultResponse {
                    status_code: STATUS_UNAUTHORIZED,
                    message: Some("The phone number is written in a wrong format".to_owned()),
                    redirect: Some(
                        "http://127.0.0.1:5500/frontend/HTML/unauthorized.html".to_owned(),
                    ),
                };
            },
        };
        let num = match parse_i64(number_part) {
            Some(n) => n,
            None => {
                return DefaultResponse {
                    status_code: STATUS_UNAUTHORIZED,
                    message: Some("The phone number is written in a wrong format".to_owned()),
                    redirect: Some(
                        "http://127.0.0.1:5500/frontend/HTML/unauthorized.html".to_owned(),
                    ),
                };
            },
        };
        let rendered = i64_dec_string(num);
        if find_phone_credential(store, code, rendered.as_str(), hashed.as_str()) {
            DefaultResponse {
                status_code: STATUS_OK,
                message: Some("Authorization was successful!".to_owned()),
                redirect: None,
            }
        } else {
            DefaultResponse {
                status_code: STATUS_UNAUTHORIZED,
                message: Some("Login or password or both are incorrect".to_owned()),
                redirect: None,
            }
        }
    } else {
        if find_email_credential(store, login, hashed.as_str()) {
            DefaultResponse {
                status_code: STATUS_OK,
                message: Some("Authorization was successful!".to_owned()),
                redirect: None,
            }
        } else {
            DefaultResponse {
                status_code: STATUS_UNAUTHORIZED,
                message: Some("Login or password or both are incorrect".to_owned()),
                redirect: None,
            }
        }
    }
}

} // verus!
