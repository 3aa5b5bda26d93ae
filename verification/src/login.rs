use vstd::prelude::*;
use crate::dto::{LoginUserDto, TokenDto};
use crate::jwt::{create_jwt_at, jwt_token_of, now_ts, TOKEN_LIFETIME_SECS};
use crate::models::User;
use crate::register::server_error_msg;
use crate::responses::{
    AppError, LoginResponse, STATUS_INTERNAL_SERVER_ERROR, STATUS_OK, STATUS_UNAUTHORIZED,
};
use crate::security::{hash_password, hashed_password_of, password_len_ok, salt_ok};
use crate::store::{
    first_email_idx, has_email, has_id, has_phone, id_idx, phone_idx, IdentityStore,
};
use crate::strutil::str_eq;

verus! {

/// The one message every failed credential check surfaces: it never
/// says whether the identifier or the password was wrong.
pub open spec fn login_failed_msg() -> Seq<char> {
    "The login or password or both are incorrect"@
}

/// The row a login form aims at: the row holding the form's phone pair
/// when both phone fields are given (phone takes precedence), else the
/// first row holding the form's email, else nothing.
pub open spec fn login_lookup(s: Seq<User>, form: LoginUserDto) -> Option<User> {
    if form.phone_number_code is Some && form.phone_number is Some {
        if has_phone(s, form.phone_number_code->0, form.phone_number->0@) {
            Some(s[phone_idx(s, form.phone_number_code->0, form.phone_number->0@)])
        } else {
            None
        }
    } else if form.email is Some {
        if has_email(s, form.email->0@) {
            Some(s[first_email_idx(s, form.email->0@)])
        } else {
            None
        }
    } else {
        None
    }
}

/// The stored credential a login attempt is compared against: the row's
/// password hash, or the empty string when the row is missing or holds
/// none — which can never equal a computed hash, so such attempts fail
/// exactly like a wrong password.
pub open spec fn stored_password_view(target: Option<User>) -> Seq<char> {
    match target {
        Some(u) => match u.password {
            Some(p) => p@,
            None => Seq::empty(),
        },
        None => Seq::empty(),
    }
}

/// The attempt's password, hashed under the salt, reads exactly as the
/// stored credential.
pub open spec fn login_matched(s: Seq<User>, form: LoginUserDto, salt: Seq<char>) -> bool {
    hashed_password_of(form.password@, salt) == stored_password_view(login_lookup(s, form))
}

/// The row is unchanged except that the freshly issued token is bound
/// to it.
pub open spec fn token_bound_row(u: User, cur: User, secret: Seq<char>, now: i64) -> bool {
    &&& u.id == cur.id
    &&& u.name == cur.name
    &&& u.email == cur.email
    &&& u.phone_number_code == cur.phone_number_code
    &&& u.phone_number == cur.phone_number
    &&& u.password == cur.password
    &&& u.verified == cur.verified
    &&& (u.token matches Some(t) && t@ == jwt_token_of(
        now as u64,
        (now + TOKEN_LIFETIME_SECS) as u64,
        secret,
    ))
}

/// How a successful login rewrites the store: only the target row
/// changes, and only by taking the fresh token.
pub open spec fn login_success(
    olds: IdentityStore,
    news: IdentityStore,
    cur: User,
    secret: Seq<char>,
    now: i64,
) -> bool {
    let tidx = id_idx(olds.users@, cur.id);
    &&& has_id(olds.users@, cur.id)
    &&& news.users@.len() == olds.users@.len()
    &&& forall|j: int| 0 <= j < olds.users@.len() && j != tidx ==> news.users@[j] == olds.users@[j]
    &&& token_bound_row(news.users@[tidx], cur, secret, now)
}

/// Everything a login attempt at instant `now` guarantees.
///
/// - A mismatch — wrong password, unknown identifier, no identifier, or
///   a row without a stored hash — is refused, and every such refusal
///   carries the identical message.
/// - Internal failures surface the one generic message.
/// - Any failure leaves the store untouched.
/// - Success is owed: a matching credential logs in whenever the salt
///   is acceptable, the password within Argon2's length bound, and the
///   instant on or after the Unix epoch.
/// - On success, the target row's stored hash equals the attempt's
///   hashed password, the fresh token is bound to that row alone, and
///   the returned access token is exactly that token.
pub open spec fn login_post(
    olds: IdentityStore,
    news: IdentityStore,
    user: LoginUserDto,
    salt: Seq<char>,
    secret: Seq<char>,
    now: i64,
    r: Result<TokenDto, AppError>,
) -> bool {
    let target = login_lookup(olds.users@, user);
    let matched = login_matched(olds.users@, user, salt);
    &&& news.wf()
    &&& news.roles == olds.roles
    &&& news.user_roles == olds.user_roles
    &&& news.next_id == olds.next_id
    &&& r is Err ==> news == olds
    &&& !matched ==> r is Err
    &&& r is Err ==> (r->Err_0.code == STATUS_UNAUTHORIZED && r->Err_0.message@
        == login_failed_msg() && !matched) || (r->Err_0.code == STATUS_INTERNAL_SERVER_ERROR
        && r->Err_0.message@ == server_error_msg())
    &&& r is Ok ==> matched && target is Some && 0 <= now && login_success(
        olds,
        news,
        target->0,
        secret,
        now,
    ) && (r->Ok_0.access_token matches Some(t) && t@ == jwt_token_of(
        now as u64,
        (now + TOKEN_LIFETIME_SECS) as u64,
        secret,
    ) && t@.len() > 0) && r->Ok_0.refresh_token is None
    &&& matched && 0 <= now && salt_ok(salt) && password_len_ok(user.password@) ==> r is Ok
}

/// Find the row a login form points at, handing back its id and its
/// stored password hash; a missing row, or one without a stored hash,
/// reads as id -1 with an empty credential.
impl IdentityStore {
    #[verifier::rlimit(100)]
    #[verifier::spinoff_prover]
    fn credential_lookup(&self, user: &LoginUserDto) -> (r: (i32, String))
        requires
            self.wf(),
        ensures
            r.1@ == stored_password_view(login_lookup(self.users@, *user)),
            login_lookup(self.users@, *user) matches Some(u) ==> r.0 == u.id && has_id(
                self.users@,
                u.id,
            ) && 0 <= id_idx(self.users@, u.id) < self.users@.len() && self.users@[id_idx(
                self.users@,
                u.id,
            )] == u,
    {
        let mut user_id: i32 = -1;
        let mut user_password: String = String::new();
        let ghost target = login_lookup(self.users@, *user);
        if user.phone_number_code.is_some() && user.phone_number.is_some() {
            let code = match &user.phone_number_code {
                Some(c) => *c,
                None => 0,
            };
            let number = match &user.phone_number {
                Some(n) => n.clone(),
                None => String::new(),
            };
            match self.find_by_phone(code, number.as_str()) {
                Some(found) => {
                    proof {
                        let k = phone_idx(self.users@, code, number@);
                        assert(target is Some && target->0 == self.users@[k]);
                        assert(self.users@[k].id == found.id);
                        let m = id_idx(self.users@, found.id);
                        assert(0 <= m < self.users@.len() && self.users@[m].id == found.id);
                        assert(m == k);
                    }
                    user_id = found.id;
                    user_password = match found.password {
                        Some(p) => p,
                        None => String::new(),
                    };
                },
                None => {
                    proof {
                        assert(target is None);
                    }
                },
            }
        } else if user.email.is_some() {
            let email = match &user.email {
                Some(e) => e.clone(),
                None => String::new(),
            };
            match self.find_by_email(email.as_str()) {
                Some(found) => {
                    proof {
                        let k = first_email_idx(self.users@, email@);
                        assert(target is Some && target->0 == self.users@[k]);
                        assert(self.users@[k].id == found.id);
                        let m = id_idx(self.users@, found.id);
                        assert(0 <= m < self.users@.len() && self.users@[m].id == found.id);
                        assert(m == k);
                    }
                    user_id = found.id;
                    user_password = match found.password {
                        Some(p) => p,
                        None => String::new(),
                    };
                },
                None => {
                    proof {
                        assert(target is None);
                    }
                },
            }
        }
        (user_id, user_password)
    }
}

/// Log a user in at the given instant: find the row the form points at,
/// compare hashed credentials, and on a match bind a fresh token to the
/// row, invalidating the previous one by overwrite.
pub fn login_at(
    store: &mut IdentityStore,
    user: LoginUserDto,
    salt: &str,
    secret: &str,
    now: i64,
) -> (r: Result<TokenDto, AppError>)
    requires
        old(store).wf(),
    ensures
        login_post(*old(store), *final(store), user, salt@, secret@, now, r),
{
    let ghost target = login_lookup(store.users@, user);
    let looked_up = store.credential_lookup(&user);
    let user_id = looked_up.0;
    let user_password = looked_up.1;

    let hashed = match hash_password(user.password.clone(), salt) {
        Ok(h) => h,
        Err(_) => {
            return Err(
                AppError::new(
                    STATUS_INTERNAL_SERVER_ERROR,
                    "Something went wrong on the server side".to_owned(),
                ),
            );
        },
    };
    if str_eq(hashed.as_str(), user_password.as_str()) {
        proof {
            assert(login_matched(store.users@, user, salt@));
            assert(user_password@.len() == 48);
            assert(target is Some);
        }
        let token = match create_jwt_at(secret, now) {
            Some(t) => t,
            None => {
                return Err(
                    AppError::new(
                        STATUS_INTERNAL_SERVER_ERROR,
                        "Something went wrong on the server side".to_owned(),
                    ),
                );
            },
        };
        let token_copy = token.clone();
        store.set_token(user_id, token_copy);
        Ok(TokenDto { access_token: Some(token), refresh_token: None })
    } else {
        proof {
            assert(!login_matched(store.users@, user, salt@));
        }
        Err(
            AppError::new(
                STATUS_UNAUTHORIZED,
                "The login or password or both are incorrect".to_owned(),
            ),
        )
    }
}

/// Log a user in against the system clock.
pub fn login(store: &mut IdentityStore, user: LoginUserDto, salt: &str, secret: &str) -> (r:
    Result<TokenDto, AppError>)
    requires
        old(store).wf(),
    ensures
        exists|t: i64| login_post(*old(store), *final(store), user, salt@, secret@, t, r),
        login_matched(old(store).users@, user, salt@) && salt_ok(salt@) && password_len_ok(
            user.password@,
        ) ==> r is Ok,
{
    let now = now_ts();
    let ghost olds = *store;
    let r = login_at(store, user, salt, secret, now);
    proof {
        assert(login_post(olds, *store, user, salt@, secret@, now, r));
    }
    r
}

/// The HTTP shaping of a login outcome: 200 with the token on success,
/// the failure's own status and message otherwise.
pub open spec fn login_response_post(
    olds: IdentityStore,
    news: IdentityStore,
    user: LoginUserDto,
    salt: Seq<char>,
    secret: Seq<char>,
    now: i64,
    r: LoginResponse,
) -> bool {
    exists|inner: Result<TokenDto, AppError>|
        #[trigger] login_post(olds, news, user, salt, secret, now, inner) && (match inner {
            Ok(tok) => r.status_code == STATUS_OK && r.message@ == "SUCCESSFUL AUTHORIZATION"@
                && r.token == tok.access_token,
            Err(e) => r.status_code == e.code && r.message@ == e.message@ && r.token is None,
        })
}

/// Log a user in and shape the outcome as the HTTP layer sends it.
pub fn login_response(
    store: &mut IdentityStore,
    user: LoginUserDto,
    salt: &str,
    secret: &str,
) -> (r: LoginResponse)
    requires
        old(store).wf(),
    ensures
        exists|t: i64|
            #[trigger] login_response_post(*old(store), *final(store), user, salt@, secret@, t, r),
        login_matched(old(store).users@, user, salt@) && salt_ok(salt@) && password_len_ok(
            user.password@,
        ) ==> r.status_code == STATUS_OK && r.token is Some,
{
    let now = now_ts();
    let ghost olds = *store;
    let inner = login_at(store, user, salt, secret, now);
    let ghost inner0 = inner;
    let r = match inner {
        Ok(tok) => LoginResponse {
            status_code: STATUS_OK,
            message: "SUCCESSFUL AUTHORIZATION".to_owned(),
            token: tok.access_token,
        },
        Err(e) => LoginResponse { status_code: e.code, message: e.message, token: None },
    };
    proof {
        assert(login_post(olds, *store, user, salt@, secret@, now, inner0));
        assert(login_response_post(olds, *store, user, salt@, secret@, now, r));
    }
    r
}

} // verus!
