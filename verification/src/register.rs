use vstd::prelude::*;
use crate::dto::{RegisterUserDto, TokenDto};
use crate::jwt::{create_jwt_at, jwt_token_of, now_ts, TOKEN_LIFETIME_SECS};
use crate::responses::{
    AppError, LoginResponse, STATUS_INTERNAL_SERVER_ERROR, STATUS_OK, STATUS_UNAUTHORIZED,
};
use crate::security::{hash_password, hashed_password_of, password_len_ok, salt_ok};
use crate::store::{has_phone, phone_idx, IdentityStore};
use crate::validation::{is_valid_form, register_form_valid, register_validation_message};

verus! {

/// The role id every fresh registration is assigned.
pub const DEFAULT_ROLE_ID: i32 = 1;

/// The generic message surfaced whenever an internal step fails; it
/// deliberately carries no detail.
pub open spec fn server_error_msg() -> Seq<char> {
    "Something went wrong on the server side"@
}

/// The message surfaced when the phone pair is already verified.
pub open spec fn conflict_msg() -> Seq<char> {
    "The user has already been registered"@
}

/// The form's phone pair is already held by a verified row: the
/// registration must be refused, whatever the other fields hold.
pub open spec fn register_conflict(s: IdentityStore, form: RegisterUserDto) -> bool {
    &&& has_phone(s.users@, form.phone_number_code, form.phone_number@)
    &&& s.users@[phone_idx(s.users@, form.phone_number_code, form.phone_number@)].verified
}

/// A row as a completed registration leaves it: the form's fields, the
/// password stored hashed, a bound token, and the verified mark set.
pub open spec fn registered_row(
    u: crate::models::User,
    id: i32,
    form: RegisterUserDto,
    salt: Seq<char>,
    secret: Seq<char>,
    now: i64,
) -> bool {
    &&& u.id == id
    &&& u.name@ == form.name@
    &&& (u.email matches Some(e) && form.email matches Some(fe) && e@ == fe@)
    &&& u.phone_number_code == form.phone_number_code
    &&& u.phone_number@ == form.phone_number@
    &&& (u.password matches Some(p) && form.password matches Some(fp) && p@
        == hashed_password_of(fp@, salt))
    &&& (u.token matches Some(t) && t@ == jwt_token_of(
        now as u64,
        (now + TOKEN_LIFETIME_SECS) as u64,
        secret,
    ))
    &&& u.verified
}

/// A row after the claim/insert step but before a token was bound: the
/// form's fields with the password hashed, while token and verified
/// state still read as they did before the step.
pub open spec fn claimed_row(
    u: crate::models::User,
    id: i32,
    form: RegisterUserDto,
    salt: Seq<char>,
    token: Option<String>,
    verified: bool,
) -> bool {
    &&& u.id == id
    &&& u.name@ == form.name@
    &&& (u.email matches Some(e) && form.email matches Some(fe) && e@ == fe@)
    &&& u.phone_number_code == form.phone_number_code
    &&& u.phone_number@ == form.phone_number@
    &&& (u.password matches Some(p) && form.password matches Some(fp) && p@
        == hashed_password_of(fp@, salt))
    &&& u.token == token
    &&& u.verified == verified
}

/// How a successful registration rewrites the store: an existing
/// unverified row for the form's phone pair is completed in place, and
/// a missing one is inserted fresh under the next id; either way the
/// default role is assigned and all other rows stay untouched.
pub open spec fn register_success(
    olds: IdentityStore,
    news: IdentityStore,
    form: RegisterUserDto,
    salt: Seq<char>,
    secret: Seq<char>,
    now: i64,
) -> bool {
    let code = form.phone_number_code;
    let num = form.phone_number@;
    if has_phone(olds.users@, code, num) {
        let idx = phone_idx(olds.users@, code, num);
        &&& news.users@.len() == olds.users@.len()
        &&& forall|j: int|
            0 <= j < olds.users@.len() && j != idx ==> news.users@[j] == olds.users@[j]
        &&& registered_row(news.users@[idx], olds.users@[idx].id, form, salt, secret, now)
        &&& news.user_roles@ == olds.user_roles@.push((olds.users@[idx].id, DEFAULT_ROLE_ID))
        &&& news.next_id == olds.next_id
    } else {
        &&& news.users@.len() == olds.users@.len() + 1
        &&& forall|j: int| 0 <= j < olds.users@.len() ==> news.users@[j] == olds.users@[j]
        &&& registered_row(
            news.users@[olds.users@.len() as int],
            olds.next_id,
            form,
            salt,
            secret,
            now,
        )
        &&& news.user_roles@ == olds.user_roles@.push((olds.next_id, DEFAULT_ROLE_ID))
        &&& news.next_id == olds.next_id + 1
    }
}

/// The store after a registration that claimed or inserted its row and
/// assigned the role, but failed before a token could be bound: an
/// accepted inconsistent-but-safe state, re-claimable by a retry.
pub open spec fn register_partial(
    olds: IdentityStore,
    news: IdentityStore,
    form: RegisterUserDto,
    salt: Seq<char>,
) -> bool {
    let code = form.phone_number_code;
    let num = form.phone_number@;
    if has_phone(olds.users@, code, num) {
        let idx = phone_idx(olds.users@, code, num);
        &&& news.users@.len() == olds.users@.len()
        &&& forall|j: int|
            0 <= j < olds.users@.len() && j != idx ==> news.users@[j] == olds.users@[j]
        &&& claimed_row(
            news.users@[idx],
            olds.users@[idx].id,
            form,
            salt,
            olds.users@[idx].token,
            olds.users@[idx].verified,
        )
        &&& news.user_roles@ == olds.user_roles@.push((olds.users@[idx].id, DEFAULT_ROLE_ID))
        &&& news.next_id == olds.next_id
    } else {
        &&& news.users@.len() == olds.users@.len() + 1
        &&& forall|j: int| 0 <= j < olds.users@.len() ==> news.users@[j] == olds.users@[j]
        &&& claimed_row(
            news.users@[olds.users@.len() as int],
            olds.next_id,
            form,
            salt,
            None,
            false,
        )
        &&& news.user_roles@ == olds.user_roles@.push((olds.next_id, DEFAULT_ROLE_ID))
        &&& news.next_id == olds.next_id + 1
    }
}

/// Everything a registration attempt at instant `now` guarantees about
/// its result and the store.
///
/// - An invalid form is refused with its validation message and the
///   store untouched.
/// - A valid form whose phone pair is already verified is refused as a
///   conflict, with the store untouched.
/// - Internal failures surface the one generic message; the store is
///   then either untouched or holds the claimed row without a token.
/// - Success is owed: a valid, conflict-free form registers whenever
///   the salt is acceptable, the instant is on or after the Unix
///   epoch, and — on the fresh-insert path — the id space is not
///   exhausted.
/// - On success the store is rewritten as `register_success` says, and
///   the returned access token is exactly the token bound to the row.
pub open spec fn register_post(
    olds: IdentityStore,
    news: IdentityStore,
    user: RegisterUserDto,
    salt: Seq<char>,
    secret: Seq<char>,
    now: i64,
    r: Result<TokenDto, AppError>,
) -> bool {
    &&& news.wf()
    &&& news.roles == olds.roles
    &&& !register_form_valid(user) ==> r is Err && r->Err_0.code == STATUS_UNAUTHORIZED && Some(
        r->Err_0.message@,
    ) == register_validation_message(user) && news == olds
    &&& register_form_valid(user) && register_conflict(olds, user) ==> r is Err && news == olds
        && (r->Err_0.code == STATUS_UNAUTHORIZED && r->Err_0.message@ == conflict_msg()
        || r->Err_0.code == STATUS_INTERNAL_SERVER_ERROR && r->Err_0.message@
        == server_error_msg())
    &&& r is Err ==> r->Err_0.code == STATUS_UNAUTHORIZED || r->Err_0.code
        == STATUS_INTERNAL_SERVER_ERROR
    &&& r is Err && r->Err_0.code == STATUS_UNAUTHORIZED ==> !register_form_valid(user)
        || register_conflict(olds, user)
    &&& r is Err && r->Err_0.code == STATUS_INTERNAL_SERVER_ERROR ==> register_form_valid(user)
        && r->Err_0.message@ == server_error_msg() && (news == olds || !register_conflict(
            olds,
            user,
        ) && register_partial(olds, news, user, salt))
    &&& r is Ok ==> register_form_valid(user) && !register_conflict(olds, user) && 0 <= now
        && register_success(olds, news, user, salt, secret, now) && (r->Ok_0.access_token
        matches Some(t) && t@ == jwt_token_of(
        now as u64,
        (now + TOKEN_LIFETIME_SECS) as u64,
        secret,
    ) && t@.len() > 0) && r->Ok_0.refresh_token is None
    &&& register_form_valid(user) && !register_conflict(olds, user) && 0 <= now && salt_ok(salt)
        && (has_phone(olds.users@, user.phone_number_code, user.phone_number@) || olds.next_id
        < i32::MAX) ==> r is Ok
}

/// Register a user at the given instant: validate the form, hash the
/// password, claim the existing unverified row for the phone pair or
/// insert a fresh one, assign the default role, and bind a fresh token
/// while marking the row verified.
pub fn register_at(
    store: &mut IdentityStore,
    user: RegisterUserDto,
    salt: &str,
    secret: &str,
    now: i64,
) -> (r: Result<TokenDto, AppError>)
    requires
        old(store).wf(),
    ensures
        register_post(*old(store), *final(store), user, salt@, secret@, now, r),
{
    let (passed, message) = is_valid_form(&user);
    if !passed {
        return Err(AppError::new(STATUS_UNAUTHORIZED, message));
    }
    let password = match &user.password {
        Some(p) => p.clone(),
        None => {
            proof {
                assert(false);
            }
            return Err(
                AppError::new(
                    STATUS_INTERNAL_SERVER_ERROR,
                    "Something went wrong on the server side".to_owned(),
                ),
            );
        },
    };
    proof {
        assert(password@.len() <= 30);
        assert(password_len_ok(password@));
    }
    let hashed = match hash_password(password, salt) {
        Ok(h) => h,
        Err(code) => {
            return Err(
                AppError::new(code, "Something went wrong on the server side".to_owned()),
            );
        },
    };
    let code = user.phone_number_code;
    let number = user.phone_number.clone();
    let hashed_user = RegisterUserDto {
        name: user.name,
        email: user.email,
        phone_number_code: user.phone_number_code,
        phone_number: user.phone_number,
        password: Some(hashed),
    };
    let user_id: i32;
    match store.find_by_phone(code, number.as_str()) {
        Some(cur) => {
            if cur.verified {
                return Err(AppError::new(STATUS_UNAUTHORIZED, "The user has already been registered".to_owned()));
            }
            user_id = cur.id;
            proof {
                let idx = phone_idx(store.users@, code, number@);
                assert forall|j: int|
                    0 <= j < store.users@.len() && (#[trigger] store.users@[j]).id != user_id
                        implies !crate::models::phone_matches(
                    store.users@[j],
                    hashed_user.phone_number_code,
                    hashed_user.phone_number@,
                ) by {
                    if crate::models::phone_matches(
                        store.users@[j],
                        hashed_user.phone_number_code,
                        hashed_user.phone_number@,
                    ) {
                        assert(j == idx);
                    }
                }
            }
            store.update_from_form(user_id, hashed_user);
        },
        None => {
            match store.insert(hashed_user) {
                Ok(id) => {
                    user_id = id;
                },
                Err(_) => {
                    return Err(
                        AppError::new(
                            STATUS_INTERNAL_SERVER_ERROR,
                            "Something went wrong on the server side".to_owned(),
                        ),
                    );
                },
            }
        },
    }
    store.insert_role(user_id, DEFAULT_ROLE_ID);
    let token = match create_jwt_at(secret, now) {
        Some(t) => t,
        None => {
            return Err(
                AppError::new(
                    STATUS_INTERNAL_SERVER_ERROR,
                    "Something went wrong on the server side".to_owned(),
                ),
            );
        },
    };
    let token_copy = token.clone();
    store.set_token_verified(user_id, token_copy);
    Ok(TokenDto { access_token: Some(token), refresh_token: None })
}

/// Register a user against the system clock.
pub fn register(
    store: &mut IdentityStore,
    user: RegisterUserDto,
    salt: &str,
    secret: &str,
) -> (r: Result<TokenDto, AppError>)
    requires
        old(store).wf(),
    ensures
        exists|t: i64| register_post(*old(store), *final(store), user, salt@, secret@, t, r),
        register_form_valid(user) && !register_conflict(*old(store), user) && salt_ok(salt@) && (
        has_phone(old(store).users@, user.phone_number_code, user.phone_number@) || old(
            store,
        ).next_id < i32::MAX) ==> r is Ok,
{
    let now = now_ts();
    let ghost olds = *store;
    let r = register_at(store, user, salt, secret, now);
    proof {
        assert(register_post(olds, *store, user, salt@, secret@, now, r));
    }
    r
}

/// The HTTP shaping of a registration outcome: 200 with the token on
/// success, the failure's own status and message otherwise.
pub open spec fn response_of(inner: Result<TokenDto, AppError>, r: LoginResponse) -> bool {
    match inner {
        Ok(tok) => r.status_code == STATUS_OK && r.message@ == "SUCCESSFUL AUTHORIZATION"@
            && r.token == tok.access_token,
        Err(e) => r.status_code == e.code && r.message@ == e.message@ && r.token is None,
    }
}

/// A registration attempt at instant `now` ended in this HTTP response,
/// with the store rewritten as `register_post` says.
pub open spec fn register_response_post(
    olds: IdentityStore,
    news: IdentityStore,
    user: RegisterUserDto,
    salt: Seq<char>,
    secret: Seq<char>,
    now: i64,
    r: LoginResponse,
) -> bool {
    exists|inner: Result<TokenDto, AppError>|
        #[trigger] register_post(olds, news, user, salt, secret, now, inner) && response_of(
            inner,
            r,
        )
}

/// Register a user and shape the outcome as the HTTP layer sends it:
/// 200 with the token on success, the failure's own status and message
/// otherwise.
pub fn register_response(
    store: &mut IdentityStore,
    user: RegisterUserDto,
    salt: &str,
    secret: &str,
) -> (r: LoginResponse)
    requires
        old(store).wf(),
    ensures
        exists|t: i64|
            #[trigger] register_response_post(
                *old(store),
                *final(store),
                user,
                salt@,
                secret@,
                t,
                r,
            ),
        register_form_valid(user) && !register_conflict(*old(store), user) && salt_ok(salt@) && (
        has_phone(old(store).users@, user.phone_number_code, user.phone_number@) || old(
            store,
        ).next_id < i32::MAX) ==> r.status_code == STATUS_OK && r.token is Some,
{
    let now = now_ts();
    let ghost olds = *store;
    let inner = register_at(store, user, salt, secret, now);
    let ghost inner0 = inner;
    let r = match inner {
        Ok(tok) => LoginResponse {
            status_code: STATUS_OK,
            message: "SUCCESSFUL AUTHORIZATION".to_owned(),
            token: tok.access_token,
        },
        Err(e) => LoginResponse { status_code: e.code, message: e.message, token: None },
    };
    proof {
        assert(register_post(olds, *store, user, salt@, secret@, now, inner0));
        assert(response_of(inner0, r));
        assert(register_response_post(olds, *store, user, salt@, secret@, now, r));
    }
    r
}

} // verus!
