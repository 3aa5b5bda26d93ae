use vstd::prelude::*;
use crate::dto::{LoginUserDto, RegisterUserDto, TokenDto};
use crate::jwt::{issued_at, jwt_claims_of, token_verdict, TOKEN_LIFETIME_SECS};
use crate::login::{login_matched, login_post};
use crate::insert::{insert_post, insert_validation};
use crate::register::{register_conflict, register_post};
use crate::security::{password_len_ok, salt_ok};
use crate::responses::{AppError, DefaultResponse, STATUS_INTERNAL_SERVER_ERROR, STATUS_OK,
    STATUS_UNAUTHORIZED};
use crate::store::{has_phone, phone_idx, IdentityStore};
use crate::validation::register_form_valid;

verus! {

/// No two rows with `verified == true` ever share a phone pair: the
/// store invariant keeps phone pairs unique across all rows, so in
/// particular across the verified ones.
pub proof fn lemma_verified_phones_unique(s: IdentityStore, i: int, j: int)
    requires
        s.wf(),
        0 <= i < s.users@.len(),
        0 <= j < s.users@.len(),
        i != j,
        s.users@[i].verified,
        s.users@[j].verified,
    ensures
        !(s.users@[i].phone_number_code == s.users@[j].phone_number_code
            && s.users@[i].phone_number@ == s.users@[j].phone_number@),
{
}

/// Registering a brand-new phone pair, when it succeeds, always leaves
/// the fresh row verified and carrying a non-empty token, and hands
/// that non-empty token back.
pub proof fn lemma_register_fresh_verified(
    olds: IdentityStore,
    news: IdentityStore,
    user: RegisterUserDto,
    salt: Seq<char>,
    secret: Seq<char>,
    now: i64,
    r: Result<TokenDto, AppError>,
)
    requires
        register_post(olds, news, user, salt, secret, now, r),
        !has_phone(olds.users@, user.phone_number_code, user.phone_number@),
        r is Ok,
    ensures
        news.users@.len() == olds.users@.len() + 1,
        news.users@[olds.users@.len() as int].verified,
        (news.users@[olds.users@.len() as int].token matches Some(t) && t@.len() > 0),
        (r->Ok_0.access_token matches Some(t) && t@.len() > 0),
{
}

/// Registering against a never-verified row for the same phone pair is
/// idempotent: the attempt rewrites that row in place — same id, no row
/// added or removed — whether it completes or stops before binding a
/// token.
pub proof fn lemma_register_claim_idempotent(
    olds: IdentityStore,
    news: IdentityStore,
    user: RegisterUserDto,
    salt: Seq<char>,
    secret: Seq<char>,
    now: i64,
    r: Result<TokenDto, AppError>,
)
    requires
        register_post(olds, news, user, salt, secret, now, r),
        has_phone(olds.users@, user.phone_number_code, user.phone_number@),
        !olds.users@[phone_idx(olds.users@, user.phone_number_code, user.phone_number@)].verified,
    ensures
        news.users@.len() == olds.users@.len(),
        news.users@[phone_idx(olds.users@, user.phone_number_code, user.phone_number@)].id
            == olds.users@[phone_idx(olds.users@, user.phone_number_code, user.phone_number@)].id,
{
    let idx = phone_idx(olds.users@, user.phone_number_code, user.phone_number@);
    if r is Err {
        if r->Err_0.code == STATUS_INTERNAL_SERVER_ERROR {
            assert(news == olds || crate::register::register_partial(olds, news, user, salt));
        } else {
            assert(news == olds);
        }
    }
}

/// Registering a phone pair that is already verified never succeeds and
/// never touches the store, whatever the other form fields hold: it is
/// refused as a conflict, or — only if an internal step failed first —
/// with the generic internal error.
pub proof fn lemma_register_conflict_refused(
    olds: IdentityStore,
    news: IdentityStore,
    user: RegisterUserDto,
    salt: Seq<char>,
    secret: Seq<char>,
    now: i64,
    r: Result<TokenDto, AppError>,
)
    requires
        register_post(olds, news, user, salt, secret, now, r),
        register_form_valid(user),
        register_conflict(olds, user),
    ensures
        r is Err,
        news == olds,
        r->Err_0.code == STATUS_UNAUTHORIZED ==> r->Err_0.message@
            == crate::register::conflict_msg(),
{
}

/// A token issued at instant `t` is accepted up to and including
/// `t + 10 minutes` — so still at `t + 10 minutes - 1 second` — and is
/// rejected as expired strictly after `t + 10 minutes`.
pub proof fn lemma_token_lifetime(token: Seq<char>, secret: Seq<char>, t: i64, now: i64)
    requires
        issued_at(token, secret, t),
    ensures
        t <= now <= t + TOKEN_LIFETIME_SECS ==> token_verdict(
            jwt_claims_of(token, secret),
            now,
        ) is Valid,
        now > t + TOKEN_LIFETIME_SECS ==> token_verdict(
            jwt_claims_of(token, secret),
            now,
        ) is Expired,
{
}

/// A login that fails the credential check is rejected with one fixed
/// message: two such rejections — a wrong password, an unknown phone, a
/// missing identifier — are indistinguishable.
pub proof fn lemma_login_rejections_identical(
    olds1: IdentityStore,
    news1: IdentityStore,
    user1: LoginUserDto,
    r1: Result<TokenDto, AppError>,
    t1: i64,
    olds2: IdentityStore,
    news2: IdentityStore,
    user2: LoginUserDto,
    r2: Result<TokenDto, AppError>,
    t2: i64,
    salt: Seq<char>,
    secret: Seq<char>,
)
    requires
        login_post(olds1, news1, user1, salt, secret, t1, r1),
        login_post(olds2, news2, user2, salt, secret, t2, r2),
        r1 is Err,
        r1->Err_0.code == STATUS_UNAUTHORIZED,
        r2 is Err,
        r2->Err_0.code == STATUS_UNAUTHORIZED,
    ensures
        r1->Err_0.message@ == r2->Err_0.message@,
{
}

/// A login whose hashed password reads exactly as the stored credential
/// is never rejected as a bad credential, and issues a token whenever
/// the salt is acceptable, the password within Argon2's length bound,
/// and the instant on or after the Unix epoch.
pub proof fn lemma_login_correct_password(
    olds: IdentityStore,
    news: IdentityStore,
    user: LoginUserDto,
    salt: Seq<char>,
    secret: Seq<char>,
    now: i64,
    r: Result<TokenDto, AppError>,
)
    requires
        login_post(olds, news, user, salt, secret, now, r),
        login_matched(olds.users@, user, salt),
    ensures
        r is Ok || (r is Err && r->Err_0.code == STATUS_INTERNAL_SERVER_ERROR),
        r is Ok ==> (r->Ok_0.access_token matches Some(t) && t@.len() > 0),
        0 <= now && salt_ok(salt) && password_len_ok(user.password@) ==> r is Ok,
{
}

/// A pre-registration followed by a completing registration of the
/// same phone pair is idempotent end to end: the registration claims
/// the row the pre-registration created — same id, no row added — and
/// leaves it verified.
pub proof fn lemma_claim_completes_preregistration(
    s0: IdentityStore,
    s1: IdentityStore,
    s2: IdentityStore,
    form0: RegisterUserDto,
    form: RegisterUserDto,
    r0: DefaultResponse,
    salt: Seq<char>,
    secret: Seq<char>,
    now: i64,
    r: Result<TokenDto, AppError>,
)
    requires
        insert_post(s0, s1, form0, r0),
        r0.status_code == STATUS_OK,
        register_post(s1, s2, form, salt, secret, now, r),
        form.phone_number_code == form0.phone_number_code,
        form.phone_number@ == form0.phone_number@,
        r is Ok,
    ensures
        s1.users@.len() == s0.users@.len() + 1,
        s2.users@.len() == s1.users@.len(),
        s2.users@[s0.users@.len() as int].id == s0.next_id,
        s2.users@[s0.users@.len() as int].verified,
{
    assert(insert_validation(form0).0 == STATUS_OK);
    let fresh = s1.users@[s0.users@.len() as int];
    assert(fresh.id == s0.next_id && !fresh.verified);
    assert(crate::models::phone_matches(fresh, form.phone_number_code, form.phone_number@));
    assert(has_phone(s1.users@, form.phone_number_code, form.phone_number@));
    let idx = phone_idx(s1.users@, form.phone_number_code, form.phone_number@);
    assert(0 <= idx < s1.users@.len() && crate::models::phone_matches(
        s1.users@[idx],
        form.phone_number_code,
        form.phone_number@,
    ));
    assert(idx == s0.users@.len());
}

} // verus!
