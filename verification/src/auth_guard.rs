use vstd::prelude::*;
use crate::authorizer::{has_permission, is_permitted, ProtectedPathTable};
use crate::jwt::{is_valid_jwt_at, jwt_claims_of, now_ts, token_verdict, verdict_message};
use crate::models::User;
use crate::responses::{DefaultResponse, STATUS_UNAUTHORIZED};
use crate::store::{has_token, last_token_idx, roles_of, IdentityStore};

verus! {

/// The message surfaced when no identity carries the presented token.
pub open spec fn not_authorized_msg() -> Seq<char> {
    "You are not authorized, please log in"@
}

/// The message surfaced when the identity's roles do not reach the
/// requested path.
pub open spec fn no_permission_msg() -> Seq<char> {
    "You do not have permissions to access this page"@
}

/// Everything one admission decision at instant `now` guarantees.
///
/// The request is admitted exactly when an identity carries the
/// presented token, the token itself is valid and unexpired at `now`,
/// and the identity's role set reaches the requested path. Each
/// rejection is a 401 carrying the message of the first gate that
/// failed, in that order; no rejection carries a redirect. On
/// admission the resolved identity (the last row carrying the token,
/// were there several) and its roles are handed back. Nothing is
/// written.
pub open spec fn guard_post(
    s: IdentityStore,
    table: ProtectedPathTable,
    token: Seq<char>,
    path: Seq<char>,
    secret: Seq<char>,
    now: i64,
    r: Result<(User, Vec<String>), DefaultResponse>,
) -> bool {
    let found = has_token(s.users@, token);
    let target = s.users@[last_token_idx(s.users@, token)];
    let roles = roles_of(s.user_roles@, s.roles@, target.id);
    let verdict = token_verdict(jwt_claims_of(token, secret), now);
    &&& r is Ok ==> found && verdict is Valid && is_permitted(
        roles.to_set(),
        path,
        table.as_map(),
    ) && r->Ok_0.0 == target && r->Ok_0.1.deep_view() == roles
    &&& found && verdict is Valid && is_permitted(roles.to_set(), path, table.as_map()) ==> r
        is Ok
    &&& !found ==> r is Err && (r->Err_0.message matches Some(m) && m@ == not_authorized_msg())
    &&& found && !(verdict is Valid) ==> r is Err && (r->Err_0.message matches Some(m) && m@
        == verdict_message(verdict))
    &&& found && verdict is Valid && !is_permitted(roles.to_set(), path, table.as_map()) ==> r
        is Err && (r->Err_0.message matches Some(m) && m@ == no_permission_msg())
    &&& r is Err ==> r->Err_0.status_code == STATUS_UNAUTHORIZED && r->Err_0.redirect is None
}

/// Admit or reject one request at the given instant: resolve the
/// bearer token to an identity, check the token's signature and
/// expiry, load the identity's roles, and check them against the
/// protected-path table. Pure admission control: nothing is written.
#[verifier::rlimit(100)]
#[verifier::spinoff_prover]
pub fn auth_guard_at(
    store: &IdentityStore,
    table: &ProtectedPathTable,
    token: &str,
    path: &str,
    secret: &str,
    now: i64,
) -> (r: Result<(User, Vec<String>), DefaultResponse>)
    requires
        store.wf(),
        table.wf(),
    ensures
        guard_post(*store, *table, token@, path@, secret@, now, r),
{
    let user = match store.find_by_token(token) {
        Some(u) => u,
        None => {
            return Err(
                DefaultResponse {
                    status_code: STATUS_UNAUTHORIZED,
                    message: Some("You are not authorized, please log in".to_owned()),
                    redirect: None,
                },
            );
        },
    };
    let (valid, message) = is_valid_jwt_at(token, secret, now);
    if !valid {
        return Err(
            DefaultResponse {
                status_code: STATUS_UNAUTHORIZED,
                message: Some(message),
                redirect: None,
            },
        );
    }
    let roles = store.roles_for(user.id);
    if !has_permission(&roles, path, table) {
        return Err(
            DefaultResponse {
                status_code: STATUS_UNAUTHORIZED,
                message: Some("You do not have permissions to access this page".to_owned()),
                redirect: None,
            },
        );
    }
    Ok((user, roles))
}

/// Admit or reject one request against the system clock.
pub fn auth_guard(
    store: &IdentityStore,
    table: &ProtectedPathTable,
    token: &str,
    path: &str,
    secret: &str,
) -> (r: Result<(User, Vec<String>), DefaultResponse>)
    requires
        store.wf(),
        table.wf(),
    ensures
        exists|t: i64| #[trigger] guard_post(*store, *table, token@, path@, secret@, t, r),
{
    let now = now_ts();
    let r = auth_guard_at(store, table, token, path, secret, now);
    proof {
        assert(guard_post(*store, *table, token@, path@, secret@, now, r));
    }
    r
}

} // verus!
