use vstd::prelude::*;
use crate::dto::{LoginUserDto, RegisterUserDto, TokenDto};
use crate::login::{login, login_matched, login_post};
use crate::register::{register, register_conflict, register_post};
use crate::responses::AppError;
use crate::security::{password_len_ok, salt_ok};
use crate::store::{has_phone, IdentityStore};
use crate::validation;
use crate::validation::{register_form_valid, register_validation_message};

verus! {

/// The authentication service: registration and login against an
/// identity store.
pub struct AuthService;

/// The controller in front of the authentication service.
pub struct AuthController {
    pub auth_service: AuthService,
}

impl AuthService {
    /// Check a registration form against the rules; the first failure
    /// wins.
    pub fn is_valid_form(user: &RegisterUserDto) -> (r: (bool, String))
        ensures
            r.0 == register_form_valid(*user),
            match register_validation_message(*user) {
                Some(m) => r.1@ == m,
                None => r.1@.len() == 0,
            },
    {
        validation::is_valid_form(user)
    }

    /// Register a user: validate, hash, claim or insert the row,
    /// assign the default role, and issue a token.
    pub fn register(
        store: &mut IdentityStore,
        user: RegisterUserDto,
        salt: &str,
        secret: &str,
    ) -> (r: Result<TokenDto, AppError>)
        requires
            old(store).wf(),
        ensures
            exists|t: i64| register_post(*old(store), *final(store), user, salt@, secret@, t, r),
            register_form_valid(user) && !register_conflict(*old(store), user) && salt_ok(salt@)
                && (has_phone(old(store).users@, user.phone_number_code, user.phone_number@)
                || old(store).next_id < i32::MAX) ==> r is Ok,
    {
        register(store, user, salt, secret)
    }

    /// Log a user in: look the identity up, compare hashed credentials,
    /// and issue a fresh token on a match.
    pub fn login(
        &self,
        store: &mut IdentityStore,
        user: LoginUserDto,
        salt: &str,
        secret: &str,
    ) -> (r: Result<TokenDto, AppError>)
        requires
            old(store).wf(),
        ensures
            exists|t: i64| login_post(*old(store), *final(store), user, salt@, secret@, t, r),
            login_matched(old(store).users@, user, salt@) && salt_ok(salt@) && password_len_ok(
                user.password@,
            ) ==> r is Ok,
    {
        login(store, user, salt, secret)
    }
}

impl AuthController {
    /// A controller over a fresh service handle.
    pub fn new() -> (r: AuthController)
        ensures
            r == (AuthController { auth_service: AuthService }),
    {
        AuthController { auth_service: AuthService }
    }

    /// Serve a login request by delegating to the service.
    pub fn login(
        &self,
        store: &mut IdentityStore,
        user: LoginUserDto,
        salt: &str,
        secret: &str,
    ) -> (r: Result<TokenDto, AppError>)
        requires
            old(store).wf(),
        ensures
            exists|t: i64| login_post(*old(store), *final(store), user, salt@, secret@, t, r),
            login_matched(old(store).users@, user, salt@) && salt_ok(salt@) && password_len_ok(
                user.password@,
            ) ==> r is Ok,
    {
        self.auth_service.login(store, user, salt, secret)
    }
}

} // verus!
