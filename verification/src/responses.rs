use vstd::prelude::*;

verus! {

/// HTTP status for a successful request.
pub const STATUS_OK: u16 = 200;

/// HTTP status for a malformed request.
pub const STATUS_BAD_REQUEST: u16 = 400;

/// HTTP status for a rejected credential, role or registration conflict.
pub const STATUS_UNAUTHORIZED: u16 = 401;

/// HTTP status for an internal failure; its message never carries detail.
pub const STATUS_INTERNAL_SERVER_ERROR: u16 = 500;

/// An error response: a status code and a user-facing message.
#[derive(Debug)]
pub struct AppError {
    pub code: u16,
    pub message: String,
}

impl AppError {
    pub fn new(code: u16, message: String) -> (r: AppError)
        ensures
            r.code == code,
            r.message == message,
    {
        AppError { code, message }
    }
}

/// A response carrying a status, an optional message and an optional
/// redirect target.
#[derive(Debug)]
pub struct DefaultResponse {
    pub status_code: u16,
    pub message: Option<String>,
    pub redirect: Option<String>,
}

/// A login or registration response carrying a status, a message and,
/// on success, the issued token.
#[derive(Debug)]
pub struct LoginResponse {
    pub status_code: u16,
    pub message: String,
    pub token: Option<String>,
}

/// The wire shape of a `DefaultResponse` body.
#[derive(Debug)]
pub struct DefaultResponseJson {
    pub message: Option<String>,
    pub redirect: Option<String>,
}

/// The wire shape of a `LoginResponse` body.
#[derive(Debug)]
pub struct LoginResponseJson {
    pub message: String,
    pub token: Option<String>,
}

impl DefaultResponse {
    /// The body that is sent alongside the status code.
    pub fn body(self) -> (r: DefaultResponseJson)
        ensures
            r.message == self.message,
            r.redirect == self.redirect,
    {
        DefaultResponseJson { message: self.message, redirect: self.redirect }
    }
}

impl LoginResponse {
    /// The body that is sent alongside the status code.
    pub fn body(self) -> (r: LoginResponseJson)
        ensures
            r.message == self.message,
            r.token == self.token,
    {
        LoginResponseJson { message: self.message, token: self.token }
    }
}

} // verus!
