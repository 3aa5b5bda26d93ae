use vstd::prelude::*;

verus! {

/// The registration form: what a client submits to open or complete
/// an account.
#[derive(Debug)]
pub struct RegisterUserDto {
    pub name: String,
    pub email: Option<String>,
    pub phone_number_code: i32,
    pub phone_number: String,
    pub password: Option<String>,
}

/// The login form: either the phone pair or the email identifies the
/// account; the phone pair takes precedence when both are given.
#[derive(Debug)]
pub struct LoginUserDto {
    pub email: Option<String>,
    pub phone_number_code: Option<i32>,
    pub phone_number: Option<String>,
    pub password: String,
}

/// A token pair returned on successful registration or login.
/// Refresh tokens are not issued by this core.
#[derive(Debug)]
pub struct TokenDto {
    pub access_token: Option<String>,
    pub refresh_token: Option<String>,
}

/// The wire shape of a token response body.
#[derive(Debug)]
pub struct TokenResponse {
    pub access_token: Option<String>,
    pub refresh_token: Option<String>,
}

impl TokenDto {
    /// The body that is sent alongside a 200 status.
    pub fn body(self) -> (r: TokenResponse)
        ensures
            r.access_token == self.access_token,
            r.refresh_token == self.refresh_token,
    {
        TokenResponse { access_token: self.access_token, refresh_token: self.refresh_token }
    }
}

/// A bare credential-check form: one login field that holds either a
/// phone pair written as one string, or an email.
#[derive(Debug)]
pub struct SignIn {
    pub login: String,
    pub password: String,
}

/// What an outbound notification mail carries.
#[derive(Debug)]
pub struct EmailPayload {
    pub full_name: String,
    pub subject: String,
    pub email: String,
    pub message: String,
}

impl EmailPayload {
    /// The recipient line an outbound mail is addressed with:
    /// the full name, then the mailbox in angle brackets.
    pub fn to_address(&self) -> (r: String)
        ensures
            r@ == self.full_name@ + " <"@ + self.email@ + ">"@,
    {
        let mut out = self.full_name.clone();
        out.append(" <");
        out.append(self.email.as_str());
        out.append(">");
        out
    }
}

} // verus!
