use vstd::prelude::*;

verus! {

/// A user row as the identity store holds it.
#[derive(Debug)]
pub struct User {
    pub id: i32,
    pub name: String,
    pub email: Option<String>,
    pub phone_number_code: i32,
    pub phone_number: String,
    pub password: Option<String>,
    pub token: Option<String>,
    pub verified: bool,
}

/// Does this row carry the given phone pair?
pub open spec fn phone_matches(u: User, code: i32, number: Seq<char>) -> bool {
    u.phone_number_code == code && u.phone_number@ == number
}

/// Does this row carry the given email?
pub open spec fn email_matches(u: User, email: Seq<char>) -> bool {
    match u.email {
        Some(e) => e@ == email,
        None => false,
    }
}

/// Does this row carry the given session token?
pub open spec fn token_matches(u: User, token: Seq<char>) -> bool {
    match u.token {
        Some(t) => t@ == token,
        None => false,
    }
}

impl User {
    /// A field-by-field copy of the row.
    pub fn duplicate(&self) -> (r: User)
        ensures
            r == *self,
    {
        User {
            id: self.id,
            name: self.name.clone(),
            email: match &self.email {
                Some(e) => Some(e.clone()),
                None => None,
            },
            phone_number_code: self.phone_number_code,
            phone_number: self.phone_number.clone(),
            password: match &self.password {
                Some(p) => Some(p.clone()),
                None => None,
            },
            token: match &self.token {
                Some(t) => Some(t.clone()),
                None => None,
            },
            verified: self.verified,
        }
    }
}

} // verus!
