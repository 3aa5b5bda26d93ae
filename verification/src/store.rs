use vstd::prelude::*;
use crate::dto::RegisterUserDto;
use crate::models::{email_matches, phone_matches, token_matches, User};
use crate::strutil::str_eq;

verus! {

/// No two rows carry the same id.
pub open spec fn distinct_ids(s: Seq<User>) -> bool {
    forall|i: int, j: int|
        #![trigger s[i], s[j]]
        0 <= i < s.len() && 0 <= j < s.len() && i != j ==> s[i].id != s[j].id
}

/// No two rows carry the same phone pair.
pub open spec fn distinct_phones(s: Seq<User>) -> bool {
    forall|i: int, j: int|
        #![trigger s[i], s[j]]
        0 <= i < s.len() && 0 <= j < s.len() && i != j ==> !(s[i].phone_number_code
            == s[j].phone_number_code && s[i].phone_number@ == s[j].phone_number@)
}

/// No two vocabulary entries carry the same role id.
pub open spec fn distinct_role_ids(s: Seq<(i32, String)>) -> bool {
    forall|i: int, j: int|
        #![trigger s[i], s[j]]
        0 <= i < s.len() && 0 <= j < s.len() && i != j ==> s[i].0 != s[j].0
}

/// Some row carries this phone pair.
pub open spec fn has_phone(s: Seq<User>, code: i32, number: Seq<char>) -> bool {
    exists|i: int| 0 <= i < s.len() && phone_matches(#[trigger] s[i], code, number)
}

/// The index of the row carrying this phone pair (meaningful when
/// `has_phone` holds; unique under `distinct_phones`).
pub open spec fn phone_idx(s: Seq<User>, code: i32, number: Seq<char>) -> int {
    choose|i: int| 0 <= i < s.len() && phone_matches(#[trigger] s[i], code, number)
}

/// Some row carries this email.
pub open spec fn has_email(s: Seq<User>, email: Seq<char>) -> bool {
    exists|i: int| 0 <= i < s.len() && email_matches(#[trigger] s[i], email)
}

/// The index of the first row carrying this email.
pub open spec fn first_email_idx(s: Seq<User>, email: Seq<char>) -> int {
    choose|i: int|
        0 <= i < s.len() && email_matches(#[trigger] s[i], email) && (forall|j: int|
            0 <= j < i ==> !email_matches(#[trigger] s[j], email))
}

/// Some row carries this session token.
pub open spec fn has_token(s: Seq<User>, token: Seq<char>) -> bool {
    exists|i: int| 0 <= i < s.len() && token_matches(#[trigger] s[i], token)
}

/// The index of the last row carrying this session token.
pub open spec fn last_token_idx(s: Seq<User>, token: Seq<char>) -> int {
    choose|i: int|
        0 <= i < s.len() && token_matches(#[trigger] s[i], token) && (forall|j: int|
            i < j < s.len() ==> !token_matches(#[trigger] s[j], token))
}

/// Some row carries this id.
pub open spec fn has_id(s: Seq<User>, id: i32) -> bool {
    exists|i: int| 0 <= i < s.len() && (#[trigger] s[i]).id == id
}

/// The index of the row carrying this id (unique under `distinct_ids`).
pub open spec fn id_idx(s: Seq<User>, id: i32) -> int {
    choose|i: int| 0 <= i < s.len() && (#[trigger] s[i]).id == id
}

/// The row a fresh insert of this form produces.
pub open spec fn fresh_row(f: RegisterUserDto, id: i32) -> User {
    User {
        id: id,
        name: f.name,
        email: f.email,
        phone_number_code: f.phone_number_code,
        phone_number: f.phone_number,
        password: f.password,
        token: None,
        verified: false,
    }
}

/// How completing a claimed row rewrites it: the form's fields replace
/// the stored ones, except that an absent optional field leaves the
/// stored value in place; id, token and verification state are kept.
pub open spec fn claim_update(u: User, f: RegisterUserDto) -> User {
    User {
        id: u.id,
        name: f.name,
        email: if f.email is Some {
            f.email
        } else {
            u.email
        },
        phone_number_code: f.phone_number_code,
        phone_number: f.phone_number,
        password: if f.password is Some {
            f.password
        } else {
            u.password
        },
        token: u.token,
        verified: u.verified,
    }
}

/// A row after a token has been bound to it and it was marked verified.
pub open spec fn with_token_verified(u: User, token: String) -> User {
    User { token: Some(token), verified: true, ..u }
}

/// A row after a fresh token has been bound to it.
pub open spec fn with_token(u: User, token: String) -> User {
    User { token: Some(token), ..u }
}

/// The title the role vocabulary gives a role id (first match).
pub open spec fn role_title(roles: Seq<(i32, String)>, rid: i32) -> Option<Seq<char>>
    decreases roles.len(),
{
    if roles.len() == 0 {
        None
    } else if roles[0].0 == rid {
        Some(roles[0].1@)
    } else {
        role_title(roles.skip(1), rid)
    }
}

/// The titles of the roles assigned to a user, in assignment order;
/// an assignment whose role id is not in the vocabulary contributes
/// nothing.
pub open spec fn roles_of(asg: Seq<(i32, i32)>, roles: Seq<(i32, String)>, uid: i32) -> Seq<
    Seq<char>,
>
    decreases asg.len(),
{
    if asg.len() == 0 {
        Seq::empty()
    } else {
        let prefix = roles_of(asg.drop_last(), roles, uid);
        if asg.last().0 == uid {
            match role_title(roles, asg.last().1) {
                Some(t) => prefix.push(t),
                None => prefix,
            }
        } else {
            prefix
        }
    }
}

/// The in-memory identity store: user rows, role assignments and the
/// role vocabulary. Its invariant keeps ids and phone pairs unique, so
/// in particular no two verified rows ever share a phone pair.
pub struct IdentityStore {
    pub users: Vec<User>,
    pub user_roles: Vec<(i32, i32)>,
    pub roles: Vec<(i32, String)>,
    pub next_id: i32,
}

impl IdentityStore {
    /// Well-formedness: ids are unique and below the allocation cursor,
    /// phone pairs are unique, and the role vocabulary has unique ids.
    pub open spec fn wf(self) -> bool {
        &&& distinct_ids(self.users@)
        &&& distinct_phones(self.users@)
        &&& forall|i: int|
            0 <= i < self.users@.len() ==> (#[trigger] self.users@[i]).id < self.next_id
        &&& distinct_role_ids(self.roles@)
    }

    /// An empty store.
    pub fn new() -> (r: IdentityStore)
        ensures
            r.wf(),
            r.users@.len() == 0,
            r.user_roles@.len() == 0,
            r.roles@.len() == 0,
            r.next_id == 1,
    {
        IdentityStore { users: Vec::new(), user_roles: Vec::new(), roles: Vec::new(), next_id: 1 }
    }

    /// Look a row up by its phone pair.
    pub fn find_by_phone(&self, code: i32, number: &str) -> (r: Option<User>)
        requires
            self.wf(),
        ensures
            r is Some <==> has_phone(self.users@, code, number@),
            r is Some ==> phone_matches(r->0, code, number@) && 0 <= phone_idx(
                self.users@,
                code,
                number@,
            ) < self.users@.len() && r->0 == self.users@[phone_idx(self.users@, code, number@)],
    {
        let n = self.users.len();
        let mut i: usize = 0;
        while i < n
            invariant
                self.wf(),
                n == self.users@.len(),
                i <= n,
                forall|j: int| 0 <= j < i ==> !phone_matches(#[trigger] self.users@[j], code, number@),
            decreases n - i,
        {
            let u = &self.users[i];
            if u.phone_number_code == code && str_eq(u.phone_number.as_str(), number) {
                proof {
                    assert(phone_matches(self.users@[i as int], code, number@));
                    let k = phone_idx(self.users@, code, number@);
                    assert(0 <= k < self.users@.len() && phone_matches(self.users@[k], code, number@));
                    assert(k == i);
                }
                return Some(u.duplicate());
            }
            i = i + 1;
        }
        proof {
            assert(forall|j: int|
                0 <= j < self.users@.len() ==> !phone_matches(#[trigger] self.users@[j], code, number@));
        }
        None
    }

    /// Look a row up by email; the first matching row wins.
    pub fn find_by_email(&self, email: &str) -> (r: Option<User>)
        requires
            self.wf(),
        ensures
            r is Some <==> has_email(self.users@, email@),
            r is Some ==> email_matches(r->0, email@) && 0 <= first_email_idx(
                self.users@,
                email@,
            ) < self.users@.len() && r->0 == self.users@[first_email_idx(self.users@, email@)],
    {
        let n = self.users.len();
        let mut i: usize = 0;
        while i < n
            invariant
                self.wf(),
                n == self.users@.len(),
                i <= n,
                forall|j: int| 0 <= j < i ==> !email_matches(#[trigger] self.users@[j], email@),
            decreases n - i,
        {
            let u = &self.users[i];
            let hit = match &u.email {
                Some(e) => str_eq(e.as_str(), email),
                None => false,
            };
            if hit {
                proof {
                    assert(email_matches(self.users@[i as int], email@));
                    let k = first_email_idx(self.users@, email@);
                    assert(0 <= k < self.users@.len() && email_matches(self.users@[k], email@)
                        && (forall|j: int| 0 <= j < k ==> !email_matches(#[trigger] self.users@[j], email@)));
                    assert(k == i);
                }
                return Some(u.duplicate());
            }
            i = i + 1;
        }
        None
    }

    /// Look a row up by its session token; the last matching row wins.
    pub fn find_by_token(&self, token: &str) -> (r: Option<User>)
        requires
            self.wf(),
        ensures
            r is Some <==> has_token(self.users@, token@),
            r is Some ==> token_matches(r->0, token@) && 0 <= last_token_idx(
                self.users@,
                token@,
            ) < self.users@.len() && r->0 == self.users@[last_token_idx(self.users@, token@)],
    {
        let n = self.users.len();
        let mut i: usize = n;
        while i > 0
            invariant
                self.wf(),
                n == self.users@.len(),
                i <= n,
                forall|j: int| i <= j < n ==> !token_matches(#[trigger] self.users@[j], token@),
            decreases i,
        {
            i = i - 1;
            let u = &self.users[i];
            let hit = match &u.token {
                Some(t) => str_eq(t.as_str(), token),
                None => false,
            };
            if hit {
                proof {
                    assert(token_matches(self.users@[i as int], token@));
                    let k = last_token_idx(self.users@, token@);
                    assert(0 <= k < self.users@.len() && token_matches(self.users@[k], token@)
                        && (forall|j: int|
                        k < j < self.users@.len() ==> !token_matches(#[trigger] self.users@[j], token@)));
                    assert(k == i);
                }
                return Some(u.duplicate());
            }
        }
        None
    }

    /// Insert a fresh, unverified row for this form, handing back its id.
    /// Fails only when the id space is exhausted.
    pub fn insert(&mut self, form: RegisterUserDto) -> (r: Result<i32, ()>)
        requires
            old(self).wf(),
            !has_phone(old(self).users@, form.phone_number_code, form.phone_number@),
        ensures
            final(self).wf(),
            r is Err <==> old(self).next_id == i32::MAX,
            r is Err ==> *final(self) == *old(self),
            r is Ok ==> r->Ok_0 == old(self).next_id && final(self).users@ == old(
                self,
            ).users@.push(fresh_row(form, old(self).next_id)) && final(self).next_id == old(
                self,
            ).next_id + 1 && final(self).user_roles == old(self).user_roles && final(self).roles
                == old(self).roles,
    {
        if self.next_id == i32::MAX {
            return Err(());
        }
        let id = self.next_id;
        let row = User {
            id: id,
            name: form.name,
            email: form.email,
            phone_number_code: form.phone_number_code,
            phone_number: form.phone_number,
            password: form.password,
            token: None,
            verified: false,
        };
        self.users.push(row);
        self.next_id = id + 1;
        proof {
            let s = self.users@;
            let olds = old(self).users@;
            assert forall|i: int, j: int|
                #![trigger s[i], s[j]]
                0 <= i < s.len() && 0 <= j < s.len() && i != j implies s[i].id != s[j].id && !(
            s[i].phone_number_code == s[j].phone_number_code && s[i].phone_number@
                == s[j].phone_number@) by {
                if i < s.len() - 1 && j < s.len() - 1 {
                    assert(s[i] == olds[i] && s[j] == olds[j]);
                } else if i == s.len() - 1 {
                    assert(s[j] == olds[j] && olds[j].id < id);
                } else {
                    assert(s[i] == olds[i] && olds[i].id < id);
                }
            }
        }
        Ok(id)
    }

    /// Complete a claimed row: rewrite the row carrying this id from the
    /// form. A missing id leaves the store untouched. The form's phone
    /// pair must not be held by any other row.
    pub fn update_from_form(&mut self, id: i32, form: RegisterUserDto)
        requires
            old(self).wf(),
            forall|j: int|
                0 <= j < old(self).users@.len() && (#[trigger] old(self).users@[j]).id != id
                    ==> !phone_matches(old(self).users@[j], form.phone_number_code, form.phone_number@),
        ensures
            final(self).wf(),
            !has_id(old(self).users@, id) ==> *final(self) == *old(self),
            has_id(old(self).users@, id) ==> final(self).users@ == old(self).users@.update(
                id_idx(old(self).users@, id),
                claim_update(old(self).users@[id_idx(old(self).users@, id)], form),
            ) && final(self).user_roles == old(self).user_roles && final(self).roles == old(
                self,
            ).roles && final(self).next_id == old(self).next_id,
    {
        let ghost form0 = form;
        let n = self.users.len();
        let mut i: usize = 0;
        while i < n
            invariant
                *self == *old(self),
                self.wf(),
                n == self.users@.len(),
                i <= n,
                form0 == form,
                forall|j: int|
                    0 <= j < old(self).users@.len() && (#[trigger] old(self).users@[j]).id != id
                        ==> !phone_matches(
                        old(self).users@[j],
                        form0.phone_number_code,
                        form0.phone_number@,
                    ),
                forall|j: int| 0 <= j < i ==> (#[trigger] self.users@[j]).id != id,
            decreases n - i,
        {
            if self.users[i].id == id {
                proof {
                    let k = id_idx(self.users@, id);
                    assert(self.users@[i as int].id == id);
                    assert(0 <= k < self.users@.len() && self.users@[k].id == id);
                    assert(k == i);
                }
                let old_row = self.users[i].duplicate();
                let new_row = User {
                    id: old_row.id,
                    name: form.name,
                    email: match form.email {
                        Some(e) => Some(e),
                        None => old_row.email,
                    },
                    phone_number_code: form.phone_number_code,
                    phone_number: form.phone_number,
                    password: match form.password {
                        Some(p) => Some(p),
                        None => old_row.password,
                    },
                    token: old_row.token,
                    verified: old_row.verified,
                };
                self.users[i] = new_row;
                proof {
                    let s = self.users@;
                    let olds = old(self).users@;
                    assert(s == olds.update(i as int, claim_update(olds[i as int], form)));
                    assert forall|p: int, q: int|
                        #![trigger s[p], s[q]]
                        0 <= p < s.len() && 0 <= q < s.len() && p != q implies s[p].id != s[q].id
                        && !(s[p].phone_number_code == s[q].phone_number_code && s[p].phone_number@
                        == s[q].phone_number@) by {
                        if p != i && q != i {
                            assert(s[p] == olds[p] && s[q] == olds[q]);
                            assert(olds[p].id != olds[q].id);
                            assert(!(olds[p].phone_number_code == olds[q].phone_number_code
                                && olds[p].phone_number@ == olds[q].phone_number@));
                        } else if p == i {
                            assert(s[q] == olds[q]);
                            assert(olds[q].id != olds[i as int].id);
                            assert((old(self).users@[q]).id != id);
                            assert(!phone_matches(old(self).users@[q], form.phone_number_code,
                                form.phone_number@));
                            assert(s[p].id == id && s[p].phone_number_code
                                == form.phone_number_code && s[p].phone_number@
                                == form.phone_number@);
                        } else {
                            assert(s[p] == olds[p]);
                            assert(olds[p].id != olds[i as int].id);
                            assert((old(self).users@[p]).id != id);
                            assert(!phone_matches(old(self).users@[p], form.phone_number_code,
                                form.phone_number@));
                            assert(s[q].id == id && s[q].phone_number_code
                                == form.phone_number_code && s[q].phone_number@
                                == form.phone_number@);
                        }
                    }
                }
                return ;
            }
            i = i + 1;
        }
    }

    /// Bind a token to the row carrying this id and mark it verified.
    /// A missing id leaves the store untouched.
    pub fn set_token_verified(&mut self, id: i32, token: String)
        requires
            old(self).wf(),
        ensures
            final(self).wf(),
            !has_id(old(self).users@, id) ==> *final(self) == *old(self),
            has_id(old(self).users@, id) ==> final(self).users@ == old(self).users@.update(
                id_idx(old(self).users@, id),
                with_token_verified(old(self).users@[id_idx(old(self).users@, id)], token),
            ) && final(self).user_roles == old(self).user_roles && final(self).roles == old(
                self,
            ).roles && final(self).next_id == old(self).next_id,
    {
        let n = self.users.len();
        let mut i: usize = 0;
        while i < n
            invariant
                *self == *old(self),
                self.wf(),
                n == self.users@.len(),
                i <= n,
                forall|j: int| 0 <= j < i ==> (#[trigger] self.users@[j]).id != id,
            decreases n - i,
        {
            if self.users[i].id == id {
                proof {
                    let k = id_idx(self.users@, id);
                    assert(self.users@[i as int].id == id);
                    assert(0 <= k < self.users@.len() && self.users@[k].id == id);
                    assert(k == i);
                }
                let old_row = self.users[i].duplicate();
                let new_row = User { token: Some(token), verified: true, ..old_row };
                self.users[i] = new_row;
                proof {
                    let s = self.users@;
                    let olds = old(self).users@;
                    assert forall|p: int, q: int|
                        #![trigger s[p], s[q]]
                        0 <= p < s.len() && 0 <= q < s.len() && p != q implies s[p].id != s[q].id
                        && !(s[p].phone_number_code == s[q].phone_number_code && s[p].phone_number@
                        == s[q].phone_number@) by {
                        assert(s[p].id == olds[p].id && s[p].phone_number_code
                            == olds[p].phone_number_code && s[p].phone_number@
                            == olds[p].phone_number@);
                        assert(s[q].id == olds[q].id && s[q].phone_number_code
                            == olds[q].phone_number_code && s[q].phone_number@
                            == olds[q].phone_number@);
                        assert(olds[p].id != olds[q].id);
                        assert(!(olds[p].phone_number_code == olds[q].phone_number_code
                            && olds[p].phone_number@ == olds[q].phone_number@));
                    }
                }
                return ;
            }
            i = i + 1;
        }
    }

    /// Bind a token to the row carrying this id, leaving its
    /// verification state alone. A missing id leaves the store untouched.
    pub fn set_token(&mut self, id: i32, token: String)
        requires
            old(self).wf(),
        ensures
            final(self).wf(),
            !has_id(old(self).users@, id) ==> *final(self) == *old(self),
            has_id(old(self).users@, id) ==> final(self).users@ == old(self).users@.update(
                id_idx(old(self).users@, id),
                with_token(old(self).users@[id_idx(old(self).users@, id)], token),
            ) && final(self).user_roles == old(self).user_roles && final(self).roles == old(
                self,
            ).roles && final(self).next_id == old(self).next_id,
    {
        let n = self.users.len();
        let mut i: usize = 0;
        while i < n
            invariant
                *self == *old(self),
                self.wf(),
                n == self.users@.len(),
                i <= n,
                forall|j: int| 0 <= j < i ==> (#[trigger] self.users@[j]).id != id,
            decreases n - i,
        {
            if self.users[i].id == id {
                proof {
                    let k = id_idx(self.users@, id);
                    assert(self.users@[i as int].id == id);
                    assert(0 <= k < self.users@.len() && self.users@[k].id == id);
                    assert(k == i);
                }
                let old_row = self.users[i].duplicate();
                let new_row = User { token: Some(token), ..old_row };
                self.users[i] = new_row;
                proof {
                    let s = self.users@;
                    let olds = old(self).users@;
                    assert forall|p: int, q: int|
                        #![trigger s[p], s[q]]
                        0 <= p < s.len() && 0 <= q < s.len() && p != q implies s[p].id != s[q].id
                        && !(s[p].phone_number_code == s[q].phone_number_code && s[p].phone_number@
                        == s[q].phone_number@) by {
                        assert(s[p].id == olds[p].id && s[p].phone_number_code
                            == olds[p].phone_number_code && s[p].phone_number@
                            == olds[p].phone_number@);
                        assert(s[q].id == olds[q].id && s[q].phone_number_code
                            == olds[q].phone_number_code && s[q].phone_number@
                            == olds[q].phone_number@);
                        assert(olds[p].id != olds[q].id);
                        assert(!(olds[p].phone_number_code == olds[q].phone_number_code
                            && olds[p].phone_number@ == olds[q].phone_number@));
                    }
                }
                return ;
            }
            i = i + 1;
        }
    }

    /// Record a role assignment for a user id.
    pub fn insert_role(&mut self, user_id: i32, role_id: i32)
        requires
            old(self).wf(),
        ensures
            final(self).wf(),
            final(self).user_roles@ == old(self).user_roles@.push((user_id, role_id)),
            final(self).users == old(self).users,
            final(self).roles == old(self).roles,
            final(self).next_id == old(self).next_id,
    {
        self.user_roles.push((user_id, role_id));
    }

    /// Add an entry to the role vocabulary.
    pub fn add_role(&mut self, id: i32, title: String)
        requires
            old(self).wf(),
            forall|i: int| 0 <= i < old(self).roles@.len() ==> (#[trigger] old(self).roles@[i]).0 != id,
        ensures
            final(self).wf(),
            final(self).roles@ == old(self).roles@.push((id, title)),
            final(self).users == old(self).users,
            final(self).user_roles == old(self).user_roles,
            final(self).next_id == old(self).next_id,
    {
        self.roles.push((id, title));
        proof {
            let s = self.roles@;
            let olds = old(self).roles@;
            assert forall|i: int, j: int|
                #![trigger s[i], s[j]]
                0 <= i < s.len() && 0 <= j < s.len() && i != j implies s[i].0 != s[j].0 by {
                if i < s.len() - 1 && j < s.len() - 1 {
                    assert(s[i] == olds[i] && s[j] == olds[j]);
                } else if i == s.len() - 1 {
                    assert(s[j] == olds[j]);
                } else {
                    assert(s[i] == olds[i]);
                }
            }
        }
    }

    /// The title the vocabulary gives a role id, if any.
    fn title_of(&self, rid: i32) -> (r: Option<String>)
        ensures
            match r {
                Some(t) => role_title(self.roles@, rid) == Some(t@),
                None => role_title(self.roles@, rid) is None,
            },
    {
        let n = self.roles.len();
        let mut i: usize = 0;
        proof {
            assert(self.roles@.skip(0) =~= self.roles@);
        }
        while i < n
            invariant
                n == self.roles@.len(),
                i <= n,
                role_title(self.roles@, rid) == role_title(self.roles@.skip(i as int), rid),
            decreases n - i,
        {
            let entry = &self.roles[i];
            proof {
                assert(self.roles@.skip(i as int)[0] == self.roles@[i as int]);
                assert(self.roles@.skip(i as int).skip(1) =~= self.roles@.skip(i as int + 1));
            }
            if entry.0 == rid {
                return Some(entry.1.clone());
            }
            i = i + 1;
        }
        proof {
            assert(self.roles@.skip(n as int) =~= Seq::<(i32, String)>::empty());
        }
        None
    }

    /// The titles of all roles assigned to a user, in assignment order.
    pub fn roles_for(&self, user_id: i32) -> (r: Vec<String>)
        ensures
            r.deep_view() == roles_of(self.user_roles@, self.roles@, user_id),
    {
        let n = self.user_roles.len();
        let mut out: Vec<String> = Vec::new();
        let mut i: usize = 0;
        while i < n
            invariant
                n == self.user_roles@.len(),
                i <= n,
                out.deep_view() == roles_of(
                    self.user_roles@.take(i as int),
                    self.roles@,
                    user_id,
                ),
            decreases n - i,
        {
            let asg = self.user_roles[i];
            proof {
                let t = self.user_roles@.take(i as int + 1);
                assert(t.drop_last() =~= self.user_roles@.take(i as int));
                assert(t.last() == self.user_roles@[i as int]);
            }
            if asg.0 == user_id {
                match self.title_of(asg.1) {
                    Some(title) => {
                        out.push(title);
                        proof {
                            assert(out.deep_view() =~= roles_of(
                                self.user_roles@.take(i as int + 1),
                                self.roles@,
                                user_id,
                            ));
                        }
                    },
                    None => {
                        proof {
                            assert(out.deep_view() =~= roles_of(
                                self.user_roles@.take(i as int + 1),
                                self.roles@,
                                user_id,
                            ));
                        }
                    },
                }
            } else {
                proof {
                    assert(out.deep_view() =~= roles_of(
                        self.user_roles@.take(i as int + 1),
                        self.roles@,
                        user_id,
                    ));
                }
            }
            i = i + 1;
        }
        proof {
            assert(self.user_roles@.take(n as int) =~= self.user_roles@);
        }
        out
    }
}

} // verus!
