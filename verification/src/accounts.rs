//! Registration, login, and user profile reads and updates.

use vstd::prelude::*;
use vstd::slice::slice_to_vec;
use vstd::string::StrSliceExecFns;

use crate::credentials::{hash_password, password_matches, verify_password};
use crate::errors::ApiError;
use crate::store::{
    emails_unique, has_email, has_token_hash, has_user, has_username, ids_well_formed,
    lemma_user_index_unique, lemma_username_index_unique, token_ids, user_at, user_ids,
    user_index, username_index, usernames_unique, Store, TokenRow, UserRow,
};
use crate::tokens::{generate_token, hash_token, is_alphanumeric_char, token_digest};

verus! {

/// A registration request as the client sends it.
pub struct RegisterRequest {
    pub username: String,
    pub email: String,
    pub password: String,
}

/// Whether registration succeeded.
pub struct RegisterResponse {
    pub success: bool,
}

/// A login request as the client sends it.
pub struct LoginRequest {
    pub username: String,
    pub password: String,
}

/// The fresh bearer token a successful login returns.
pub struct LoginResponse {
    pub token: String,
}

/// The authenticated caller's own profile.
pub struct UserResponse {
    pub id: i32,
    pub username: String,
    pub email: String,
    pub created_at: i64,
    pub has_profile_picture: bool,
}

/// A user's public profile.
pub struct PublicUserResponse {
    pub id: i32,
    pub username: String,
    pub created_at: i64,
    pub has_profile_picture: bool,
}

/// What validator's HTML5-style email check accepts. A pure function of the
/// string; the rules themselves are relied upon, not restated.
pub uninterp spec fn is_valid_email(s: Seq<char>) -> bool;

/// Relies on validator's `ValidateEmail::validate_email` for `&str`: the
/// HTML5 e-mail shape check, a deterministic function of the string.
#[verifier::external_body]
fn email_is_valid(s: &str) -> (r: bool)
    ensures
        r == is_valid_email(s@),
{
    validator::ValidateEmail::validate_email(&s)
}

/// The declared bounds on a login request: both fields between 1 and 128
/// characters.
pub open spec fn login_request_valid(r: LoginRequest) -> bool {
    &&& 1 <= r.username@.len() <= 128
    &&& 1 <= r.password@.len() <= 128
}

/// The declared bounds on a registration request: username and password
/// between 1 and 128 characters, e-mail well-shaped and at most 128.
pub open spec fn register_request_valid(r: RegisterRequest) -> bool {
    &&& 1 <= r.username@.len() <= 128
    &&& r.email@.len() <= 128
    &&& is_valid_email(r.email@)
    &&& 1 <= r.password@.len() <= 128
}

impl LoginRequest {
    /// Checks the declared bounds on the request.
    pub fn validate(&self) -> (b: bool)
        ensures
            b == login_request_valid(*self),
    {
        let ulen = self.username.as_str().unicode_len();
        let plen = self.password.as_str().unicode_len();
        1 <= ulen && ulen <= 128 && 1 <= plen && plen <= 128
    }
}

impl RegisterRequest {
    /// Checks the declared bounds on the request.
    pub fn validate(&self) -> (b: bool)
        ensures
            b == register_request_valid(*self),
    {
        let ulen = self.username.as_str().unicode_len();
        let elen = self.email.as_str().unicode_len();
        let plen = self.password.as_str().unicode_len();
        1 <= ulen && ulen <= 128 && elen <= 128 && email_is_valid(self.email.as_str()) && 1 <= plen
            && plen <= 128
    }
}

impl Store {
    /// Inserts a user row carrying an already-computed password hash.
    /// Succeeds exactly when both the username and the e-mail are still
    /// free; a taken one is a Conflict and changes nothing.
    pub fn register_with_hash(
        &mut self,
        username: String,
        email: String,
        password_hash: String,
        now: i64,
    ) -> (r: Result<i32, ApiError>)
        requires
            old(self).wf(),
            old(self).next_user_id < i32::MAX,
        ensures
            final(self).wf(),
            *final(self) == (Store {
                users: final(self).users,
                next_user_id: final(self).next_user_id,
                ..*old(self)
            }),
            match r {
                Ok(id) => {
                    &&& !has_username(old(self).users@, username@)
                    &&& !has_email(old(self).users@, email@)
                    &&& id == old(self).next_user_id
                    &&& final(self).users@ == old(self).users@.push(
                        UserRow {
                            id: old(self).next_user_id,
                            username: username,
                            email: email,
                            password: password_hash,
                            created_at: now,
                            profile_picture: None,
                        },
                    )
                    &&& final(self).next_user_id as int == old(self).next_user_id + 1
                },
                Err(e) => {
                    &&& e == ApiError::Conflict
                    &&& has_username(old(self).users@, username@) || has_email(
                        old(self).users@,
                        email@,
                    )
                    &&& *final(self) == *old(self)
                },
            },
    {
        if self.find_user_by_username(username.as_str()).is_some() {
            return Err(ApiError::Conflict);
        }
        let mut i: usize = 0;
        while i < self.users.len()
            invariant
                *self == *old(self),
                self.wf(),
                i <= self.users@.len(),
                forall|j: int| 0 <= j < i ==> (#[trigger] self.users@[j]).email@ != email@,
            decreases self.users@.len() - i,
        {
            if crate::store::str_eq(self.users[i].email.as_str(), email.as_str()) {
                return Err(ApiError::Conflict);
            }
            i += 1;
        }
        let row = UserRow {
            id: self.next_user_id,
            username,
            email,
            password: password_hash,
            created_at: now,
            profile_picture: None,
        };
        let id = self.next_user_id;
        self.users.push(row);
        self.next_user_id = self.next_user_id + 1;
        proof {
            assert(user_ids(self.users@) =~= user_ids(old(self).users@).push(id));
            assert(ids_well_formed(user_ids(self.users@), self.next_user_id));
        }
        Ok(id)
    }

    /// Registers a new principal: checks the request bounds, hashes the
    /// password with a fresh salt, and inserts the user. A request out of
    /// bounds — or a password the hasher refuses — is a BadRequest; a taken
    /// username or e-mail is a Conflict. Nothing changes on failure.
    pub fn register(&mut self, req: RegisterRequest, now: i64) -> (r: Result<
        RegisterResponse,
        ApiError,
    >)
        requires
            old(self).wf(),
            old(self).next_user_id < i32::MAX,
        ensures
            final(self).wf(),
            *final(self) == (Store {
                users: final(self).users,
                next_user_id: final(self).next_user_id,
                ..*old(self)
            }),
            !register_request_valid(req) ==> r == Err::<RegisterResponse, ApiError>(
                ApiError::BadRequest,
            ) && *final(self) == *old(self),
            match r {
                Ok(resp) => {
                    &&& resp.success
                    &&& register_request_valid(req)
                    &&& !has_username(old(self).users@, req.username@)
                    &&& !has_email(old(self).users@, req.email@)
                    &&& final(self).users@.len() == old(self).users@.len() + 1
                    &&& final(self).users@.drop_last() == old(self).users@
                    &&& ({
                        let u = final(self).users@.last();
                        &&& u.id == old(self).next_user_id
                        &&& u.username == req.username
                        &&& u.email == req.email
                        &&& u.created_at == now
                        &&& u.profile_picture is None
                        &&& password_matches(req.password@, u.password@)
                    })
                    &&& final(self).next_user_id as int == old(self).next_user_id + 1
                },
                Err(e) => {
                    &&& *final(self) == *old(self)
                    &&& e == ApiError::Conflict ==> register_request_valid(req) && (has_username(
                        old(self).users@,
                        req.username@,
                    ) || has_email(old(self).users@, req.email@))
                    &&& (e == ApiError::Conflict || e == ApiError::BadRequest)
                },
            },
    {
        if !req.validate() {
            return Err(ApiError::BadRequest);
        }
        let RegisterRequest { username, email, password } = req;
        match hash_password(password.as_str()) {
            None => Err(ApiError::BadRequest),
            Some(stored) => {
                match self.register_with_hash(username, email, stored, now) {
                    Ok(_) => Ok(RegisterResponse { success: true }),
                    Err(e) => Err(e),
                }
            },
        }
    }

    /// Logs a user in with a caller-supplied token value: verifies the
    /// credentials, then persists the token's digest bound to the user.
    /// Unknown username or wrong password is Unauthorized; a token whose
    /// digest is already taken is a Conflict. Nothing changes on failure.
    pub fn login_with_token(&mut self, username: &str, password: &str, token: String, now: i64)
        -> (r: Result<LoginResponse, ApiError>)
        requires
            old(self).wf(),
            old(self).next_token_id < i32::MAX,
        ensures
            final(self).wf(),
            *final(self) == (Store {
                tokens: final(self).tokens,
                next_token_id: final(self).next_token_id,
                ..*old(self)
            }),
            match r {
                Ok(resp) => {
                    &&& has_username(old(self).users@, username@)
                    &&& password_matches(
                        password@,
                        old(self).users@[username_index(old(self).users@, username@)].password@,
                    )
                    &&& !has_token_hash(old(self).tokens@, token_digest(token@))
                    &&& resp.token == token
                    &&& final(self).tokens@.len() == old(self).tokens@.len() + 1
                    &&& final(self).tokens@.drop_last() == old(self).tokens@
                    &&& ({
                        let t = final(self).tokens@.last();
                        &&& t.id == old(self).next_token_id
                        &&& t.user_id == old(self).users@[username_index(
                            old(self).users@,
                            username@,
                        )].id
                        &&& t.token_hash@ == token_digest(token@)
                        &&& t.created_at == now
                    })
                    &&& final(self).next_token_id as int == old(self).next_token_id + 1
                },
                Err(e) => {
                    &&& *final(self) == *old(self)
                    &&& (e == ApiError::Unauthorized <==> (!has_username(
                        old(self).users@,
                        username@,
                    ) || !password_matches(
                        password@,
                        old(self).users@[username_index(old(self).users@, username@)].password@,
                    )))
                    &&& (e == ApiError::Conflict ==> has_token_hash(
                        old(self).tokens@,
                        token_digest(token@),
                    ))
                    &&& (e == ApiError::Unauthorized || e == ApiError::Conflict)
                },
            },
    {
        let user_idx = match self.find_user_by_username(username) {
            None => {
                return Err(ApiError::Unauthorized);
            },
            Some(i) => i,
        };
        proof {
            lemma_username_index_unique(self.users@, username@, user_idx as int);
        }
        if !verify_password(password, self.users[user_idx].password.as_str()) {
            return Err(ApiError::Unauthorized);
        }
        let user_id = self.users[user_idx].id;
        let hashed = hash_token(token.as_str());
        if self.find_token_by_hash(hashed.as_str()).is_some() {
            return Err(ApiError::Conflict);
        }
        let row = TokenRow {
            id: self.next_token_id,
            user_id,
            token_hash: hashed,
            created_at: now,
        };
        let ghost row_id = row.id;
        self.tokens.push(row);
        self.next_token_id = self.next_token_id + 1;
        proof {
            assert(token_ids(self.tokens@) =~= token_ids(old(self).tokens@).push(row_id));
            assert(ids_well_formed(token_ids(self.tokens@), self.next_token_id));
            assert(self.tokens@.drop_last() =~= old(self).tokens@);
        }
        Ok(LoginResponse { token })
    }

    /// Logs a user in: checks the request bounds, verifies the credentials,
    /// generates a fresh 64-character token, and persists its digest. The
    /// plaintext token is returned to the caller and never stored.
    pub fn login(&mut self, req: &LoginRequest, now: i64) -> (r: Result<LoginResponse, ApiError>)
        requires
            old(self).wf(),
            old(self).next_token_id < i32::MAX,
        ensures
            final(self).wf(),
            *final(self) == (Store {
                tokens: final(self).tokens,
                next_token_id: final(self).next_token_id,
                ..*old(self)
            }),
            !login_request_valid(*req) ==> r == Err::<LoginResponse, ApiError>(
                ApiError::BadRequest,
            ) && *final(self) == *old(self),
            match r {
                Ok(resp) => {
                    &&& has_username(old(self).users@, req.username@)
                    &&& password_matches(
                        req.password@,
                        old(self).users@[username_index(
                            old(self).users@,
                            req.username@,
                        )].password@,
                    )
                    &&& resp.token@.len() == 64
                    &&& forall|i: int|
                        0 <= i < 64 ==> is_alphanumeric_char(#[trigger] resp.token@[i])
                    &&& final(self).tokens@.len() == old(self).tokens@.len() + 1
                    &&& final(self).tokens@.drop_last() == old(self).tokens@
                    &&& ({
                        let t = final(self).tokens@.last();
                        &&& t.id == old(self).next_token_id
                        &&& t.user_id == old(self).users@[username_index(
                            old(self).users@,
                            req.username@,
                        )].id
                        &&& t.token_hash@ == token_digest(resp.token@)
                        &&& t.created_at == now
                    })
                    &&& final(self).next_token_id as int == old(self).next_token_id + 1
                },
                Err(e) => {
                    &&& *final(self) == *old(self)
                    &&& (e == ApiError::BadRequest <==> !login_request_valid(*req))
                    &&& (e == ApiError::Unauthorized <==> (login_request_valid(*req) && (
                    !has_username(old(self).users@, req.username@) || !password_matches(
                        req.password@,
                        old(self).users@[username_index(
                            old(self).users@,
                            req.username@,
                        )].password@,
                    ))))
                    &&& (e == ApiError::Unauthorized || e == ApiError::Conflict || e
                        == ApiError::BadRequest)
                },
            },
    {
        if !req.validate() {
            return Err(ApiError::BadRequest);
        }
        let token = generate_token();
        self.login_with_token(req.username.as_str(), req.password.as_str(), token, now)
    }

    /// The authenticated caller's own profile; NotFound when no user has
    /// this id.
    pub fn get_current_user(&self, user_id: i32) -> (r: Result<UserResponse, ApiError>)
        requires
            self.wf(),
        ensures
            match r {
                Ok(u) => {
                    &&& has_user(self.users@, user_id)
                    &&& ({
                        let row = user_at(self.users@, user_id);
                        &&& u.id == row.id
                        &&& u.username == row.username
                        &&& u.email == row.email
                        &&& u.created_at == row.created_at
                        &&& u.has_profile_picture == (row.profile_picture is Some)
                    })
                },
                Err(e) => e == ApiError::NotFound && !has_user(self.users@, user_id),
            },
    {
        match self.find_user(user_id) {
            None => Err(ApiError::NotFound),
            Some(i) => {
                proof {
                    lemma_user_index_unique(self.users@, self.next_user_id, user_id, i as int);
                }
                let row = &self.users[i];
                Ok(UserResponse {
                    id: row.id,
                    username: row.username.clone(),
                    email: row.email.clone(),
                    created_at: row.created_at,
                    has_profile_picture: row.profile_picture.is_some(),
                })
            },
        }
    }

    /// A user's public profile; NotFound when no user has this id.
    pub fn get_user(&self, user_id: i32) -> (r: Result<PublicUserResponse, ApiError>)
        requires
            self.wf(),
        ensures
            match r {
                Ok(u) => {
                    &&& has_user(self.users@, user_id)
                    &&& ({
                        let row = user_at(self.users@, user_id);
                        &&& u.id == row.id
                        &&& u.username == row.username
                        &&& u.created_at == row.created_at
                        &&& u.has_profile_picture == (row.profile_picture is Some)
                    })
                },
                Err(e) => e == ApiError::NotFound && !has_user(self.users@, user_id),
            },
    {
        match self.find_user(user_id) {
            None => Err(ApiError::NotFound),
            Some(i) => {
                proof {
                    lemma_user_index_unique(self.users@, self.next_user_id, user_id, i as int);
                }
                let row = &self.users[i];
                Ok(PublicUserResponse {
                    id: row.id,
                    username: row.username.clone(),
                    created_at: row.created_at,
                    has_profile_picture: row.profile_picture.is_some(),
                })
            },
        }
    }

    /// A user's profile picture bytes; NotFound when the user does not exist
    /// or has none.
    pub fn get_user_profile_picture(&self, user_id: i32) -> (r: Result<Vec<u8>, ApiError>)
        requires
            self.wf(),
        ensures
            match r {
                Ok(bytes) => {
                    &&& has_user(self.users@, user_id)
                    &&& user_at(self.users@, user_id).profile_picture is Some
                    &&& bytes@ == user_at(self.users@, user_id).profile_picture.unwrap()@
                },
                Err(e) => e == ApiError::NotFound && (!has_user(self.users@, user_id) || user_at(
                    self.users@,
                    user_id,
                ).profile_picture is None),
            },
    {
        match self.find_user(user_id) {
            None => Err(ApiError::NotFound),
            Some(i) => {
                proof {
                    lemma_user_index_unique(self.users@, self.next_user_id, user_id, i as int);
                }
                match &self.users[i].profile_picture {
                    Some(p) => Ok(slice_to_vec(p.as_slice())),
                    None => Err(ApiError::NotFound),
                }
            },
        }
    }
}

/// The byte budget for a profile picture.
pub const MAX_AVATAR_BYTES: usize = 2 * 1024 * 1024;

/// A user row with its profile picture replaced.
pub open spec fn with_picture(u: UserRow, data: Vec<u8>) -> UserRow {
    UserRow { profile_picture: Some(data), ..u }
}

impl Store {
    /// Replaces a user's own profile picture. Changing another user's is
    /// Forbidden; an oversized image is a BadRequest; an unknown user is
    /// NotFound — checked in that order, and nothing changes on failure.
    pub fn set_user_profile_picture(&mut self, actor: i32, target: i32, data: Vec<u8>) -> (r:
        Result<(), ApiError>)
        requires
            old(self).wf(),
        ensures
            final(self).wf(),
            *final(self) == (Store { users: final(self).users, ..*old(self) }),
            match r {
                Ok(_) => {
                    &&& actor == target
                    &&& data@.len() <= MAX_AVATAR_BYTES
                    &&& has_user(old(self).users@, target)
                    &&& final(self).users@ == old(self).users@.update(
                        user_index(old(self).users@, target),
                        with_picture(user_at(old(self).users@, target), data),
                    )
                },
                Err(e) => {
                    &&& *final(self) == *old(self)
                    &&& (e == ApiError::Forbidden <==> actor != target)
                    &&& (e == ApiError::BadRequest <==> actor == target && data@.len()
                        > MAX_AVATAR_BYTES)
                    &&& (e == ApiError::NotFound <==> actor == target && data@.len()
                        <= MAX_AVATAR_BYTES && !has_user(old(self).users@, target))
                },
            },
    {
        if actor != target {
            return Err(ApiError::Forbidden);
        }
        if data.len() > MAX_AVATAR_BYTES {
            return Err(ApiError::BadRequest);
        }
        let i = match self.find_user(target) {
            None => {
                return Err(ApiError::NotFound);
            },
            Some(i) => i,
        };
        proof {
            lemma_user_index_unique(self.users@, self.next_user_id, target, i as int);
        }
        let row = self.users.remove(i);
        let updated = UserRow {
            id: row.id,
            username: row.username,
            email: row.email,
            password: row.password,
            created_at: row.created_at,
            profile_picture: Some(data),
        };
        self.users.insert(i, updated);
        proof {
            assert(self.users@ =~= old(self).users@.update(
                user_index(old(self).users@, target),
                with_picture(user_at(old(self).users@, target), data),
            ));
            assert(user_ids(self.users@) =~= user_ids(old(self).users@));
            assert(usernames_unique(self.users@)) by {
                assert forall|a: int, b: int|
                    0 <= a < b < self.users@.len() implies self.users@[a].username@
                    != self.users@[b].username@ by {
                    assert(self.users@[a].username@ == old(self).users@[a].username@);
                    assert(self.users@[b].username@ == old(self).users@[b].username@);
                };
            };
            assert(emails_unique(self.users@)) by {
                assert forall|a: int, b: int|
                    0 <= a < b < self.users@.len() implies self.users@[a].email@
                    != self.users@[b].email@ by {
                    assert(self.users@[a].email@ == old(self).users@[a].email@);
                    assert(self.users@[b].email@ == old(self).users@[b].email@);
                };
            };
        }
        Ok(())
    }
}

} // verus!
