//! The auth gate: resolves a bearer token to a principal, per request.

use vstd::prelude::*;

use crate::errors::ApiError;
use crate::store::{has_token_hash, has_user, lemma_token_hash_index_unique, token_at, Store};
use crate::tokens::{hash_token, token_digest};

verus! {

/// The body served with a 401, as the middleware writes it.
pub struct UnauthorizedError {
    pub error: String,
}

/// What UTF-8 decoding yields for a byte string: nothing when the bytes are
/// not valid UTF-8, else the decoded characters. A pure function of the
/// bytes.
pub uninterp spec fn utf8_decoded(b: Seq<u8>) -> Option<Seq<char>>;

/// Relies on std's `str::from_utf8`: the bytes as a string exactly when they
/// are valid UTF-8.
#[verifier::external_body]
fn bytes_as_str(b: &[u8]) -> (r: Option<&str>)
    ensures
        match r {
            Some(s) => utf8_decoded(b@) == Some(s@),
            None => utf8_decoded(b@) is None,
        },
{
    core::str::from_utf8(b).ok()
}

/// The outcome of a successful authentication: the resolved user and the
/// token record the request presented.
pub struct Principal {
    pub user_id: i32,
    pub token_id: i32,
}

impl Store {
    /// Resolves the Authorization header to a principal: the header must be
    /// present, its digest must match a stored token record, and that
    /// record's user must exist; anything else is Unauthorized. No state is
    /// touched: authentication only reads.
    pub fn authenticate(&self, auth_header: Option<&str>) -> (r: Result<Principal, ApiError>)
        requires
            self.wf(),
        ensures
            match r {
                Ok(p) => {
                    &&& auth_header is Some
                    &&& has_token_hash(self.tokens@, token_digest(auth_header.unwrap()@))
                    &&& ({
                        let t = token_at(self.tokens@, token_digest(auth_header.unwrap()@));
                        &&& p.token_id == t.id
                        &&& has_user(self.users@, t.user_id)
                        &&& p.user_id == t.user_id
                    })
                },
                Err(e) => {
                    &&& e == ApiError::Unauthorized
                    &&& match auth_header {
                        None => true,
                        Some(h) => !has_token_hash(self.tokens@, token_digest(h@)) || !has_user(
                            self.users@,
                            token_at(self.tokens@, token_digest(h@)).user_id,
                        ),
                    }
                },
            },
    {
        let header = match auth_header {
            None => {
                return Err(ApiError::Unauthorized);
            },
            Some(h) => h,
        };
        let digest = hash_token(header);
        let t = match self.find_token_by_hash(digest.as_str()) {
            None => {
                return Err(ApiError::Unauthorized);
            },
            Some(i) => {
                proof {
                    lemma_token_hash_index_unique(self.tokens@, digest@, i as int);
                }
                &self.tokens[i]
            },
        };
        match self.find_user(t.user_id) {
            None => Err(ApiError::Unauthorized),
            Some(_) => Ok(Principal { user_id: t.user_id, token_id: t.id }),
        }
    }

    /// The auth gate over the raw header bytes: a header that is absent or
    /// not parseable as a string is Unauthorized; otherwise the string is
    /// resolved as `authenticate` does.
    pub fn authenticate_header(&self, raw_header: Option<&[u8]>) -> (r: Result<
        Principal,
        ApiError,
    >)
        requires
            self.wf(),
        ensures
            match raw_header {
                None => r == Err::<Principal, ApiError>(ApiError::Unauthorized),
                Some(b) => match utf8_decoded(b@) {
                    None => r == Err::<Principal, ApiError>(ApiError::Unauthorized),
                    Some(h) => match r {
                        Ok(p) => {
                            &&& has_token_hash(self.tokens@, token_digest(h))
                            &&& ({
                                let t = token_at(self.tokens@, token_digest(h));
                                &&& p.token_id == t.id
                                &&& has_user(self.users@, t.user_id)
                                &&& p.user_id == t.user_id
                            })
                        },
                        Err(e) => {
                            &&& e == ApiError::Unauthorized
                            &&& (!has_token_hash(self.tokens@, token_digest(h)) || !has_user(
                                self.users@,
                                token_at(self.tokens@, token_digest(h)).user_id,
                            ))
                        },
                    },
                },
            },
    {
        let bytes = match raw_header {
            None => {
                return Err(ApiError::Unauthorized);
            },
            Some(b) => b,
        };
        match bytes_as_str(bytes) {
            None => Err(ApiError::Unauthorized),
            Some(h) => self.authenticate(Some(h)),
        }
    }
}

} // verus!
