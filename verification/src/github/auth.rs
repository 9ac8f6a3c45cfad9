//! Bearer-token handling for the pull-request REST call.

use vstd::prelude::*;
use vstd::string::StrSliceExecFns;

use crate::strutil::str_concat;

use super::types::GitHubError;

verus! {

/// A bearer token for the REST endpoint.
pub struct GitHubAuth {
    token: String,
}

impl GitHubAuth {
    /// The token's characters.
    pub closed spec fn token_spec(&self) -> Seq<char> {
        self.token@
    }

    /// Wraps a token.
    pub fn new(token: String) -> (r: Self)
        ensures
            r.token_spec() == token@,
    {
        GitHubAuth { token }
    }

    /// The token itself.
    pub fn token(&self) -> (r: &str)
        ensures
            r@ == self.token_spec(),
    {
        self.token.as_str()
    }

    /// The value of an `Authorization` header carrying the token.
    pub fn get_auth_header(&self) -> (r: String)
        ensures
            r@ == "Bearer "@ + self.token_spec(),
    {
        str_concat("Bearer ", self.token.as_str())
    }

    /// A token must be present: rejects an empty one.
    pub fn validate_token(&self) -> (r: Result<(), GitHubError>)
        ensures
            r is Ok <==> self.token_spec().len() > 0,
            r is Err ==> r == Err::<(), GitHubError>(GitHubError::AuthError),
    {
        if self.token.as_str().unicode_len() == 0 {
            Err(GitHubError::AuthError)
        } else {
            Ok(())
        }
    }
}

} // verus!
