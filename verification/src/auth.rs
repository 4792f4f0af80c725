//! The claims that identify a user towards the backend. Verifying a token is
//! left to a collaborator: a session receives a user that is already resolved.

use vstd::prelude::*;

verus! {

/// How long a token stays valid, in seconds: thirty days.
pub const TOKEN_LIFETIME: u64 = 60 * 60 * 24 * 30;

/// The claims of a token: the user it stands for, and the seconds since the
/// epoch at which it was issued and at which it expires.
#[derive(Debug, Clone, Copy, PartialEq, Eq, Structural)]
pub struct Claims {
    pub sub: usize,
    pub exp: u64,
    pub iat: u64,
}

impl Claims {
    /// The claims of a token issued to `user_id` at `now`. There are none
    /// where the expiry would lie beyond the range of the clock.
    pub fn issue(user_id: usize, now: u64) -> (r: Option<Claims>)
        ensures
            r is Some <==> now + TOKEN_LIFETIME <= u64::MAX,
            r matches Some(claims) ==> claims.sub == user_id && claims.iat == now && claims.exp
                == now + TOKEN_LIFETIME,
    {
        if now <= u64::MAX - TOKEN_LIFETIME {
            Some(Claims { sub: user_id, exp: now + TOKEN_LIFETIME, iat: now })
        } else {
            None
        }
    }
}

/// The token of a request: the bearer token of its authorization header, or
/// without such a header the `token` parameter of its query.
pub fn request_token(bearer: Option<String>, query: Option<String>) -> (r: Option<String>)
    ensures
        r == if bearer is Some {
            bearer
        } else {
            query
        },
{
    match bearer {
        Some(token) => Some(token),
        None => query,
    }
}

} // verus!
