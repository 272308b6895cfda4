//! The identity gate: from a decoded claim set to an authenticated caller.

use vstd::prelude::*;
use crate::error::ServiceError;

verus! {

/// The claims a verified identity token carries.
#[derive(Debug, Clone, PartialEq, Eq)]
pub struct Claims {
    pub uid: String,
    pub uname: String,
    /// Issued at, in seconds since the epoch.
    pub iat: i64,
    /// Expires at, in seconds since the epoch.
    pub exp: i64,
}

/// An authenticated caller.
#[derive(Debug, Clone, PartialEq, Eq)]
pub struct CheckUser {
    pub id: String,
    pub uname: String,
}

impl CheckUser {
    /// The caller that the claims name.
    pub fn from_claims(claims: Claims) -> (r: CheckUser)
        ensures
            r == (CheckUser { id: claims.uid, uname: claims.uname }),
    {
        CheckUser { id: claims.uid, uname: claims.uname }
    }
}

/// Whether claims are still valid at `now`.
pub open spec fn claims_valid(claims: Claims, now: i64) -> bool {
    now < claims.exp
}

/// Authenticates a request from the claims its token decoded to, if any:
/// no claims (a token absent, malformed or with a bad signature) and expired
/// claims both fail with `Unauthenticated`.
pub fn authenticate(claims: Option<Claims>, now: i64) -> (r: Result<CheckUser, ServiceError>)
    ensures
        match claims {
            Some(c) => if claims_valid(c, now) {
                r == Ok::<CheckUser, ServiceError>(CheckUser { id: c.uid, uname: c.uname })
            } else {
                r == Err::<CheckUser, ServiceError>(ServiceError::Unauthenticated)
            },
            None => r == Err::<CheckUser, ServiceError>(ServiceError::Unauthenticated),
        },
{
    match claims {
        Some(c) => {
            if now < c.exp {
                Ok(CheckUser::from_claims(c))
            } else {
                Err(ServiceError::Unauthenticated)
            }
        },
        None => Err(ServiceError::Unauthenticated),
    }
}

} // verus!
