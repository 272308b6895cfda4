use vstd::prelude::*;

verus! {

/// The failures an operation of the engine reports; none is retried here.
#[derive(Debug, Clone, Copy, PartialEq, Eq, Structural)]
pub enum ServiceError {
    /// A referenced entity is missing.
    NotFound,
    /// The caller does not own what it tries to change.
    Unauthorized,
    /// The request carries no valid identity claim.
    Unauthenticated,
    /// A rut already holds the most items, or a user stars the most tags.
    CapacityExceeded,
    /// An input failed validation.
    BadInput,
    /// The store refused a write (a key taken twice, a counter out of range).
    StoreError,
}

impl ServiceError {
    /// The HTTP status that a response for this error carries.
    pub fn status(&self) -> (r: u16)
        ensures
            r == match *self {
                ServiceError::NotFound => 404u16,
                ServiceError::Unauthorized => 403u16,
                ServiceError::Unauthenticated => 401u16,
                ServiceError::CapacityExceeded => 418u16,
                ServiceError::BadInput => 400u16,
                ServiceError::StoreError => 500u16,
            },
    {
        match self {
            ServiceError::NotFound => 404,
            ServiceError::Unauthorized => 403,
            ServiceError::Unauthenticated => 401,
            ServiceError::CapacityExceeded => 418,
            ServiceError::BadInput => 400,
            ServiceError::StoreError => 500,
        }
    }
}

} // verus!
