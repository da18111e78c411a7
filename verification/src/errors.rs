//! The service's error taxonomy.
//!
//! Validation failures are `InvalidInput`; a second record for an already
//! registered e-mail is `Conflict`; an update or delete of an e-mail with no
//! record is `NotFound`. The remaining variants stand for failures of the
//! storage boundary and carry no detail outward: their messages are fixed,
//! so no raw storage error text ever reaches a response body.

use vstd::prelude::*;

verus! {

/// One tagged error per failure class of the four record operations.
#[derive(Clone, Copy, Debug, PartialEq, Eq, Structural)]
pub enum KycError {
    /// A malformed e-mail address or an empty required field.
    InvalidInput,
    /// The e-mail is already registered; exactly one record per e-mail is kept.
    Conflict,
    /// No record exists for the given e-mail.
    NotFound,
    /// No connection could be drawn from the pool.
    PoolExhausted,
    /// The storage connection failed.
    ConnectionError,
    /// Any other storage failure, reported without detail.
    Internal,
}

/// The sanitized message of each error.
pub open spec fn error_message_of(e: KycError) -> Seq<char> {
    match e {
        KycError::InvalidInput => "Invalid input: malformed e-mail or empty required field"@,
        KycError::Conflict => "E-mail already registered"@,
        KycError::NotFound => "KYC n\u{e3}o encontrado"@,
        KycError::PoolExhausted => "Connection pool exhausted"@,
        KycError::ConnectionError => "Database connection error"@,
        KycError::Internal => "Internal server error"@,
    }
}

/// The HTTP status code each error maps to: invalid input is a bad request,
/// a duplicate e-mail a conflict, a missing record not-found, and every
/// storage failure an internal server error.
pub open spec fn http_status_of(e: KycError) -> u16 {
    match e {
        KycError::InvalidInput => 400,
        KycError::Conflict => 409,
        KycError::NotFound => 404,
        KycError::PoolExhausted => 500,
        KycError::ConnectionError => 500,
        KycError::Internal => 500,
    }
}

impl KycError {
    /// The status code of the HTTP response that reports this error.
    pub fn http_status(&self) -> (s: u16)
        ensures
            s == http_status_of(*self),
    {
        match self {
            KycError::InvalidInput => 400,
            KycError::Conflict => 409,
            KycError::NotFound => 404,
            KycError::PoolExhausted => 500,
            KycError::ConnectionError => 500,
            KycError::Internal => 500,
        }
    }

    /// The sanitized message placed in an error response body.
    pub fn message(&self) -> (m: String)
        ensures
            m@ == error_message_of(*self),
    {
        match self {
            KycError::InvalidInput => String::from_str(
                "Invalid input: malformed e-mail or empty required field",
            ),
            KycError::Conflict => String::from_str("E-mail already registered"),
            KycError::NotFound => String::from_str("KYC n\u{e3}o encontrado"),
            KycError::PoolExhausted => String::from_str("Connection pool exhausted"),
            KycError::ConnectionError => String::from_str("Database connection error"),
            KycError::Internal => String::from_str("Internal server error"),
        }
    }
}

} // verus!
