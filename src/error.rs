use vstd::prelude::*;

verus! {

/// Every failure that the library reports to its caller.
#[derive(Debug, Clone, Copy, PartialEq, Eq, Structural)]
pub enum RcliError {
    /// Key bytes do not have the length that the scheme requires, or do not form a key.
    KeyFormat,
    /// Text that should be base64 (or claims that should be JSON) is malformed.
    Encoding,
    /// A token does not consist of exactly three '.'-separated segments.
    TokenFormat,
    /// The token claims to be issued in the future.
    InvalidIat,
    /// The token has expired.
    InvalidExp,
    /// The token is not valid yet.
    InvalidNbf,
    /// A name that does not denote a known format or algorithm.
    UnknownName,
}

/// The description of each failure.
pub open spec fn error_message(e: RcliError) -> Seq<char> {
    match e {
        RcliError::KeyFormat => "invalid key length"@,
        RcliError::Encoding => "invalid encoding"@,
        RcliError::TokenFormat => "invalid token"@,
        RcliError::InvalidIat => "invalid iat"@,
        RcliError::InvalidExp => "invalid exp"@,
        RcliError::InvalidNbf => "invalid nbf"@,
        RcliError::UnknownName => "invalid format"@,
    }
}

impl RcliError {
    /// A human-readable description of the failure.
    pub fn message(&self) -> (r: &'static str)
        ensures
            r@ == error_message(*self),
    {
        match self {
            RcliError::KeyFormat => "invalid key length",
            RcliError::Encoding => "invalid encoding",
            RcliError::TokenFormat => "invalid token",
            RcliError::InvalidIat => "invalid iat",
            RcliError::InvalidExp => "invalid exp",
            RcliError::InvalidNbf => "invalid nbf",
            RcliError::UnknownName => "invalid format",
        }
    }
}

} // verus!
