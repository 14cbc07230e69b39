//! Failures that the library reports, each with a stable status and message.

use vstd::prelude::*;

verus! {

/// The family a failure belongs to.
#[derive(Clone, Copy, Debug, PartialEq, Eq, Structural)]
pub enum ErrorKind {
    /// The underlying store could not read or write.
    StorageFailure,
    /// Bytes and record did not fit each other.
    SerializationFailure,
    /// The requested key is absent.
    NotFound,
    /// No valid token where one is required.
    Unauthenticated,
    /// A valid identity that is not allowed to act.
    Forbidden,
    /// A transaction lost a race against another one.
    Conflict,
    /// A key or payload breaks a domain constraint.
    InvalidInput,
}

/// Every failure a record operation, an authorization check or a token check
/// can end in.
#[derive(Clone, Copy, Debug, PartialEq, Eq, Structural)]
pub enum ApiError {
    /// Reading a key from the store failed.
    FetchFailed,
    /// Writing a key to the store failed.
    InsertFailed,
    /// Deleting a key from the store failed.
    RemoveFailed,
    /// The store could not commit what a transaction had staged.
    CommitFailed,
    /// Stored bytes do not decode to a record of the expected kind.
    DeserializeFailed,
    /// A record could not be encoded.
    SerializeFailed,
    /// The key holds no record.
    NotFound,
    /// The request carries no valid token.
    LoginRequired,
    /// The account is banned.
    InactiveUser,
    /// The caller is neither the owner of the resource nor an administrator.
    AccessDenied,
    /// The caller is not an administrator.
    AdminRequired,
    /// The store gave up a read or write of a transaction to another
    /// transaction.
    Conflict,
    /// The topic name is empty or too long.
    InvalidTopic,
    /// The tag is empty or too long, or its count cannot grow any further.
    InvalidTag,
    /// The request names no user id that can be read.
    InvalidUid,
}

impl ApiError {
    /// The family of this failure.
    pub open spec fn spec_kind(self) -> ErrorKind {
        match self {
            ApiError::FetchFailed
            | ApiError::InsertFailed
            | ApiError::RemoveFailed
            | ApiError::CommitFailed => ErrorKind::StorageFailure,
            ApiError::DeserializeFailed | ApiError::SerializeFailed =>
                ErrorKind::SerializationFailure,
            ApiError::NotFound => ErrorKind::NotFound,
            ApiError::LoginRequired => ErrorKind::Unauthenticated,
            ApiError::InactiveUser | ApiError::AccessDenied | ApiError::AdminRequired =>
                ErrorKind::Forbidden,
            ApiError::Conflict => ErrorKind::Conflict,
            ApiError::InvalidTopic | ApiError::InvalidTag | ApiError::InvalidUid =>
                ErrorKind::InvalidInput,
        }
    }

    /// The status code shown at the boundary for a family of failures.
    pub open spec fn spec_status(self) -> u16 {
        match self.spec_kind() {
            ErrorKind::StorageFailure => 500,
            ErrorKind::SerializationFailure => 500,
            ErrorKind::NotFound => 404,
            ErrorKind::Unauthenticated => 401,
            ErrorKind::Forbidden => 403,
            ErrorKind::Conflict => 409,
            ErrorKind::InvalidInput => 400,
        }
    }

    /// The short text shown at the boundary.
    pub open spec fn spec_message(self) -> Seq<char> {
        match self {
            ApiError::FetchFailed => "Fetch data failed"@,
            ApiError::InsertFailed => "Insert data failed"@,
            ApiError::RemoveFailed => "Remove data failed"@,
            ApiError::CommitFailed => "Commit failed"@,
            ApiError::DeserializeFailed => "Deserialize failed"@,
            ApiError::SerializeFailed => "Serialize failed"@,
            ApiError::NotFound => "Not found"@,
            ApiError::LoginRequired => "Login required"@,
            ApiError::InactiveUser => "Attempted to request an invalid user"@,
            ApiError::AccessDenied => "Access to the resource is denied"@,
            ApiError::AdminRequired => "Administrator access required"@,
            ApiError::Conflict => "Transaction conflict"@,
            ApiError::InvalidTopic => "Topic is invalid"@,
            ApiError::InvalidTag => "Tag is invalid"@,
            ApiError::InvalidUid => "Invalid uid"@,
        }
    }

    /// Whether a read or a write failed inside a transaction: the failures
    /// that the store decides, whatever it holds.
    pub open spec fn is_access_fault(self) -> bool {
        self == ApiError::FetchFailed || self == ApiError::InsertFailed || self
            == ApiError::RemoveFailed || self == ApiError::Conflict
    }

    /// The family of this failure.
    pub fn kind(self) -> (k: ErrorKind)
        ensures
            k == self.spec_kind(),
    {
        match self {
            ApiError::FetchFailed
            | ApiError::InsertFailed
            | ApiError::RemoveFailed
            | ApiError::CommitFailed => ErrorKind::StorageFailure,
            ApiError::DeserializeFailed | ApiError::SerializeFailed =>
                ErrorKind::SerializationFailure,
            ApiError::NotFound => ErrorKind::NotFound,
            ApiError::LoginRequired => ErrorKind::Unauthenticated,
            ApiError::InactiveUser | ApiError::AccessDenied | ApiError::AdminRequired =>
                ErrorKind::Forbidden,
            ApiError::Conflict => ErrorKind::Conflict,
            ApiError::InvalidTopic | ApiError::InvalidTag | ApiError::InvalidUid =>
                ErrorKind::InvalidInput,
        }
    }

    /// The status code shown at the boundary.
    pub fn status(self) -> (code: u16)
        ensures
            code == self.spec_status(),
    {
        match self.kind() {
            ErrorKind::StorageFailure => 500,
            ErrorKind::SerializationFailure => 500,
            ErrorKind::NotFound => 404,
            ErrorKind::Unauthenticated => 401,
            ErrorKind::Forbidden => 403,
            ErrorKind::Conflict => 409,
            ErrorKind::InvalidInput => 400,
        }
    }

    /// The short text shown at the boundary.
    pub fn message(self) -> (text: &'static str)
        ensures
            text@ == self.spec_message(),
    {
        match self {
            ApiError::FetchFailed => "Fetch data failed",
            ApiError::InsertFailed => "Insert data failed",
            ApiError::RemoveFailed => "Remove data failed",
            ApiError::CommitFailed => "Commit failed",
            ApiError::DeserializeFailed => "Deserialize failed",
            ApiError::SerializeFailed => "Serialize failed",
            ApiError::NotFound => "Not found",
            ApiError::LoginRequired => "Login required",
            ApiError::InactiveUser => "Attempted to request an invalid user",
            ApiError::AccessDenied => "Access to the resource is denied",
            ApiError::AdminRequired => "Administrator access required",
            ApiError::Conflict => "Transaction conflict",
            ApiError::InvalidTopic => "Topic is invalid",
            ApiError::InvalidTag => "Tag is invalid",
            ApiError::InvalidUid => "Invalid uid",
        }
    }
}

} // verus!
