//! Errors that the library's rules return, each with the kind of failure
//! callers map to a response.

use vstd::prelude::*;

verus! {

/// What kind of failure an error reports.
#[derive(Debug, PartialEq, Eq, Structural, Clone, Copy)]
pub enum ErrorType {
    BadRequest,
    PermissionDenied,
    Permission,
    OwnMembership,
    RootMemberProtected,
    UserEmailEmpty,
    UserNameRequired,
    SiteMemberExists,
    EmailSend,
    EmptyPassword,
    PasswordTokenInvalid,
    PasswordTokenUsed,
    PasswordTokenExpired,
    UserWrongType,
    DatabaseQuery,
    DatabaseImport,
    Render,
    Request,
    User,
    Page,
    Job,
    NotLatestRevisionId,
}

/// An error: its kind and a message for the caller.
#[derive(Debug)]
pub struct Error {
    pub error_type: ErrorType,
    pub message: String,
}

impl Error {
    pub fn new(message: String, kind: ErrorType) -> (out: Error)
        ensures
            out.error_type == kind,
            out.message@ == message@,
    {
        Error { error_type: kind, message }
    }
}

/// The error `e` is of kind `kind` with message `message`.
pub open spec fn error_is(e: Error, kind: ErrorType, message: Seq<char>) -> bool {
    e.error_type == kind && e.message@ == message
}

} // verus!
