//! Failures as a C caller sees them: a numeric category and a message.

use vstd::prelude::*;

use crate::text::{has_char, text_eq};

verus! {

/// Error categories surfaced to the caller.
#[derive(Clone, Copy, Debug, PartialEq, Eq, Structural)]
pub enum OdErrorCode {
    Success,
    NotFound,
    PermissionDenied,
    NotADirectory,
    IsADirectory,
    AlreadyExists,
    InvalidInput,
    Unsupported,
    Unexpected,
    /// A panic was caught at the boundary.
    Panic,
    /// Anything not otherwise categorized.
    Other,
}

impl OdErrorCode {
    /// The number that stands for the category.
    pub open spec fn number(self) -> int {
        match self {
            OdErrorCode::Success => 0,
            OdErrorCode::NotFound => 1,
            OdErrorCode::PermissionDenied => 2,
            OdErrorCode::NotADirectory => 3,
            OdErrorCode::IsADirectory => 4,
            OdErrorCode::AlreadyExists => 5,
            OdErrorCode::InvalidInput => 6,
            OdErrorCode::Unsupported => 7,
            OdErrorCode::Unexpected => 8,
            OdErrorCode::Panic => 98,
            OdErrorCode::Other => 99,
        }
    }

    /// The number that stands for the category.
    pub fn code(self) -> (code: i32)
        ensures
            code == self.number(),
    {
        match self {
            OdErrorCode::Success => 0,
            OdErrorCode::NotFound => 1,
            OdErrorCode::PermissionDenied => 2,
            OdErrorCode::NotADirectory => 3,
            OdErrorCode::IsADirectory => 4,
            OdErrorCode::AlreadyExists => 5,
            OdErrorCode::InvalidInput => 6,
            OdErrorCode::Unsupported => 7,
            OdErrorCode::Unexpected => 8,
            OdErrorCode::Panic => 98,
            OdErrorCode::Other => 99,
        }
    }
}

/// Categories keep distinct numbers, and zero is success alone.
pub proof fn law_codes_are_distinct(a: OdErrorCode, b: OdErrorCode)
    ensures
        a.number() == b.number() <==> a == b,
        a.number() == 0 <==> a == OdErrorCode::Success,
{
}

/// The kinds of failure that a storage service reports.
#[derive(Clone, Copy, Debug, PartialEq, Eq, Structural)]
pub enum ErrorKind {
    Unexpected,
    Unsupported,
    ConfigInvalid,
    NotFound,
    PermissionDenied,
    IsADirectory,
    NotADirectory,
    AlreadyExists,
    RateLimited,
    IsSameFile,
    ConditionNotMatch,
    RangeNotSatisfied,
    Conflict,
    /// A kind that is not known here.
    Unknown,
}

impl ErrorKind {
    /// The kind that a service names.
    pub open spec fn named(name: Seq<char>) -> ErrorKind {
        if name == "Unexpected"@ {
            ErrorKind::Unexpected
        } else if name == "Unsupported"@ {
            ErrorKind::Unsupported
        } else if name == "ConfigInvalid"@ {
            ErrorKind::ConfigInvalid
        } else if name == "NotFound"@ {
            ErrorKind::NotFound
        } else if name == "PermissionDenied"@ {
            ErrorKind::PermissionDenied
        } else if name == "IsADirectory"@ {
            ErrorKind::IsADirectory
        } else if name == "NotADirectory"@ {
            ErrorKind::NotADirectory
        } else if name == "AlreadyExists"@ {
            ErrorKind::AlreadyExists
        } else if name == "RateLimited"@ {
            ErrorKind::RateLimited
        } else if name == "IsSameFile"@ {
            ErrorKind::IsSameFile
        } else if name == "ConditionNotMatch"@ {
            ErrorKind::ConditionNotMatch
        } else if name == "RangeNotSatisfied"@ {
            ErrorKind::RangeNotSatisfied
        } else if name == "Conflict"@ {
            ErrorKind::Conflict
        } else {
            ErrorKind::Unknown
        }
    }

    /// The kind that a service names.
    pub fn from_name(name: &str) -> (kind: ErrorKind)
        ensures
            kind == ErrorKind::named(name@),
    {
        if text_eq(name, "Unexpected") {
            ErrorKind::Unexpected
        } else if text_eq(name, "Unsupported") {
            ErrorKind::Unsupported
        } else if text_eq(name, "ConfigInvalid") {
            ErrorKind::ConfigInvalid
        } else if text_eq(name, "NotFound") {
            ErrorKind::NotFound
        } else if text_eq(name, "PermissionDenied") {
            ErrorKind::PermissionDenied
        } else if text_eq(name, "IsADirectory") {
            ErrorKind::IsADirectory
        } else if text_eq(name, "NotADirectory") {
            ErrorKind::NotADirectory
        } else if text_eq(name, "AlreadyExists") {
            ErrorKind::AlreadyExists
        } else if text_eq(name, "RateLimited") {
            ErrorKind::RateLimited
        } else if text_eq(name, "IsSameFile") {
            ErrorKind::IsSameFile
        } else if text_eq(name, "ConditionNotMatch") {
            ErrorKind::ConditionNotMatch
        } else if text_eq(name, "RangeNotSatisfied") {
            ErrorKind::RangeNotSatisfied
        } else if text_eq(name, "Conflict") {
            ErrorKind::Conflict
        } else {
            ErrorKind::Unknown
        }
    }

    /// The category under which a kind is surfaced.  An invalid configuration is
    /// the caller's input; kinds without a category of their own, unknown ones
    /// among them, collapse to `Other`.
    pub open spec fn category(self) -> OdErrorCode {
        match self {
            ErrorKind::NotFound => OdErrorCode::NotFound,
            ErrorKind::PermissionDenied => OdErrorCode::PermissionDenied,
            ErrorKind::NotADirectory => OdErrorCode::NotADirectory,
            ErrorKind::IsADirectory => OdErrorCode::IsADirectory,
            ErrorKind::AlreadyExists => OdErrorCode::AlreadyExists,
            ErrorKind::ConfigInvalid => OdErrorCode::InvalidInput,
            ErrorKind::Unsupported => OdErrorCode::Unsupported,
            ErrorKind::Unexpected => OdErrorCode::Unexpected,
            _ => OdErrorCode::Other,
        }
    }

    /// The category under which the kind is surfaced.
    pub fn code(self) -> (code: OdErrorCode)
        ensures
            code == self.category(),
    {
        match self {
            ErrorKind::NotFound => OdErrorCode::NotFound,
            ErrorKind::PermissionDenied => OdErrorCode::PermissionDenied,
            ErrorKind::NotADirectory => OdErrorCode::NotADirectory,
            ErrorKind::IsADirectory => OdErrorCode::IsADirectory,
            ErrorKind::AlreadyExists => OdErrorCode::AlreadyExists,
            ErrorKind::ConfigInvalid => OdErrorCode::InvalidInput,
            ErrorKind::Unsupported => OdErrorCode::Unsupported,
            ErrorKind::Unexpected => OdErrorCode::Unexpected,
            _ => OdErrorCode::Other,
        }
    }
}

/// A failure reported by a service never reads as success.
pub proof fn law_service_failures_are_errors(kind: ErrorKind)
    ensures
        kind.category() != OdErrorCode::Success,
        kind.category().number() != 0,
{
}

/// A failure as a storage service reports it.
pub struct ServiceError {
    pub kind: ErrorKind,
    /// The whole text of the report.
    pub message: String,
}

impl ServiceError {
    /// The failure under which this is surfaced.
    pub fn surface(self) -> (failure: Failure)
        ensures
            failure.is(self.kind.category(), self.message@),
    {
        Failure::from_service(self.kind, self.message)
    }
}

/// A failure on its way to the caller.
pub struct Failure {
    pub code: OdErrorCode,
    pub message: String,
}

impl Failure {
    /// Whether this failure has a given category and message.
    pub open spec fn is(self, code: OdErrorCode, message: Seq<char>) -> bool {
        self.code == code && self.message@ == message
    }

    /// A failure with a message of its own.
    pub fn new(code: OdErrorCode, message: &str) -> (failure: Failure)
        ensures
            failure.is(code, message@),
    {
        Failure { code, message: message.to_owned() }
    }

    /// A failure that a service reported.
    pub fn from_service(kind: ErrorKind, message: String) -> (failure: Failure)
        ensures
            failure.is(kind.category(), message@),
    {
        Failure { code: kind.code(), message }
    }
}

/// Fail where a handle or an output of a call is missing.
pub fn require_handles(present: bool, message: &str) -> (ready: Result<(), Failure>)
    ensures
        ready is Ok <==> present,
        ready matches Err(e) ==> e.is(OdErrorCode::InvalidInput, message@),
{
    if present {
        Ok(())
    } else {
        Err(Failure::new(OdErrorCode::InvalidInput, message))
    }
}

/// The error slot of a call.  Success carries no message.
pub struct OdError {
    pub code: OdErrorCode,
    pub message: Option<String>,
}

/// The message as it can be handed over as a C string, which cannot hold a NUL.
pub open spec fn handed_over(message: Seq<char>) -> Seq<char> {
    if message.contains('\0') {
        "<error message contained NUL>"@
    } else {
        message
    }
}

impl OdError {
    /// Whether the slot holds a failure with this category and message.
    pub open spec fn holds(self, code: OdErrorCode, message: Seq<char>) -> bool {
        self.code == code && (self.message matches Some(m) && m@ == handed_over(message))
    }

    /// Whether the slot holds success.
    pub open spec fn is_ok(self) -> bool {
        self.code == OdErrorCode::Success && self.message is None
    }

    /// A success value.
    pub fn ok() -> (error: OdError)
        ensures
            error.is_ok(),
    {
        OdError { code: OdErrorCode::Success, message: None }
    }
}

/// Write a failure into the slot.
pub fn set_error(out: &mut OdError, code: OdErrorCode, message: &str)
    ensures
        final(out).holds(code, message@),
{
    let message: String = if has_char(message, '\0') {
        "<error message contained NUL>".to_owned()
    } else {
        message.to_owned()
    };
    *out = OdError { code, message: Some(message) };
}

/// Write success into the slot.
pub fn set_ok(out: &mut OdError)
    ensures
        final(out).is_ok(),
{
    *out = OdError::ok();
}

/// Write a failure that a service reported into the slot.
pub fn set_opendal_error(out: &mut OdError, kind: ErrorKind, message: &str)
    ensures
        final(out).holds(kind.category(), message@),
{
    set_error(out, kind.code(), message);
}

/// Write a caught panic into the slot.
pub fn set_panic(out: &mut OdError, context: &str)
    ensures
        final(out).holds(OdErrorCode::Panic, "panic in "@ + context@),
{
    let mut message: String = "panic in ".to_owned();
    message.append(context);
    set_error(out, OdErrorCode::Panic, message.as_str());
}

} // verus!
