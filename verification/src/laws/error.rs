//! Errors.

use vstd::prelude::*;

use crate::error;
use crate::error::{ErrorKind, Failure, OdError, OdErrorCode, ServiceError};

verus! {

/// A caller can tell every category from its number.
pub proof fn law_categories_have_numbers(category: OdErrorCode, number: i32)
    requires
        call_ensures(OdErrorCode::code, (category,), number),
    ensures
        number == 0 <==> category is Success,
        number == 1 <==> category is NotFound,
        number == 2 <==> category is PermissionDenied,
        number == 3 <==> category is NotADirectory,
        number == 4 <==> category is IsADirectory,
        number == 5 <==> category is AlreadyExists,
        number == 6 <==> category is InvalidInput,
        number == 7 <==> category is Unsupported,
        number == 8 <==> category is Unexpected,
        number == 98 <==> category is Panic,
        number == 99 <==> category is Other,
{
}

/// A kind of error that has a category keeps it; the rest go under one roof.
pub proof fn law_kinds_keep_their_category(kind: ErrorKind, category: OdErrorCode)
    requires
        call_ensures(ErrorKind::code, (kind,), category),
    ensures
        category is NotFound <==> kind is NotFound,
        category is PermissionDenied <==> kind is PermissionDenied,
        category is NotADirectory <==> kind is NotADirectory,
        category is IsADirectory <==> kind is IsADirectory,
        category is AlreadyExists <==> kind is AlreadyExists,
        category is InvalidInput <==> kind is ConfigInvalid,
        category is Unsupported <==> kind is Unsupported,
        category is Unexpected <==> kind is Unexpected,
        category is Other <==> kind is RateLimited || kind is IsSameFile || kind
            is ConditionNotMatch || kind is RangeNotSatisfied || kind is Conflict || kind
            is Unknown,
        !(category is Success),
        !(category is Panic),
{
}

proof fn lemma_kind_names()
    ensures
        "Unexpected"@.len() == 10,
        "Unexpected"@[0] == 'U',
        "IsSameFile"@.len() == 10,
        "IsSameFile"@[0] == 'I',
        "Unsupported"@.len() == 11,
        "Unsupported"@[0] == 'U',
        "RateLimited"@.len() == 11,
        "RateLimited"@[0] == 'R',
        "ConfigInvalid"@.len() == 13,
        "ConfigInvalid"@[0] == 'C',
        "AlreadyExists"@.len() == 13,
        "AlreadyExists"@[0] == 'A',
        "NotADirectory"@.len() == 13,
        "NotADirectory"@[0] == 'N',
        "NotFound"@.len() == 8,
        "NotFound"@[0] == 'N',
        "Conflict"@.len() == 8,
        "Conflict"@[0] == 'C',
        "PermissionDenied"@.len() == 16,
        "IsADirectory"@.len() == 12,
        "ConditionNotMatch"@.len() == 17,
        "ConditionNotMatch"@[0] == 'C',
        "RangeNotSatisfied"@.len() == 17,
        "RangeNotSatisfied"@[0] == 'R',
{
    reveal_strlit("Unexpected");
    reveal_strlit("IsSameFile");
    reveal_strlit("Unsupported");
    reveal_strlit("RateLimited");
    reveal_strlit("ConfigInvalid");
    reveal_strlit("AlreadyExists");
    reveal_strlit("NotADirectory");
    reveal_strlit("NotFound");
    reveal_strlit("Conflict");
    reveal_strlit("PermissionDenied");
    reveal_strlit("IsADirectory");
    reveal_strlit("ConditionNotMatch");
    reveal_strlit("RangeNotSatisfied");
}

/// A kind is read from its own name and from no other.
pub proof fn law_kinds_are_read_by_name(name: &str, kind: ErrorKind)
    requires
        call_ensures(ErrorKind::from_name, (name,), kind),
    ensures
        kind is Unexpected <==> name@ == "Unexpected"@,
        kind is IsSameFile <==> name@ == "IsSameFile"@,
        kind is Unsupported <==> name@ == "Unsupported"@,
        kind is RateLimited <==> name@ == "RateLimited"@,
        kind is ConfigInvalid <==> name@ == "ConfigInvalid"@,
        kind is AlreadyExists <==> name@ == "AlreadyExists"@,
        kind is NotADirectory <==> name@ == "NotADirectory"@,
        kind is NotFound <==> name@ == "NotFound"@,
        kind is Conflict <==> name@ == "Conflict"@,
        kind is PermissionDenied <==> name@ == "PermissionDenied"@,
        kind is IsADirectory <==> name@ == "IsADirectory"@,
        kind is ConditionNotMatch <==> name@ == "ConditionNotMatch"@,
        kind is RangeNotSatisfied <==> name@ == "RangeNotSatisfied"@,
{
    lemma_kind_names();
}

/// A failure keeps the text of what went wrong and the category of its kind.
pub proof fn law_failures_keep_their_text(
    error: ServiceError,
    category: OdErrorCode,
    surfaced: Failure,
    served: Failure,
    text: &str,
    made: Failure,
    other: OdErrorCode,
)
    requires
        call_ensures(ErrorKind::code, (error.kind,), category),
        call_ensures(ServiceError::surface, (error,), surfaced),
        call_ensures(Failure::from_service, (error.kind, error.message), served),
        call_ensures(Failure::new, (other, text), made),
    ensures
        surfaced.code == category && surfaced.message@ == error.message@,
        served.code == category && served.message@ == error.message@,
        made.code == other && made.message@ == text@,
{
}

/// An error that is handed over holds its category and its text.  Text that cannot
/// be handed over is replaced.
pub proof fn law_errors_are_handed_over(out: &mut OdError, code: OdErrorCode, message: &str)
    requires
        call_ensures(error::set_error, (out, code, message), ()),
    ensures
        final(out).code == code,
        final(out).message is Some,
        !message@.contains('\0') ==> final(out).message->0@ == message@,
        message@.contains('\0') ==> final(out).message->0@ == "<error message contained NUL>"@,
{
}

/// So does an error of the service, under the category of its kind.
pub proof fn law_service_errors_are_handed_over(
    out: &mut OdError,
    kind: ErrorKind,
    category: OdErrorCode,
    message: &str,
)
    requires
        call_ensures(ErrorKind::code, (kind,), category),
        call_ensures(error::set_opendal_error, (out, kind, message), ()),
    ensures
        final(out).code == category,
        final(out).message is Some,
        !message@.contains('\0') ==> final(out).message->0@ == message@,
{
}

/// A panic is told by where it happened.
pub proof fn law_panics_are_handed_over(out: &mut OdError, context: &str)
    requires
        call_ensures(error::set_panic, (out, context), ()),
        !context@.contains('\0'),
    ensures
        final(out).code is Panic,
        final(out).message is Some,
        final(out).message->0@ == "panic in "@ + context@,
{
    reveal_strlit("panic in ");
    let text = "panic in "@ + context@;
    if text.contains('\0') {
        let i = choose|i: int| 0 <= i < text.len() && text[i] == '\0';
        if i >= 9 {
            assert(context@[i - 9] == '\0');
        }
    }
}

/// Success leaves no text.
pub proof fn law_success_is_handed_over(out: &mut OdError, fresh: OdError)
    requires
        call_ensures(error::set_ok, (out,), ()),
        call_ensures(OdError::ok, (), fresh),
    ensures
        final(out).code is Success && final(out).message is None,
        fresh.code is Success && fresh.message is None,
{
}

/// A missing handle is bad input.
pub proof fn law_missing_handles_are_bad_input(
    present: bool,
    message: &str,
    ready: Result<(), Failure>,
)
    requires
        call_ensures(error::require_handles, (present, message), ready),
    ensures
        present <==> ready is Ok,
        ready matches Err(f) ==> f.code is InvalidInput && f.message@ == message@,
{
}

} // verus!
