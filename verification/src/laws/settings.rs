//! Single settings.

use vstd::prelude::*;

use crate::capability;
use crate::config;
use crate::config::cache;
use crate::config::value;
use crate::config::value::{ByteSize, HumanDuration, Positive};
use crate::copy;
use crate::copy::{CopyOptions, OdCopyOptions, TransferError};
use crate::entry;
use crate::error::{Failure, ServiceError};
use crate::laws::config::{last_value, lemma_given, lemma_retry_keys};
use crate::laws::requests;
use crate::text;
use crate::units;

verus! {

/// Messages name the section, the key and the value.
pub proof fn law_messages_name_the_setting(
    section: &str,
    key: &str,
    given: &str,
    expected: &str,
    unknown: String,
    invalid: String,
)
    requires
        call_ensures(value::unknown, (section, key), unknown),
        call_ensures(value::invalid, (section, key, given, expected), invalid),
    ensures
        unknown@ == "unknown OpenDAL option '"@ + section@ + "."@ + key@ + "'"@,
        invalid@ == "invalid "@ + section@ + "."@ + key@ + "='"@ + given@ + "': "@ + expected@,
{
}

/// A number is taken as it is spelled; a positive one is not zero.
pub proof fn law_numbers_are_taken(
    section: &str,
    key: &str,
    given: &str,
    read: Option<u64>,
    number: Result<usize, String>,
    positive: Result<Positive, String>,
)
    requires
        call_ensures(text::parse_unsigned, (given, usize::MAX as u64), read),
        call_ensures(value::usize_value, (section, key, given), number),
        call_ensures(value::positive_usize, (section, key, given), positive),
    ensures
        number is Ok <==> read is Some,
        number matches Ok(n) ==> n == read->0,
        positive is Ok <==> read is Some && read->0 > 0,
        positive matches Ok(p) ==> p@ == read->0,
        number matches Err(e) ==> e@ == "invalid "@ + section@ + "."@ + key@ + "='"@ + given@
            + "': "@ + "expected a non-negative integer"@,
        positive matches Err(e) ==> e@ == "invalid "@ + section@ + "."@ + key@ + "='"@ + given@
            + "': "@ + "expected a positive integer"@,
{
}

/// A positive number gives back what it was made from, and is never zero.
pub proof fn law_positive_numbers_hold(n: usize, made: Option<Positive>, got: usize)
    requires
        call_ensures(Positive::new, (n,), made),
        made matches Some(p) ==> call_ensures(Positive::get, (p,), got),
    ensures
        made is Some <==> n > 0,
        made is Some ==> got == n,
{
}

/// Sizes and durations give back what they were made from.
pub proof fn law_sizes_and_durations_hold(
    bytes: usize,
    size: ByteSize,
    got: usize,
    nanos: u128,
    duration: HumanDuration,
    same: u128,
    zero: bool,
)
    requires
        call_ensures(ByteSize::of, (bytes,), size),
        call_ensures(ByteSize::get, (size,), got),
        call_ensures(HumanDuration::of, (nanos,), duration),
        call_ensures(HumanDuration::get, (duration,), same),
        call_ensures(HumanDuration::is_zero, (duration,), zero),
    ensures
        got == bytes,
        same == nanos,
        zero <==> nanos == 0,
{
}

/// A size is what its text spells, where the machine can hold it.
pub proof fn law_sizes_are_taken(
    section: &str,
    key: &str,
    given: &str,
    read: Option<u64>,
    size: Result<ByteSize, String>,
    bytes: Option<u64>,
    parsed: Result<ByteSize, String>,
)
    requires
        call_ensures(units::parse_size, (given,), read),
        call_ensures(ByteSize::parse, (section, key, given), size),
        call_ensures(ByteSize::parsed, (section, key, given, bytes), parsed),
    ensures
        size is Ok <==> read is Some && read->0 <= usize::MAX,
        size matches Ok(s) ==> s@ == read->0,
        parsed is Ok <==> bytes is Some && bytes->0 <= usize::MAX,
        parsed matches Ok(s) ==> s@ == bytes->0,
{
}

/// A duration is what its text spells.
pub proof fn law_durations_are_taken(
    section: &str,
    key: &str,
    given: &str,
    read: Option<u128>,
    duration: Result<HumanDuration, String>,
    nanos: Option<u128>,
    parsed: Result<HumanDuration, String>,
)
    requires
        call_ensures(units::parse_duration, (given,), read),
        call_ensures(HumanDuration::parse, (section, key, given), duration),
        call_ensures(HumanDuration::parsed, (section, key, given, nanos), parsed),
    ensures
        duration is Ok <==> read is Some,
        duration matches Ok(d) ==> d@ == read->0,
        parsed is Ok <==> nanos is Some,
        parsed matches Ok(d) ==> d@ == nanos->0,
{
}

/// Four texts spell a truth value, and each spells one.
pub proof fn law_truth_values_are_taken(
    section: &str,
    key: &str,
    given: &str,
    truth: Option<bool>,
    flag: Result<bool, String>,
)
    requires
        call_ensures(value::truth, (given,), truth),
        call_ensures(value::boolean, (section, key, given), flag),
    ensures
        truth == Some(true) <==> given@ == seq!['t', 'r', 'u', 'e'] || given@ == seq!['1'],
        truth == Some(false) <==> given@ == seq!['f', 'a', 'l', 's', 'e'] || given@ == seq!['0'],
        flag is Ok <==> truth is Some,
        flag matches Ok(b) ==> truth == Some(b),
{
    reveal_strlit("true");
    reveal_strlit("false");
    reveal_strlit("1");
    reveal_strlit("0");
    assert("true"@ =~= seq!['t', 'r', 'u', 'e']);
    assert("false"@ =~= seq!['f', 'a', 'l', 's', 'e']);
    assert("1"@ =~= seq!['1']);
    assert("0"@ =~= seq!['0']);
    assert(seq!['1'][0] != seq!['0'][0]);
}

/// A number is what its bits are, where the text spelled one.
pub proof fn law_multipliers_are_taken(
    section: &str,
    key: &str,
    given: &str,
    bits: Option<u32>,
    number: Result<u32, String>,
)
    requires
        call_ensures(value::float, (section, key, given, bits), number),
    ensures
        number is Ok <==> bits is Some,
        number matches Ok(b) ==> bits == Some(b),
{
}

/// A path is taken as it is, unless it is empty.
pub proof fn law_paths_are_taken(
    section: &str,
    key: &str,
    given: &str,
    path: Result<String, String>,
)
    requires
        call_ensures(value::non_empty_path, (section, key, given), path),
    ensures
        path is Ok <==> given@.len() > 0,
        path matches Ok(p) ==> p@ == given@,
{
}

/// The multiplier of retries that has to be read is the last one given.
pub proof fn law_last_multipliers_count(values: Vec<(String, String)>, factor: Option<String>)
    requires
        call_ensures(config::effective_factor, (&values,), factor),
    ensures
        text::optional_text(factor) == last_value(values@, "retry.factor"@),
{
    lemma_retry_keys();
    lemma_given(values@, "retry"@, "factor"@, "retry.factor"@);
}

/// The warning about a cache says what is wrong with it.
pub proof fn law_cache_warnings_say_why(error: &str, warning: String)
    requires
        call_ensures(cache::cache_disabled, (error,), warning),
    ensures
        warning@ == "OpenDAL cache disabled: "@ + error@,
{
}

/// The guard of an operation lets through what a service supports and nothing else.
pub proof fn law_guards_follow_capabilities(
    scheme: &str,
    supported: bool,
    op_name: &str,
    guard: Result<(), Failure>,
)
    requires
        call_ensures(capability::require, (scheme, supported, op_name), guard),
    ensures
        guard is Ok <==> supported,
        guard matches Err(f) ==> requests::says_unsupported(f, scheme@, op_name@),
{
}

/// Text for a row is kept as it is, unless it holds a NUL.
pub proof fn law_row_texts_are_kept(given: String, field: &str, text: Result<String, String>)
    requires
        call_ensures(entry::cstring, (given, field), text),
    ensures
        text is Err <==> given@.contains('\0'),
        text matches Ok(t) ==> t@ == given@,
        text matches Err(e) ==> e@ == "OpenDAL "@ + field@ + " contains a NUL byte"@,
{
}

/// What went wrong first stays the error of a transfer; a failed abort is added to it
/// and never takes its place.
pub proof fn law_aborts_never_replace_errors(
    primary: ServiceError,
    aborted: Option<String>,
    error: TransferError,
)
    requires
        call_ensures(copy::abort_writer, (primary, aborted), error),
    ensures
        error.primary == primary,
        error.context is Some <==> aborted is Some,
        aborted is Some ==> (error.context->0).0@ == "abort_error"@ && (error.context->0).1@
            == aborted->0@,
{
}

/// The options of a copy are decoded under their own names.
pub proof fn law_copy_options_are_decoded(
    raw: OdCopyOptions,
    outcome: Result<CopyOptions, String>,
)
    requires
        call_ensures(copy::copy_options, (&raw,), outcome),
    ensures
        outcome is Err <==> (raw.has_concurrent != 0 && raw.concurrent == 0) || (raw.has_chunk_size
            != 0 && raw.chunk_size == 0) || raw.if_match is NotUtf8 || raw.source_version
            is NotUtf8,
        outcome matches Ok(options) ==> {
            &&& options.if_not_exists <==> raw.if_not_exists != 0
            &&& text::optional_text(options.if_match) == raw.if_match.text()
            &&& text::optional_text(options.source_version) == raw.source_version.text()
            &&& raw.has_source_content_length_hint != 0 ==> options.source_content_length_hint
                == Some(raw.source_content_length_hint)
            &&& raw.has_source_content_length_hint == 0
                ==> options.source_content_length_hint is None
            &&& raw.has_concurrent != 0 ==> options.concurrent == raw.concurrent
            &&& raw.has_concurrent == 0 ==> options.concurrent == 0
            &&& raw.has_chunk_size != 0 ==> options.chunk == Some(raw.chunk_size)
            &&& raw.has_chunk_size == 0 ==> options.chunk is None
        },
{
}

/// What is said of a value that its key does not admit.
pub proof fn law_bad_values_are_told(
    section: &str,
    key: &str,
    given: &str,
    flag: Result<bool, String>,
    path: Result<String, String>,
    size: Result<ByteSize, String>,
    read: Option<u64>,
    duration: Result<HumanDuration, String>,
)
    requires
        call_ensures(value::boolean, (section, key, given), flag),
        call_ensures(value::non_empty_path, (section, key, given), path),
        call_ensures(units::parse_size, (given,), read),
        call_ensures(ByteSize::parse, (section, key, given), size),
        call_ensures(HumanDuration::parse, (section, key, given), duration),
    ensures
        ({
            let told = "invalid "@ + section@ + "."@ + key@ + "='"@ + given@ + "': "@;
            &&& flag matches Err(e) ==> e@ == told + "expected true, false, 1, or 0"@
            &&& path matches Err(e) ==> e@ == told + "path must not be empty"@
            &&& size matches Err(e) ==> if read is None {
                e@ == told + "expected bytes or an IEC size such as '8 MiB'"@
            } else {
                e@ == section@ + "."@ + key@ + " exceeds the platform size limit"@
            }
            &&& duration matches Err(e) ==> e@ == told
                + "expected seconds or a duration such as '500ms'"@
        }),
{
}

} // verus!
