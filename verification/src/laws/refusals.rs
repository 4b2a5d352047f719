//! What is said of requests that are refused: the first reason there is.

use vstd::prelude::*;

use crate::copy;
use crate::copy::{CopyJob, CopyMachine, CopyReply, CopyState, OdCopyOptions};
use crate::du;
use crate::du::{DuStep, OdDuCursor};
use crate::entry::Metadata;
use crate::error::Failure;
use crate::ffi;
use crate::ffi::CText;
use crate::glob;
use crate::laws::uri::lemma_no_mark;
use crate::lister;
use crate::lister::{ListRequest, OdEntry, OdEntryList};
use crate::mutate;
use crate::operator;
use crate::operator::{OdOperator, OdopOperator, OperatorInput, SchemeRequest};
use crate::operator_uri;
use crate::operator_uri::OdopParsedUri;
use crate::reader;
use crate::reader::{OdReader, ReadStep};
use crate::stat;
use crate::table;
use crate::table::{ListOpen, OdListOptions, OdStatOptions, StatOptions, StatRequest};
use crate::text;
use crate::uri;
use crate::writer;
use crate::writer::{OdWriter, WriteStep};

verus! {

/// Whether an outcome is bad input with this message.
pub open spec fn is_bad_input<T>(outcome: Result<T, Failure>, message: Seq<char>) -> bool {
    outcome matches Err(f) && f.code is InvalidInput && f.message@ == message
}

/// Looks: what is missing comes first, then what is no text.
pub proof fn law_refused_looks(
    op: Option<&OdOperator>,
    path: CText,
    has_output: bool,
    looked: Result<String, Failure>,
    there: Result<String, Failure>,
)
    requires
        call_ensures(stat::od_stat, (op, &path, has_output), looked),
        call_ensures(stat::od_exists, (op, &path), there),
    ensures
        op is None || path is Null || !has_output ==> is_bad_input(
            looked,
            "null operator, path, or metadata output"@,
        ),
        op is None || path is Null ==> is_bad_input(there, "null operator or path"@),
        op is Some && op->0.cap.stat && has_output && path is NotUtf8 ==> is_bad_input(
            looked,
            "path is null or not UTF-8"@,
        ),
        op is Some && op->0.cap.stat && path is NotUtf8 ==> is_bad_input(
            there,
            "path is null or not UTF-8"@,
        ),
{
}

/// Readers and writers: the operator comes first, then the path.
pub proof fn law_refused_readers_and_writers(
    op: Option<&OdOperator>,
    path: CText,
    reader: Result<OdReader, Failure>,
    writer: Result<OdWriter, Failure>,
)
    requires
        call_ensures(reader::od_reader_open, (op, &path), reader),
        call_ensures(writer::od_writer_open, (op, &path), writer),
    ensures
        op is None ==> is_bad_input(reader, "null operator"@) && is_bad_input(
            writer,
            "null operator"@,
        ),
        op is Some && op->0.cap.read && path.text() is None ==> is_bad_input(
            reader,
            "path is null or not UTF-8"@,
        ),
        op is Some && op->0.cap.write && path.text() is None ==> is_bad_input(
            writer,
            "path is null or not UTF-8"@,
        ),
{
}

/// Reads: a missing buffer comes before a range that does not fit.
pub proof fn law_refused_reads(
    has_reader: bool,
    offset: u64,
    len: u64,
    has_buffer: bool,
    step: Result<ReadStep, Failure>,
    plain: Result<ReadStep, Failure>,
)
    requires
        call_ensures(reader::od_reader_read, (has_reader, offset, len, has_buffer), step),
        call_ensures(reader::odop_reader_read, (has_reader, offset, len, has_buffer), plain),
    ensures
        !has_reader || (!has_buffer && len > 0) ==> is_bad_input(step, "null reader or buffer"@),
        has_reader && has_buffer && offset + len > u64::MAX ==> is_bad_input(
            step,
            "read range overflows"@,
        ),
        !has_reader || !has_buffer ==> is_bad_input(plain, "null reader or buffer"@),
{
}

/// Writes: missing data comes before a closed writer, and that before what no buffer
/// can hold.
pub proof fn law_refused_writes(
    writer: Option<&OdWriter>,
    len: u64,
    has_data: bool,
    step: Result<WriteStep, Failure>,
    closing: Result<(), Failure>,
    aborting: Result<(), Failure>,
)
    requires
        call_ensures(writer::od_writer_write, (writer, len, has_data), step),
        call_ensures(writer::od_writer_close, (writer,), closing),
        call_ensures(writer::od_writer_abort, (writer,), aborting),
    ensures
        writer is None || (!has_data && len > 0) ==> is_bad_input(step, "null writer or data"@),
        writer is Some && has_data && len > 0 && writer->0.closed ==> is_bad_input(
            step,
            "writer is closed"@,
        ),
        writer is Some && has_data && !writer->0.closed && len > isize::MAX ==> is_bad_input(
            step,
            "write length exceeds the platform size limit"@,
        ),
        writer is None ==> is_bad_input(closing, "null writer"@) && is_bad_input(
            aborting,
            "null writer"@,
        ),
        writer is Some && writer->0.closed ==> is_bad_input(closing, "writer is closed"@)
            && is_bad_input(aborting, "writer is closed"@),
{
}

/// Listings and their entries.
pub proof fn law_refused_listings(
    op: Option<&OdOperator>,
    path: CText,
    recursive: u8,
    request: Result<ListRequest, Failure>,
    list: Option<&OdEntryList>,
    index: usize,
    has_output: bool,
    shown: Result<OdEntry, Failure>,
)
    requires
        call_ensures(lister::od_list, (op, &path, recursive), request),
        call_ensures(lister::od_list_entry, (list, index, has_output), shown),
    ensures
        op is None || path is Null ==> is_bad_input(request, "null operator or path"@),
        op is Some && op->0.cap.list && path is NotUtf8 ==> is_bad_input(
            request,
            "path is null or not UTF-8"@,
        ),
        list is None || !has_output ==> is_bad_input(shown, "null list or out parameter"@),
        list is Some && has_output && index >= list->0.entries@.len() ==> is_bad_input(
            shown,
            "index out of bounds"@,
        ),
{
}

/// Moves: the first path comes before the second.
pub proof fn law_refused_moves(
    op: Option<&OdOperator>,
    plain: Option<&OdopOperator>,
    from: CText,
    to: CText,
    renamed: Result<(String, String), Failure>,
    copied: Result<(String, String), Failure>,
    other: Result<(String, String), Failure>,
)
    requires
        call_ensures(mutate::od_rename, (op, &from, &to), renamed),
        call_ensures(mutate::od_copy, (op, &from, &to), copied),
        call_ensures(mutate::odop_rename, (plain, &from, &to), other),
    ensures
        op is None ==> is_bad_input(renamed, "null operator"@) && is_bad_input(
            copied,
            "null operator"@,
        ),
        plain is None ==> is_bad_input(other, "null operator"@),
        op is Some && op->0.cap.rename && from.text() is None ==> is_bad_input(
            renamed,
            "from is null or not UTF-8"@,
        ),
        op is Some && op->0.cap.rename && from.text() is Some && to.text() is None ==> is_bad_input(
            renamed,
            "to is null or not UTF-8"@,
        ),
        op is Some && op->0.cap.copy && from.text() is None ==> is_bad_input(
            copied,
            "from is null or not UTF-8"@,
        ),
        op is Some && op->0.cap.copy && from.text() is Some && to.text() is None ==> is_bad_input(
            copied,
            "to is null or not UTF-8"@,
        ),
        plain is Some && from.text() is None ==> is_bad_input(
            other,
            "from is null or not UTF-8"@,
        ),
        plain is Some && from.text() is Some && to.text() is None ==> is_bad_input(
            other,
            "to is null or not UTF-8"@,
        ),
{
}

/// Directories and removals.
pub proof fn law_refused_mutations(
    op: Option<&OdOperator>,
    plain: Option<&OdopOperator>,
    path: CText,
    recursive: u8,
    made: Result<String, Failure>,
    removed: Result<(String, bool), Failure>,
    plainly_made: Result<String, Failure>,
    plainly_removed: Result<(String, bool), Failure>,
)
    requires
        call_ensures(mutate::od_create_dir, (op, &path), made),
        call_ensures(mutate::od_remove, (op, &path, recursive), removed),
        call_ensures(mutate::odop_create_dir, (plain, &path), plainly_made),
        call_ensures(mutate::odop_remove, (plain, &path, recursive), plainly_removed),
    ensures
        op is None ==> is_bad_input(made, "null operator"@) && is_bad_input(
            removed,
            "null operator"@,
        ),
        plain is None ==> is_bad_input(plainly_made, "null operator"@) && is_bad_input(
            plainly_removed,
            "null operator"@,
        ),
        op is Some && op->0.cap.create_dir && path.text() is None ==> is_bad_input(
            made,
            "path is null or not UTF-8"@,
        ),
        op is Some && op->0.cap.delete && path.text() is None ==> is_bad_input(
            removed,
            "path is null or not UTF-8"@,
        ),
        plain is Some && path.text() is None ==> is_bad_input(
            plainly_made,
            "path is null or not UTF-8"@,
        ) && is_bad_input(plainly_removed, "path is null or not UTF-8"@),
{
}

/// Scans of a path, of a directory and of a pattern.
pub proof fn law_refused_scans(
    op: Option<&OdOperator>,
    path: CText,
    pattern: CText,
    raw: OdListOptions,
    conditions: OdStatOptions,
    looked: Result<StatRequest, Failure>,
    listed: Result<ListOpen, Failure>,
)
    requires
        call_ensures(table::od_table_stat_open, (op, &path, &conditions), looked),
        call_ensures(table::od_table_list_open, (op, &path, &pattern, &raw), listed),
    ensures
        op is None ==> is_bad_input(looked, "null operator"@) && is_bad_input(
            listed,
            "null operator"@,
        ),
        op is Some && path.text() is None ==> is_bad_input(looked, "path is null or not UTF-8"@)
            && is_bad_input(listed, "path is null or not UTF-8"@),
        op is Some && path.text() is Some && pattern is NotUtf8 ==> is_bad_input(
            listed,
            "glob"@ + " is not UTF-8"@,
        ),
        op is Some && path.text() is Some && !(pattern is NotUtf8) && op->0.cap.list
            && raw.start_after is NotUtf8 ==> is_bad_input(
            listed,
            "start_after"@ + " is not UTF-8"@,
        ),
        op is Some && path.text() is Some && op->0.cap.stat && conditions.version is NotUtf8
            ==> is_bad_input(looked, "version"@ + " is not UTF-8"@),
        op is Some && path.text() is Some && op->0.cap.stat && !(conditions.version is NotUtf8)
            && conditions.if_match is NotUtf8 ==> is_bad_input(
            looked,
            "if_match"@ + " is not UTF-8"@,
        ),
        op is Some && path.text() is Some && op->0.cap.stat && !(conditions.version is NotUtf8)
            && !(conditions.if_match is NotUtf8) && conditions.if_none_match is NotUtf8
            ==> is_bad_input(looked, "if_none_match"@ + " is not UTF-8"@),
{
}

/// Patterns: what is no text, then what has no wildcard, then a NUL, then the operator.
pub proof fn law_refused_patterns(
    op: Option<&OdOperator>,
    pattern: CText,
    text: &str,
    wild: bool,
    raw: OdListOptions,
    outcome: Result<ListOpen, Failure>,
)
    requires
        call_ensures(glob::has_glob, (text,), wild),
        call_ensures(table::od_table_glob_open, (op, &pattern, raw), outcome),
        pattern matches CText::Text(t) ==> t@ == text@,
    ensures
        pattern.text() is None ==> is_bad_input(outcome, "pattern is null or not UTF-8"@),
        pattern.text() is Some && !wild ==> is_bad_input(outcome, "glob pattern has no wildcard"@),
        pattern.text() is Some && wild && text@.contains('\0') ==> is_bad_input(
            outcome,
            "glob pattern contains a NUL byte"@,
        ),
        pattern.text() is Some && wild && !text@.contains('\0') && op is None ==> is_bad_input(
            outcome,
            "null operator"@,
        ),
        pattern.text() is Some && wild && !text@.contains('\0') && op is Some && op->0.cap.list
            && raw.start_after is NotUtf8 ==> is_bad_input(
            outcome,
            "start_after"@ + " is not UTF-8"@,
        ),
{
    glob::lemma_first_wild(text@);
}

/// Usage: the operator, then the target, then the options.
pub proof fn law_refused_usage(
    op: Option<&OdOperator>,
    target: CText,
    raw: OdListOptions,
    outcome: Result<DuStep, Failure>,
)
    requires
        call_ensures(du::od_table_du_open, (op, &target, &raw), outcome),
    ensures
        op is None ==> is_bad_input(outcome, "null operator"@),
        op is Some && target.text() is None ==> is_bad_input(
            outcome,
            "target is null or not UTF-8"@,
        ),
        op is Some && target.text() is Some && raw.start_after is NotUtf8 ==> is_bad_input(
            outcome,
            "start_after"@ + " is not UTF-8"@,
        ),
{
}

/// Copies: the operators, then the source, then the destination, then the options.
pub proof fn law_refused_copies_say_why(
    source_op: Option<&OdOperator>,
    source: CText,
    destination_op: Option<&OdOperator>,
    destination: CText,
    same_operator: bool,
    raw: OdCopyOptions,
    outcome: Result<CopyMachine, Failure>,
)
    requires
        call_ensures(
            copy::od_table_copy_open,
            (source_op, &source, destination_op, &destination, same_operator, &raw),
            outcome,
        ),
    ensures
        ({
            let ops = source_op is Some && destination_op is Some;
            let paths = source.text() is Some && destination.text() is Some;
            let zero = raw.has_concurrent != 0 && raw.concurrent == 0;
            let empty = raw.has_chunk_size != 0 && raw.chunk_size == 0;
            &&& !ops ==> is_bad_input(outcome, "null source or destination operator"@)
            &&& ops && source.text() is None ==> is_bad_input(
                outcome,
                "source is null or not UTF-8"@,
            )
            &&& ops && source.text() is Some && destination.text() is None ==> is_bad_input(
                outcome,
                "destination is null or not UTF-8"@,
            )
            &&& ops && paths && zero ==> is_bad_input(outcome, "copy concurrent must be positive"@)
            &&& ops && paths && !zero && empty ==> is_bad_input(
                outcome,
                "copy chunk_size must be positive"@,
            )
            &&& ops && paths && !zero && !empty && raw.if_match is NotUtf8 ==> is_bad_input(
                outcome,
                "if_match"@ + " is not UTF-8"@,
            )
            &&& ops && paths && !zero && !empty && !(raw.if_match is NotUtf8)
                && raw.source_version is NotUtf8 ==> is_bad_input(
                outcome,
                "source_version"@ + " is not UTF-8"@,
            )
        }),
{
}

/// A wrong hint is told with the size that was found.
pub proof fn law_wrong_hints_are_told(
    job: CopyJob,
    source: Metadata,
    hint: u64,
    after: CopyState,
    hint_text: String,
    size_text: String,
)
    requires
        job.options.source_content_length_hint == Some(hint),
        hint != source.content_length,
        copy::follows(job, CopyState::StatSource, CopyReply::Metadata(source), after),
        call_ensures(text::decimal_text, (hint,), hint_text),
        call_ensures(text::decimal_text, (source.content_length,), size_text),
    ensures
        after matches CopyState::Failed(f) && f.code is InvalidInput && f.message@
            == "source_content_length_hint="@ + hint_text@ + " does not match source size "@
            + size_text@,
{
}

/// URLs: what is no text, then queries and fragments, then the scheme.
pub proof fn law_refused_urls_say_why(
    url: CText,
    registered: Vec<String>,
    outcome: Result<(String, String, String), Failure>,
)
    requires
        call_ensures(uri::resolve_with, (&url, &registered), outcome),
    ensures
        url.text() is None ==> is_bad_input(outcome, "url is null or not UTF-8"@),
        url.text() matches Some(u) ==> u.contains('?') || u.contains('#') ==> is_bad_input(
            outcome,
            "query strings and fragments are not supported in OpenDAL file URLs"@,
        ),
        url.text() matches Some(u) ==> !u.contains('?') && !u.contains('#') && !u.contains(':')
            ==> is_bad_input(outcome, "url must use scheme://authority/path syntax"@),
{
    if url.text() is Some && !url.text()->0.contains(':') {
        lemma_no_mark(url.text()->0);
    }
}

/// A URI that is no text is bad input.
pub proof fn law_refused_uris(uri: CText, outcome: Result<OdopParsedUri, Failure>)
    requires
        call_ensures(operator_uri::odop_parse_uri, (&uri,), outcome),
        uri.text() is None,
    ensures
        is_bad_input(outcome, "uri is null or not UTF-8"@),
{
}

/// A usage that exceeds 64 bits, and a directory that cannot be handed over, say so.
pub proof fn law_refused_rollups(
    entries: Vec<(String, Metadata)>,
    pattern: Option<&String>,
    outcome: Result<OdDuCursor, Failure>,
)
    requires
        call_ensures(du::rollup, (&entries, pattern), outcome),
    ensures
        outcome matches Err(f) ==> f.code is Unexpected && (f.message@ == "du byte count overflow"@
            || f.message@ == "OpenDAL "@ + "du directory"@ + " contains a NUL byte"@),
{
}

/// Pairs: nothing is collected of nothing, and what is missing is said to be.
pub proof fn law_refused_pairs(
    keys: Option<&Vec<CText>>,
    values: Option<&Vec<CText>>,
    len: usize,
    outcome: Result<Vec<(String, String)>, String>,
)
    requires
        keys matches Some(k) ==> k@.len() == len,
        values matches Some(v) ==> v@.len() == len,
        call_ensures(ffi::collect_pairs, (keys, values, len), outcome),
    ensures
        len == 0 ==> outcome is Ok && outcome->Ok_0@.len() == 0,
        len > 0 && (keys is None || values is None) ==> (outcome matches Err(message) && message@
            == "keys/values null with len > 0"@),
{
}

/// Pairs: the first that cannot be decoded is said to be, a key by its number and a
/// value by its key.
pub proof fn law_first_bad_pairs_are_named(
    keys: Vec<CText>,
    values: Vec<CText>,
    outcome: Result<Vec<(String, String)>, String>,
    i: int,
    number: String,
)
    requires
        keys@.len() == values@.len(),
        0 < keys@.len() <= usize::MAX,
        call_ensures(
            ffi::collect_pairs,
            (Some(&keys), Some(&values), keys@.len() as usize),
            outcome,
        ),
        0 <= i < keys@.len(),
        keys@[i].text() is None || values@[i].text() is None,
        forall|j: int|
            0 <= j < i ==> (#[trigger] keys@[j]).text() is Some && values@[j].text() is Some,
        call_ensures(text::decimal_text, (i as u64,), number),
    ensures
        outcome matches Err(message) ==> message@ == match keys@[i].text() {
            None => "key #"@ + number@ + " invalid"@,
            Some(key) => "value for '"@ + key + "' invalid"@,
        },
{
    if outcome is Err {
        let e = outcome->Err_0@;
        let j = choose|j: int| #[trigger]
            ffi::first_undecodable(keys@, values@, j) && e == ffi::pair_error(keys@, values@, j);
        assert(ffi::first_undecodable(keys@, values@, j));
        if j < i {
            assert(keys@[j].text() is Some);
        }
        if i < j {
            assert(ffi::pair_decodes(keys@, values@, i));
        }
        assert(j == i);
    }
}


/// A time that is refused is told by its own name.
pub proof fn law_refused_times_are_named(
    raw: OdStatOptions,
    outcome: Result<StatOptions, String>,
    modified: &str,
    unmodified: &str,
    first: Result<Option<i64>, String>,
    second: Result<Option<i64>, String>,
)
    requires
        call_ensures(table::stat_options, (&raw,), outcome),
        !(raw.version is NotUtf8) && !(raw.if_match is NotUtf8) && !(raw.if_none_match is NotUtf8),
        modified@ == "if_modified_since"@,
        unmodified@ == "if_unmodified_since"@,
        call_ensures(
            table::timestamp,
            (raw.if_modified_since_ms, raw.has_if_modified_since, modified),
            first,
        ),
        call_ensures(
            table::timestamp,
            (raw.if_unmodified_since_ms, raw.has_if_unmodified_since, unmodified),
            second,
        ),
    ensures
        first matches Err(message) ==> (outcome matches Err(e) && e@ == message@),
        first is Ok && second is Err ==> (outcome matches Err(e) && e@ == second->Err_0@),
{
}

/// Operators: the URI or the scheme comes first, then the options of the service, then
/// the others.
pub proof fn law_refused_operators(
    text: CText,
    keys: Option<&Vec<CText>>,
    values: Option<&Vec<CText>>,
    len: usize,
    more_keys: Option<&Vec<CText>>,
    more_values: Option<&Vec<CText>>,
    more: usize,
    namespace: CText,
    input: Result<OperatorInput, Failure>,
    request: Result<SchemeRequest, Failure>,
)
    requires
        keys matches Some(k) ==> k@.len() == len,
        values matches Some(v) ==> v@.len() == len,
        more_keys matches Some(k) ==> k@.len() == more,
        more_values matches Some(v) ==> v@.len() == more,
        call_ensures(
            operator::operator_input,
            (&text, keys, values, len, more_keys, more_values, more, &namespace),
            input,
        ),
        call_ensures(
            operator::odop_operator_new,
            (&text, keys, values, len, more_keys, more_values, more),
            request,
        ),
    ensures
        ({
            let missing = len > 0 && (keys is None || values is None);
            let more_missing = more > 0 && (more_keys is None || more_values is None);
            &&& text.text() is None ==> is_bad_input(input, "uri is null or not UTF-8"@)
                && is_bad_input(request, "scheme is null or not UTF-8"@)
            &&& text.text() is Some && missing ==> is_bad_input(
                input,
                "keys/values null with len > 0"@,
            ) && is_bad_input(request, "keys/values null with len > 0"@)
            &&& text.text() is Some && len == 0 && more_missing ==> is_bad_input(
                input,
                "keys/values null with len > 0"@,
            ) && is_bad_input(request, "keys/values null with len > 0"@)
            &&& text.text() is Some && len == 0 && more == 0 ==> input is Ok && request is Ok
        }),
{
}

} // verus!
