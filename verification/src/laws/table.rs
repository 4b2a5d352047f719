//! Table scans.

use vstd::prelude::*;
use vstd::utf8::*;

use crate::copy;
use crate::copy::{CopyMachine, CopyReply, CopyState, OdCopyCursor};
use crate::du;
use crate::du::{DuStep, DuTarget, OdDuCursor, OwnedDuRow};
use crate::entry::{Metadata, OwnedRow};
use crate::error::{ErrorKind, Failure, OdErrorCode, ServiceError};
use crate::ffi::CText;
use crate::glob;
use crate::laws::requests;
use crate::laws::text::{lemma_trim_end, lemma_trim_start};
use crate::operator::OdOperator;
use crate::table;
use crate::table::{
    CursorSource, CursorStep, ListOpen, ListOptions, OdListOptions, OdStatOptions, OdTableCursor,
    Pulled, StatOptions, StatRequest,
};
use crate::text;

verus! {

/// A time is taken as it is, where there is one and the calendar has it.
pub proof fn law_times_are_taken(
    ms: i64,
    present: u8,
    name: &str,
    time: Result<Option<i64>, String>,
)
    requires
        call_ensures(table::timestamp, (ms, present, name), time),
    ensures
        ({
            let within = -377_705_023_201_000 <= ms <= 253_402_207_200_000;
            &&& present == 0 ==> time == Ok::<Option<i64>, String>(None)
            &&& present != 0 && within ==> time == Ok::<Option<i64>, String>(Some(ms))
            &&& present != 0 && !within ==> time is Err
        }),
{
}

/// A time is refused where it is present and there is a reason, with that reason.
pub proof fn law_times_are_refused(
    ms: i64,
    present: u8,
    name: &str,
    refusal: Option<String>,
    time: Result<Option<i64>, String>,
)
    requires
        call_ensures(table::checked_time, (ms, present, name, refusal), time),
    ensures
        time is Err <==> present != 0 && refusal is Some,
        time matches Err(e) ==> e@ == "invalid "@ + name@ + ": "@ + refusal->0@,
        present == 0 ==> time == Ok::<Option<i64>, String>(None),
        present != 0 && refusal is None ==> time == Ok::<Option<i64>, String>(Some(ms)),
{
}

/// The conditions of a look are decoded under their own names.
pub proof fn law_conditions_are_decoded(raw: OdStatOptions, options: StatOptions)
    requires
        call_ensures(table::stat_options, (&raw,), Ok::<StatOptions, String>(options)),
    ensures
        text::optional_text(options.version) == raw.version.text(),
        text::optional_text(options.if_match) == raw.if_match.text(),
        text::optional_text(options.if_none_match) == raw.if_none_match.text(),
        raw.has_if_modified_since != 0 ==> options.if_modified_since == Some(
            raw.if_modified_since_ms,
        ),
        raw.has_if_modified_since == 0 ==> options.if_modified_since is None,
        raw.has_if_unmodified_since != 0 ==> options.if_unmodified_since == Some(
            raw.if_unmodified_since_ms,
        ),
        raw.has_if_unmodified_since == 0 ==> options.if_unmodified_since is None,
{
}

/// They are refused for text that is none and for times that no calendar has.
pub proof fn law_conditions_are_refused(
    raw: OdStatOptions,
    outcome: Result<StatOptions, String>,
)
    requires
        call_ensures(table::stat_options, (&raw,), outcome),
    ensures
        outcome is Err <==> raw.version is NotUtf8 || raw.if_match is NotUtf8
            || raw.if_none_match is NotUtf8 || (raw.has_if_modified_since != 0 && !(
        -377_705_023_201_000 <= raw.if_modified_since_ms <= 253_402_207_200_000)) || (
        raw.has_if_unmodified_since != 0 && !(-377_705_023_201_000 <= raw.if_unmodified_since_ms
            <= 253_402_207_200_000)),
{
}

/// Whether options of a listing are those received, with or without all below.
pub open spec fn lists_as_asked(
    options: ListOptions,
    raw: OdListOptions,
    recursive: bool,
) -> bool {
    &&& raw.has_limit != 0 ==> options.limit == Some(raw.limit)
    &&& raw.has_limit == 0 ==> options.limit is None
    &&& text::optional_text(options.start_after) == raw.start_after.text()
    &&& options.recursive == recursive
    &&& options.versions <==> raw.versions != 0
    &&& options.deleted <==> raw.deleted != 0
}

/// The options of a listing are decoded under their own names.
pub proof fn law_listing_options_are_decoded(
    raw: OdListOptions,
    outcome: Result<ListOptions, String>,
)
    requires
        call_ensures(table::list_options, (&raw,), outcome),
    ensures
        outcome is Err <==> raw.start_after is NotUtf8,
        outcome matches Ok(options) ==> lists_as_asked(options, raw, raw.recursive != 0),
{
}

/// A scan shows an entry exactly where it is not the directory that is listed and
/// matches the pattern, if there is one.  What cannot be shown ends the scan, and so
/// does an error.
pub proof fn law_scans_show_their_entries(
    cursor: OdTableCursor,
    path: String,
    metadata: Metadata,
    row: Result<OwnedRow, String>,
    step: CursorStep,
)
    requires
        call_ensures(OwnedRow::from_parts, (path, metadata), row),
        call_ensures(OdTableCursor::next, (&cursor, Pulled::Entry(path, metadata)), step),
    ensures
        ({
            let itself = cursor.self_path matches Some(directory) && (path@ == directory@ || path@
                == directory@ + seq!['/']);
            let misses = cursor.glob matches Some(pattern) && !glob::glob(
                encode_utf8(pattern@),
                encode_utf8(path@),
            );
            &&& step is Row <==> row is Ok && !itself && !misses
            &&& step is Skip <==> row is Ok && (itself || misses)
            &&& step is Fail <==> row is Err
            &&& step matches CursorStep::Fail(f) ==> f.code is Unexpected && f.message@
                == row->Err_0@
            &&& step matches CursorStep::Row(shown) ==> {
                &&& shown.path@ == path@
                &&& shown.content_length == metadata.content_length
                &&& shown.content_type == metadata.content_type
                &&& shown.content_encoding == metadata.content_encoding
                &&& shown.etag == metadata.etag
                &&& shown.version == metadata.version
            }
        }),
{
    if cursor.self_path is Some {
        let directory = cursor.self_path->0@;
        assert(directory.push('/') =~= directory + seq!['/']);
    }
}

/// The end of the entries is the end of the scan, and an error is its error.
pub proof fn law_scans_end(
    cursor: OdTableCursor,
    done: CursorStep,
    error: ServiceError,
    category: OdErrorCode,
    failed: CursorStep,
)
    requires
        call_ensures(OdTableCursor::next, (&cursor, Pulled::End), done),
        call_ensures(OdTableCursor::next, (&cursor, Pulled::Failed(error)), failed),
        call_ensures(ErrorKind::code, (error.kind,), category),
    ensures
        done is Done,
        failed matches CursorStep::Fail(f) && f.code == category && f.message@ == error.message@,
{
}

/// One entry is handed out once; a listing hands out nothing of its own.
pub proof fn law_single_entries_are_pulled_once(
    cursor: &mut OdTableCursor,
    pulled: Option<Pulled>,
)
    requires
        call_ensures(OdTableCursor::pull, (cursor,), pulled),
    ensures
        final(cursor).glob == old(cursor).glob,
        final(cursor).self_path == old(cursor).self_path,
        old(cursor).source is List ==> pulled is None && final(cursor).source is List,
        old(cursor).source matches CursorSource::One(Some(one)) ==> pulled == Some(
            Pulled::Entry(one.0, one.1),
        ) && final(cursor).source == CursorSource::One(None),
        old(cursor).source == CursorSource::One(None) ==> pulled == Some(Pulled::End)
            && final(cursor).source == CursorSource::One(None),
{
}

/// The scan over one path shows that path and nothing else.
pub proof fn law_single_scans_show_their_path(
    path: String,
    metadata: Metadata,
    cursor: OdTableCursor,
)
    requires
        call_ensures(table::stat_cursor, (path, metadata), cursor),
    ensures
        cursor.source == CursorSource::One(Some((path, metadata))),
        cursor.glob is None,
        cursor.self_path is None,
{
}

/// A look at one path is opened exactly where an operator can look, there is a path,
/// and the conditions can be decoded.
pub proof fn law_single_scans_are_opened(
    op: Option<&OdOperator>,
    path: CText,
    raw: OdStatOptions,
    options: Result<StatOptions, String>,
    outcome: Result<StatRequest, Failure>,
)
    requires
        call_ensures(table::stat_options, (&raw,), options),
        call_ensures(table::od_table_stat_open, (op, &path, &raw), outcome),
    ensures
        outcome is Ok <==> op is Some && path.text() is Some && op->0.cap.stat && options is Ok,
        outcome matches Ok(request) ==> {
            &&& Some(request.path@) == path.text()
            &&& text::optional_text(request.options.version) == raw.version.text()
            &&& text::optional_text(request.options.if_match) == raw.if_match.text()
            &&& text::optional_text(request.options.if_none_match) == raw.if_none_match.text()
            &&& request.options.if_modified_since == options->Ok_0.if_modified_since
            &&& request.options.if_unmodified_since == options->Ok_0.if_unmodified_since
        },
        outcome matches Err(f) ==> if op is Some && path.text() is Some && !op->0.cap.stat {
            requests::says_unsupported(f, op->0.scheme@, "stat"@)
        } else {
            f.code is InvalidInput
        },
{
}

/// Whether `inner` is `s` without the `/` at either end.
pub open spec fn is_without_slashes(inner: Seq<char>, s: Seq<char>) -> bool {
    exists|from: int, to: int|
        0 <= from <= to <= s.len() && inner == #[trigger] s.subrange(from, to) && (forall|i: int|
            (0 <= i < from || to <= i < s.len()) ==> s[i] == '/') && (from < to ==> s[from] != '/'
            && s[to - 1] != '/')
}

proof fn lemma_without_slashes(s: Seq<char>)
    ensures
        is_without_slashes(table::trim_slashes(s), s),
{
    let a = text::trim_start(s, '/');
    let b = text::trim_end(a, '/');
    lemma_trim_start(s, '/');
    lemma_trim_end(a, '/');
    let from = s.len() - a.len();
    let to = from + b.len();
    assert(b =~= s.subrange(from, to));
    assert forall|i: int| (0 <= i < from || to <= i < s.len()) implies s[i] == '/' by {
        if to <= i {
            assert(a[i - from] == s[i]);
        }
    }
    if from < to {
        assert(a[0] == s[from]);
        assert(b.last() == s[to - 1]);
    }
}

/// A listing is opened exactly where an operator can list, there is a path, and the
/// options can be decoded.  It is scanned with the pattern that was given and without
/// the directory itself.
pub proof fn law_listings_are_opened(
    op: Option<&OdOperator>,
    path: CText,
    pattern: CText,
    raw: OdListOptions,
    outcome: Result<ListOpen, Failure>,
)
    requires
        call_ensures(table::od_table_list_open, (op, &path, &pattern, &raw), outcome),
    ensures
        outcome is Ok <==> op is Some && op->0.cap.list && path.text() is Some
            && !(pattern is NotUtf8) && !(raw.start_after is NotUtf8),
        outcome matches Ok(open) ==> {
            &&& Some(open.path@) == path.text()
            &&& lists_as_asked(open.options, raw, raw.recursive != 0)
            &&& open.cursor.source is List
            &&& text::optional_text(open.cursor.glob) == pattern.text()
            &&& open.cursor.self_path is Some
            &&& is_without_slashes(open.cursor.self_path->0@, path.text()->0)
        },
        outcome matches Err(f) ==> if op is Some && path.text() is Some && !(pattern is NotUtf8)
            && !op->0.cap.list {
            requests::says_unsupported(f, op->0.scheme@, "list"@)
        } else {
            f.code is InvalidInput
        },
{
    if path.text() is Some {
        lemma_without_slashes(path.text()->0);
    }
}

/// The matches of a pattern are scanned from the root of the pattern on, with all below
/// it, against the pattern without a `/` in front and without the root itself.
pub proof fn law_globs_are_opened(
    op: Option<&OdOperator>,
    pattern: CText,
    text: &str,
    wild: bool,
    root: &str,
    raw: OdListOptions,
    outcome: Result<ListOpen, Failure>,
)
    requires
        pattern.text() == Some(text@),
        call_ensures(glob::has_glob, (text,), wild),
        call_ensures(glob::glob_root, (text,), root),
        call_ensures(table::od_table_glob_open, (op, &pattern, raw), outcome),
    ensures
        outcome is Ok <==> wild && !text@.contains('\0') && op is Some && op->0.cap.list
            && !(raw.start_after is NotUtf8),
        outcome matches Ok(open) ==> {
            &&& open.path@ == root@
            &&& lists_as_asked(open.options, raw, true)
            &&& open.cursor.source is List
            &&& open.cursor.glob is Some
            &&& open.cursor.self_path is Some
            &&& is_without_slashes(open.cursor.self_path->0@, root@)
            &&& is_without_leading(open.cursor.glob->0@, text@)
        },
        outcome matches Err(f) ==> if wild && !text@.contains('\0') && op is Some
            && !op->0.cap.list {
            requests::says_unsupported(f, op->0.scheme@, "list"@)
        } else {
            f.code is InvalidInput
        },
{
    lemma_without_slashes(root@);
    lemma_trim_start(text@, '/');
    glob::lemma_first_wild(text@);
}

/// Whether `rest` is `s` without the `/` at its beginning.
pub open spec fn is_without_leading(rest: Seq<char>, s: Seq<char>) -> bool {
    &&& rest.len() <= s.len()
    &&& rest == s.skip(s.len() - rest.len())
    &&& forall|i: int| 0 <= i < s.len() - rest.len() ==> s[i] == '/'
    &&& rest.len() > 0 ==> rest[0] != '/'
}

/// Text that is no pattern at all is refused.
pub proof fn law_missing_patterns_are_refused(
    op: Option<&OdOperator>,
    pattern: CText,
    raw: OdListOptions,
    outcome: Result<ListOpen, Failure>,
)
    requires
        call_ensures(table::od_table_glob_open, (op, &pattern, raw), outcome),
        pattern.text() is None,
    ensures
        outcome matches Err(f) && f.code is InvalidInput,
{
}

/// A path is matched with a 1 exactly where the pattern matches it.
pub proof fn law_matches_are_told(pattern: CText, path: CText, matched: u8)
    requires
        call_ensures(table::od_glob_match, (&pattern, &path), matched),
    ensures
        matched == 0 || matched == 1,
        matched == 1 <==> pattern.text() is Some && path.text() is Some && glob::glob(
            encode_utf8(pattern.text()->0),
            encode_utf8(path.text()->0),
        ),
{
}

/// The usage of a pattern is that of all below its root; without a wildcard the target
/// is looked at first.
pub proof fn law_usage_is_opened(
    op: Option<&OdOperator>,
    target: CText,
    text: &str,
    wild: bool,
    root: &str,
    raw: OdListOptions,
    outcome: Result<DuStep, Failure>,
)
    requires
        target.text() == Some(text@),
        call_ensures(glob::has_glob, (text,), wild),
        call_ensures(glob::glob_root, (text,), root),
        call_ensures(du::od_table_du_open, (op, &target, &raw), outcome),
    ensures
        outcome is Ok <==> op is Some && !(raw.start_after is NotUtf8),
        outcome matches Ok(DuStep::List { path, options, pattern }) ==> wild && path@ == root@
            && lists_as_asked(options, raw, true) && pattern is Some && is_without_leading(
            pattern->0@,
            text@,
        ),
        outcome matches Ok(DuStep::Stat { target: path, options }) ==> !wild && path@ == text@
            && lists_as_asked(options, raw, raw.recursive != 0),
        outcome matches Err(f) ==> f.code is InvalidInput,
{
    lemma_trim_start(text@, '/');
}

/// A file is its own usage; a directory is listed with all below it.
pub proof fn law_targets_are_files_or_directories(
    target: String,
    options: ListOptions,
    looked: Result<Metadata, ServiceError>,
    category: OdErrorCode,
    outcome: Result<DuTarget, Failure>,
)
    requires
        call_ensures(du::after_stat, (target, options, looked), outcome),
        looked matches Err(e) ==> call_ensures(ErrorKind::code, (e.kind,), category),
    ensures
        looked matches Err(e) ==> (outcome matches Err(f) && f.code == category && f.message@
            == e.message@),
        looked matches Ok(metadata) ==> {
            &&& outcome is Ok
            &&& metadata.mode is File <==> outcome->Ok_0 is File
            &&& outcome->Ok_0 matches DuTarget::File(entries) ==> entries@.len() == 1
                && entries@[0].0 == target && entries@[0].1 == metadata
            &&& outcome->Ok_0 matches DuTarget::Directory { path, options: all } ==> {
                &&& path@.len() > 0 && path@.last() == '/'
                &&& path@ == target@ || path@ == target@ + seq!['/']
                &&& target@.len() > 0 && target@.last() == '/' ==> path@ == target@
                &&& all.recursive
                &&& all.limit == options.limit
                &&& all.start_after == options.start_after
                &&& all.versions == options.versions
                &&& all.deleted == options.deleted
            }
        },
{
    assert(target@.push('/') =~= target@ + seq!['/']);
}

/// Rows of a usage come one after the other, each once.
pub proof fn law_usage_rows_come_in_order(cursor: &mut OdDuCursor, row: Option<&OwnedDuRow>)
    requires
        call_ensures(OdDuCursor::next_row, (cursor,), row),
    ensures
        final(cursor).rows == old(cursor).rows,
        row is Some <==> old(cursor).next < old(cursor).rows@.len(),
        row matches Some(r) ==> *r == old(cursor).rows@[old(cursor).next as int]
            && final(cursor).next == old(cursor).next + 1,
        row is None ==> final(cursor).next == old(cursor).next,
{
}

/// The row of a copy comes once.
pub proof fn law_copy_rows_come_once(
    cursor: &mut OdCopyCursor,
    row: Option<(u64, OwnedRow)>,
)
    requires
        call_ensures(OdCopyCursor::next_row, (cursor,), row),
    ensures
        row == old(cursor).row,
        final(cursor).row is None,
{
}

/// A machine that closes its copier counts the larger of what was reported and the
/// size of the source.
pub proof fn law_closed_copiers_count_the_larger(
    machine: &mut CopyMachine,
    size: u64,
    copied: u64,
    metadata: Metadata,
)
    requires
        call_ensures(CopyMachine::advance, (machine, CopyReply::Closed(metadata)), ()),
        old(machine).state == (CopyState::ClosingCopier { size, copied }),
    ensures
        final(machine).job == old(machine).job,
        final(machine).state is StatDestination,
        final(machine).state->completion == metadata,
        final(machine).state->StatDestination_bytes >= size,
        final(machine).state->StatDestination_bytes >= copied,
        final(machine).state->StatDestination_bytes == size
            || final(machine).state->StatDestination_bytes == copied,
{
}

/// A machine that closes its writer counts the size of the source.
pub proof fn law_closed_writers_count_the_source(
    machine: &mut CopyMachine,
    size: u64,
    metadata: Metadata,
)
    requires
        call_ensures(CopyMachine::advance, (machine, CopyReply::Closed(metadata)), ()),
        old(machine).state == (CopyState::ClosingWriter { size }),
    ensures
        final(machine).job == old(machine).job,
        final(machine).state == (CopyState::StatDestination { bytes: size, completion: metadata }),
{
}

/// A machine goes from state to state as its replies say.
pub proof fn law_machines_go_on(machine: &mut CopyMachine, reply: CopyReply)
    requires
        call_ensures(CopyMachine::advance, (machine, reply), ()),
        copy::answers(old(machine).state, reply),
    ensures
        final(machine).job == old(machine).job,
        copy::follows(old(machine).job, old(machine).state, reply, final(machine).state),
{
}

} // verus!
