//! What callers may ask of an operator, and what is made of it.

use vstd::prelude::*;

use crate::entry;
use crate::entry::{Metadata, OwnedRow};
use crate::error::{ErrorKind, Failure, OdErrorCode, ServiceError};
use crate::ffi::CText;
use crate::lister;
use crate::lister::{ListRequest, OdEntry, OdEntryList};
use crate::mutate;
use crate::operator::{OdOperator, OdopOperator};
use crate::reader;
use crate::reader::{OdReader, OdopReader, ReadStep};
use crate::stat;
use crate::stat::{DirProbe, DirStep, Listed, OdMetadata, OdopMetadata};
use crate::writer;
use crate::writer::{OdWriter, OdopWriter, WriteStep};

verus! {

/// Whether a failure says that a service cannot do something.
pub open spec fn says_unsupported(f: Failure, scheme: Seq<char>, op_name: Seq<char>) -> bool {
    f.code is Unsupported && f.message@ == "service '"@ + scheme + "' does not support "@ + op_name
}

/// Metadata is shown with its length, its time or -1, and a 1 for directories alone.
pub proof fn law_metadata_is_shown(
    metadata: Metadata,
    shown: OdMetadata,
    other: OdopMetadata,
    none: OdMetadata,
    nothing: OdopMetadata,
)
    requires
        call_ensures(OdMetadata::of, (&metadata,), shown),
        call_ensures(OdopMetadata::of, (&metadata,), other),
        call_ensures(OdMetadata::empty, (), none),
        call_ensures(OdopMetadata::empty, (), nothing),
    ensures
        shown.content_length == metadata.content_length,
        metadata.last_modified_ms matches Some(ms) ==> shown.last_modified_ms == ms,
        metadata.last_modified_ms is None ==> shown.last_modified_ms == -1,
        metadata.mode is Dir ==> shown.is_dir == 1,
        !(metadata.mode is Dir) ==> shown.is_dir == 0,
        other.content_length == shown.content_length,
        other.last_modified_ms == shown.last_modified_ms,
        other.is_dir == shown.is_dir,
        none.content_length == 0 && none.last_modified_ms == -1 && none.is_dir == 0,
        nothing.content_length == 0 && nothing.last_modified_ms == -1 && nothing.is_dir == 0,
{
}

/// A look at a path goes ahead exactly where there is an operator that can look and a
/// path to look at.
pub proof fn law_looks_need_an_operator_and_a_path(
    op: Option<&OdOperator>,
    path: CText,
    has_output: bool,
    stat: Result<String, Failure>,
    there: Result<String, Failure>,
    probe: Result<DirProbe, Failure>,
)
    requires
        call_ensures(stat::od_stat, (op, &path, has_output), stat),
        call_ensures(stat::od_exists, (op, &path), there),
        call_ensures(stat::od_dir_exists, (op, &path), probe),
    ensures
        ({
            let able = op is Some && path.text() is Some && op->0.cap.stat;
            let refused = op is Some && !(path is Null) && !op->0.cap.stat;
            &&& stat is Ok <==> able && has_output
            &&& there is Ok <==> able
            &&& probe is Ok <==> able
            &&& stat matches Ok(p) ==> Some(p@) == path.text()
            &&& there matches Ok(p) ==> Some(p@) == path.text()
            &&& probe matches Ok(p) ==> Some(p.path@) == path.text() && p.can_list
                == op->0.cap.list
            &&& stat matches Err(f) ==> if refused && has_output {
                says_unsupported(f, op->0.scheme@, "stat"@)
            } else {
                f.code is InvalidInput
            }
            &&& there matches Err(f) ==> if refused {
                says_unsupported(f, op->0.scheme@, "stat"@)
            } else {
                f.code is InvalidInput
            }
            &&& probe matches Err(f) ==> if refused {
                says_unsupported(f, op->0.scheme@, "stat"@)
            } else {
                f.code is InvalidInput
            }
        }),
{
}

/// The same where the service is asked without looking at what it can do.
pub proof fn law_plain_looks_need_an_operator_and_a_path(
    op: Option<&OdopOperator>,
    path: CText,
    stat: Result<String, Failure>,
    there: Result<String, Failure>,
)
    requires
        call_ensures(stat::odop_stat, (op, &path), stat),
        call_ensures(stat::odop_exists, (op, &path), there),
    ensures
        stat is Ok <==> op is Some && path.text() is Some,
        there is Ok <==> op is Some && path.text() is Some,
        stat matches Ok(p) ==> Some(p@) == path.text(),
        there matches Ok(p) ==> Some(p@) == path.text(),
        stat matches Err(f) ==> f.code is InvalidInput,
        there matches Err(f) ==> f.code is InvalidInput,
{
}

/// What is there answers for itself.  What is not found may still be a directory,
/// where something can be listed below it; every other error is passed on.
pub proof fn law_directories_are_probed(
    probe: DirProbe,
    looked: Result<bool, ServiceError>,
    step: DirStep,
    category: OdErrorCode,
)
    requires
        call_ensures(DirProbe::after_stat, (&probe, looked), step),
        looked matches Err(e) ==> call_ensures(ErrorKind::code, (e.kind,), category),
    ensures
        looked matches Ok(is_dir) ==> step == DirStep::Answer(is_dir),
        looked matches Err(e) ==> {
            &&& e.kind is NotFound && !probe.can_list ==> step == DirStep::Answer(false)
            &&& e.kind is NotFound && probe.can_list ==> step is Probe
            &&& !(e.kind is NotFound) ==> (step matches DirStep::Fail(f) && f.message@
                == e.message@ && f.code == category)
        },
        step matches DirStep::Probe(prefix) ==> {
            &&& probe.path@.len() == 0 ==> prefix@.len() == 0
            &&& probe.path@.len() > 0 ==> prefix@.last() == '/'
            &&& prefix@ == probe.path@ || prefix@ == probe.path@ + seq!['/']
            &&& probe.path@.len() > 0 && probe.path@.last() == '/' ==> prefix@ == probe.path@
        },
{
    if step is Probe {
        assert(probe.path@.push('/') =~= probe.path@ + seq!['/']);
    }
}

/// A child makes a directory and nothing does not; what could not be listed for any
/// reason but that it is not there is an error.
pub proof fn law_children_make_directories(
    probe: DirProbe,
    listed: Listed,
    answer: Result<bool, Failure>,
    code: i8,
)
    requires
        call_ensures(DirProbe::after_list, (&probe, listed), answer),
        call_ensures(stat::answer_code, (&answer,), code),
    ensures
        listed is Child <==> answer == Ok::<bool, Failure>(true),
        answer == Ok::<bool, Failure>(false) <==> listed is Nothing || (
        listed matches Listed::NotOpened(e) && e.kind is NotFound),
        listed matches Listed::BrokeOff(e) ==> (answer matches Err(f) && f.message@ == e.message@
            && f.code == e.kind.category()),
        listed matches Listed::NotOpened(e) ==> !(e.kind is NotFound) ==> (answer matches Err(f)
            && f.message@ == e.message@ && f.code == e.kind.category()),
        code == 1 <==> answer == Ok::<bool, Failure>(true),
        code == 0 <==> answer == Ok::<bool, Failure>(false),
        code == -1 <==> answer is Err,
{
}

/// A reader is opened exactly where there is an operator that can read and a path,
/// with what is configured for reading.
pub proof fn law_readers_are_opened(
    op: Option<&OdOperator>,
    path: CText,
    outcome: Result<OdReader, Failure>,
)
    requires
        call_ensures(reader::od_reader_open, (op, &path), outcome),
    ensures
        outcome is Ok <==> op is Some && op->0.cap.read && path.text() is Some,
        outcome matches Ok(r) ==> {
            &&& Some(r.path@) == path.text()
            &&& r.concurrent is Some <==> op->0.io.read.concurrent is Some
            &&& r.concurrent matches Some(n) ==> n == op->0.io.read.concurrent->0@
            &&& r.chunk is Some <==> op->0.io.read.chunk_size is Some
            &&& r.chunk matches Some(n) ==> n == op->0.io.read.chunk_size->0@
        },
        outcome matches Err(f) ==> if op is Some && !op->0.cap.read {
            says_unsupported(f, op->0.scheme@, "read"@)
        } else {
            f.code is InvalidInput
        },
{
}

/// The same with plain options, where zero leaves a setting to the service.
pub proof fn law_plain_readers_are_opened(
    op: Option<&OdopOperator>,
    path: CText,
    outcome: Result<OdopReader, Failure>,
)
    requires
        call_ensures(reader::odop_reader_open, (op, &path), outcome),
    ensures
        outcome is Ok <==> op is Some && op->0.cap.read && path.text() is Some,
        outcome matches Ok(r) ==> {
            &&& Some(r.path@) == path.text()
            &&& op->0.io.read.concurrent == 0 ==> r.concurrent is None
            &&& op->0.io.read.concurrent > 0 ==> r.concurrent == Some(op->0.io.read.concurrent)
            &&& op->0.io.read.chunk == 0 ==> r.chunk is None
            &&& op->0.io.read.chunk > 0 ==> r.chunk == Some(op->0.io.read.chunk)
        },
        outcome matches Err(f) ==> if op is Some && !op->0.cap.read {
            says_unsupported(f, op->0.scheme@, "read"@)
        } else {
            f.code is InvalidInput
        },
{
}

/// A read begins where it is asked to and covers exactly the bytes asked for, or is
/// refused where they do not fit 64 bits.
pub proof fn law_reads_cover_their_range(
    has_reader: bool,
    offset: u64,
    len: u64,
    has_buffer: bool,
    step: Result<ReadStep, Failure>,
)
    requires
        call_ensures(reader::od_reader_read, (has_reader, offset, len, has_buffer), step),
    ensures
        step is Ok <==> has_reader && (len == 0 || (has_buffer && offset + len <= u64::MAX)),
        step matches Ok(ReadStep::Range { start, end }) ==> start == offset && end - start == len
            && len > 0,
        step matches Ok(ReadStep::Nothing) ==> len == 0,
        step matches Err(f) ==> f.code is InvalidInput,
{
}

/// The plain reader covers what of the range fits 64 bits.
pub proof fn law_plain_reads_cover_their_range(
    has_reader: bool,
    offset: u64,
    len: u64,
    has_buffer: bool,
    step: Result<ReadStep, Failure>,
)
    requires
        call_ensures(reader::odop_reader_read, (has_reader, offset, len, has_buffer), step),
    ensures
        step is Ok <==> has_reader && has_buffer,
        step matches Ok(ReadStep::Range { start, end }) ==> start == offset && len > 0 && (end
            - start == len || (end == u64::MAX && offset + len > u64::MAX)),
        step matches Ok(ReadStep::Nothing) ==> len == 0,
        step matches Err(f) ==> f.code is InvalidInput,
{
}

/// A writer is opened exactly where there is an operator that can write and a path,
/// with what is configured for writing, and is not closed.
pub proof fn law_writers_are_opened(
    op: Option<&OdOperator>,
    path: CText,
    outcome: Result<OdWriter, Failure>,
)
    requires
        call_ensures(writer::od_writer_open, (op, &path), outcome),
    ensures
        outcome is Ok <==> op is Some && op->0.cap.write && path.text() is Some,
        outcome matches Ok(w) ==> {
            &&& Some(w.path@) == path.text()
            &&& w.concurrent is Some <==> op->0.io.write.concurrent is Some
            &&& w.concurrent matches Some(n) ==> n == op->0.io.write.concurrent->0@
            &&& w.chunk is Some <==> op->0.io.write.chunk_size is Some
            &&& w.chunk matches Some(n) ==> n == op->0.io.write.chunk_size->0@
            &&& !w.closed
        },
        outcome matches Err(f) ==> if op is Some && !op->0.cap.write {
            says_unsupported(f, op->0.scheme@, "write"@)
        } else {
            f.code is InvalidInput
        },
{
}

/// The same for plain operators.
pub proof fn law_plain_writers_are_opened(
    op: Option<&OdopOperator>,
    path: CText,
    outcome: Result<OdopWriter, Failure>,
)
    requires
        call_ensures(writer::odop_writer_open, (op, &path), outcome),
    ensures
        outcome is Ok <==> op is Some && op->0.cap.write && path.text() is Some,
        outcome matches Ok(w) ==> Some(w.path@) == path.text(),
        outcome matches Err(f) ==> if op is Some && !(path is Null) && !op->0.cap.write {
            says_unsupported(f, op->0.scheme@, "write"@)
        } else {
            f.code is InvalidInput
        },
{
}

/// An open writer takes all the bytes it is handed, where one buffer can hold them.
pub proof fn law_writes_take_all_bytes(
    writer: Option<&OdWriter>,
    len: u64,
    has_data: bool,
    step: Result<WriteStep, Failure>,
)
    requires
        call_ensures(writer::od_writer_write, (writer, len, has_data), step),
    ensures
        step is Ok <==> writer is Some && (len == 0 || (has_data && !writer->0.closed && len
            <= isize::MAX)),
        step matches Ok(WriteStep::Bytes(n)) ==> n == len && len > 0,
        step matches Ok(WriteStep::Nothing) ==> len == 0,
        step matches Err(f) ==> f.code is InvalidInput,
{
}

/// The same for plain writers.
pub proof fn law_plain_writes_take_all_bytes(
    writer: Option<&OdopWriter>,
    len: usize,
    has_data: bool,
    step: Result<WriteStep, Failure>,
    closing: Result<(), Failure>,
    aborting: Result<(), Failure>,
)
    requires
        call_ensures(writer::odop_writer_write, (writer, len, has_data), step),
        call_ensures(writer::odop_writer_close, (writer,), closing),
        call_ensures(writer::odop_writer_abort, (writer,), aborting),
    ensures
        step is Ok <==> writer is Some && (len == 0 || has_data),
        step matches Ok(WriteStep::Bytes(n)) ==> n == len && len > 0,
        step matches Ok(WriteStep::Nothing) ==> len == 0,
        step matches Err(f) ==> f.code is InvalidInput,
        closing is Ok <==> writer is Some,
        aborting is Ok <==> writer is Some,
        closing matches Err(f) ==> f.code is InvalidInput,
        aborting matches Err(f) ==> f.code is InvalidInput,
{
}

/// A writer can be closed or aborted as long as it is open.
pub proof fn law_open_writers_can_end(
    writer: Option<&OdWriter>,
    closing: Result<(), Failure>,
    aborting: Result<(), Failure>,
)
    requires
        call_ensures(writer::od_writer_close, (writer,), closing),
        call_ensures(writer::od_writer_abort, (writer,), aborting),
    ensures
        closing is Ok <==> writer is Some && !writer->0.closed,
        aborting is Ok <==> writer is Some && !writer->0.closed,
        closing matches Err(f) ==> f.code is InvalidInput,
        aborting matches Err(f) ==> f.code is InvalidInput,
{
}

/// A writer is closed once the service closed it.  One that could not be closed stays
/// as it was, and says why.
pub proof fn law_closing_closes(
    writer: &mut OdWriter,
    outcome: Result<(), ServiceError>,
    result: Result<(), Failure>,
)
    requires
        call_ensures(OdWriter::after_close, (writer, outcome), result),
    ensures
        final(writer).path == old(writer).path,
        final(writer).concurrent == old(writer).concurrent,
        final(writer).chunk == old(writer).chunk,
        outcome is Ok ==> final(writer).closed && result is Ok,
        outcome matches Err(e) ==> final(writer).closed == old(writer).closed && (
        result matches Err(f) && f.message@ == e.message@ && f.code == e.kind.category()),
{
}

/// A listing goes ahead exactly where there is an operator that can list and a path.
pub proof fn law_listings_need_an_operator_and_a_path(
    op: Option<&OdOperator>,
    path: CText,
    recursive: u8,
    outcome: Result<ListRequest, Failure>,
)
    requires
        call_ensures(lister::od_list, (op, &path, recursive), outcome),
    ensures
        outcome is Ok <==> op is Some && op->0.cap.list && path.text() is Some,
        outcome matches Ok(r) ==> Some(r.path@) == path.text() && (r.recursive <==> recursive
            != 0),
        outcome matches Err(f) ==> if op is Some && !(path is Null) && !op->0.cap.list {
            says_unsupported(f, op->0.scheme@, "list"@)
        } else {
            f.code is InvalidInput
        },
{
}

/// The entries of a listing are shown in its order, each with its own path and
/// metadata.
pub proof fn law_listed_entries_are_shown(
    list: Option<&OdEntryList>,
    index: usize,
    has_output: bool,
    outcome: Result<OdEntry, Failure>,
)
    requires
        call_ensures(lister::od_list_entry, (list, index, has_output), outcome),
    ensures
        outcome is Ok <==> list is Some && has_output && index < list->0.entries@.len(),
        outcome matches Ok(shown) ==> {
            let path = list->0.entries@[index as int].0;
            let metadata = list->0.entries@[index as int].1;
            &&& !path@.contains('\0') ==> shown.path@ == path@
            &&& shown.content_length == metadata.content_length
            &&& metadata.last_modified_ms matches Some(ms) ==> shown.last_modified_ms == ms
            &&& metadata.last_modified_ms is None ==> shown.last_modified_ms == -1
            &&& metadata.mode is Dir ==> shown.is_dir == 1
            &&& !(metadata.mode is Dir) ==> shown.is_dir == 0
        },
        outcome matches Err(f) ==> f.code is InvalidInput,
{
}

/// The path of a directory ends in one `/` more, unless it ends in one already.
pub proof fn law_directories_end_in_a_slash(path: &str, directory: String)
    requires
        call_ensures(mutate::as_directory, (path,), directory),
    ensures
        directory@.len() > 0,
        directory@.last() == '/',
        directory@ == path@ || directory@ == path@ + seq!['/'],
        path@.len() > 0 && path@.last() == '/' ==> directory@ == path@,
{
    assert(path@.push('/') =~= path@ + seq!['/']);
}

/// A directory is made exactly where an operator can make one at a path, and what is
/// made is a directory.
pub proof fn law_made_directories(
    op: Option<&OdOperator>,
    plain: Option<&OdopOperator>,
    path: CText,
    outcome: Result<String, Failure>,
    other: Result<String, Failure>,
)
    requires
        call_ensures(mutate::od_create_dir, (op, &path), outcome),
        call_ensures(mutate::odop_create_dir, (plain, &path), other),
    ensures
        outcome is Ok <==> op is Some && op->0.cap.create_dir && path.text() is Some,
        other is Ok <==> plain is Some && path.text() is Some,
        outcome matches Ok(directory) ==> directory@.len() > 0 && directory@.last() == '/' && (
        directory@ == path.text()->0 || directory@ == path.text()->0 + seq!['/']),
        other matches Ok(directory) ==> directory@.len() > 0 && directory@.last() == '/' && (
        directory@ == path.text()->0 || directory@ == path.text()->0 + seq!['/']),
        outcome matches Err(f) ==> if op is Some && !op->0.cap.create_dir {
            says_unsupported(f, op->0.scheme@, "create_dir"@)
        } else {
            f.code is InvalidInput
        },
        other matches Err(f) ==> f.code is InvalidInput,
{
    if path.text() is Some {
        let p = path.text()->0;
        assert(p.push('/') =~= p + seq!['/']);
    }
}

/// What is removed is the path that was named, with all below it where asked for.
pub proof fn law_removals(
    op: Option<&OdOperator>,
    plain: Option<&OdopOperator>,
    path: CText,
    recursive: u8,
    outcome: Result<(String, bool), Failure>,
    other: Result<(String, bool), Failure>,
)
    requires
        call_ensures(mutate::od_remove, (op, &path, recursive), outcome),
        call_ensures(mutate::odop_remove, (plain, &path, recursive), other),
    ensures
        outcome is Ok <==> op is Some && op->0.cap.delete && path.text() is Some,
        other is Ok <==> plain is Some && path.text() is Some,
        outcome matches Ok(r) ==> Some(r.0@) == path.text() && (r.1 <==> recursive != 0),
        other matches Ok(r) ==> Some(r.0@) == path.text() && (r.1 <==> recursive != 0),
        outcome matches Err(f) ==> if op is Some && !op->0.cap.delete {
            says_unsupported(f, op->0.scheme@, "delete"@)
        } else {
            f.code is InvalidInput
        },
        other matches Err(f) ==> f.code is InvalidInput,
{
}

/// What is renamed or copied goes from the first path to the second.
pub proof fn law_moves_go_from_first_to_second(
    op: Option<&OdOperator>,
    plain: Option<&OdopOperator>,
    from: CText,
    to: CText,
    renamed: Result<(String, String), Failure>,
    copied: Result<(String, String), Failure>,
    other: Result<(String, String), Failure>,
)
    requires
        call_ensures(mutate::od_rename, (op, &from, &to), renamed),
        call_ensures(mutate::od_copy, (op, &from, &to), copied),
        call_ensures(mutate::odop_rename, (plain, &from, &to), other),
    ensures
        ({
            let both = from.text() is Some && to.text() is Some;
            &&& renamed is Ok <==> op is Some && op->0.cap.rename && both
            &&& copied is Ok <==> op is Some && op->0.cap.copy && both
            &&& other is Ok <==> plain is Some && both
            &&& renamed matches Ok(r) ==> Some(r.0@) == from.text() && Some(r.1@) == to.text()
            &&& copied matches Ok(r) ==> Some(r.0@) == from.text() && Some(r.1@) == to.text()
            &&& other matches Ok(r) ==> Some(r.0@) == from.text() && Some(r.1@) == to.text()
            &&& renamed matches Err(f) ==> if op is Some && !op->0.cap.rename {
                says_unsupported(f, op->0.scheme@, "rename"@)
            } else {
                f.code is InvalidInput
            }
            &&& copied matches Err(f) ==> if op is Some && !op->0.cap.copy {
                says_unsupported(f, op->0.scheme@, "copy"@)
            } else {
                f.code is InvalidInput
            }
            &&& other matches Err(f) ==> f.code is InvalidInput
        }),
{
}

/// The name of a listed entry is the name that its row has.
pub proof fn law_listed_names_are_row_names(
    path: String,
    text: &str,
    metadata: Metadata,
    row: OwnedRow,
    shown: OdEntry,
)
    requires
        text@ == path@,
        call_ensures(OwnedRow::from_parts, (path, metadata), Ok::<OwnedRow, String>(row)),
        call_ensures(OdEntry::of, (text, &metadata), shown),
    ensures
        shown.path@ == row.path@,
        shown.name@ == row.name@,
        shown.content_length == row.content_length,
        shown.is_dir == 1 <==> row.mode == 2,
{
    entry::law_rows_hold_no_nul(row, path@, metadata);
}

} // verus!
