//! Copies.

use vstd::prelude::*;

use crate::copy;
use crate::copy::{
    CopyJob, CopyMachine, CopyOptions, CopyReply, CopyState, OdCopyCursor, OdCopyOptions,
    ReaderOptions, WriteOptions,
};
use crate::entry::{Metadata, OwnedRow};
use crate::error::{Failure, OdErrorCode, ServiceError};
use crate::ffi::CText;
use crate::operator::OdOperator;
use crate::text;

verus! {

/// Whether a copy went through `states`, from its start on, on these replies.
pub open spec fn is_trace(job: CopyJob, states: Seq<CopyState>, replies: Seq<CopyReply>) -> bool {
    &&& states.len() == replies.len() + 1
    &&& states[0] is StatSource
    &&& forall|i: int|
        #![trigger replies[i]]
        0 <= i < replies.len() ==> copy::answers(states[i], replies[i]) && copy::follows(
            job,
            states[i],
            replies[i],
            states[i + 1],
        )
}

/// The bytes that a copier reported, all together.
pub open spec fn reported(replies: Seq<CopyReply>) -> nat
    decreases replies.len(),
{
    if replies.len() == 0 {
        0
    } else {
        reported(replies.drop_last()) + match replies.last() {
            CopyReply::Bytes(bytes) => bytes as nat,
            _ => 0,
        }
    }
}

/// The size that the source was found to have.
pub open spec fn found_size(replies: Seq<CopyReply>) -> Option<u64> {
    match replies[0] {
        CopyReply::Metadata(metadata) => Some(metadata.content_length),
        _ => None,
    }
}

/// Whether `bytes` is the larger of what was reported and what was found.
pub open spec fn is_larger(bytes: u64, replies: Seq<CopyReply>) -> bool {
    &&& found_size(replies) matches Some(size) && bytes >= size && (bytes == size || bytes
        == reported(replies))
    &&& bytes >= reported(replies)
}

/// What a trace has come to.
spec fn has_counted(job: CopyJob, states: Seq<CopyState>, replies: Seq<CopyReply>) -> bool {
    let begun = replies.len() > 0;
    match states.last() {
        CopyState::StatSource => replies.len() == 0,
        CopyState::OpenCopier { size } => begun && job.native && found_size(replies) == Some(size)
            && reported(replies) == 0,
        CopyState::Copying { size, copied } => begun && job.native && found_size(replies) == Some(
            size,
        ) && reported(replies) == copied,
        CopyState::ClosingCopier { size, copied } => begun && job.native && found_size(replies)
            == Some(size) && reported(replies) == copied,
        CopyState::OpenReader { size } => begun && !job.native && found_size(replies) == Some(size),
        CopyState::OpenWriter { size } => begun && !job.native && found_size(replies) == Some(size),
        CopyState::Reading { size, .. } => begun && !job.native && found_size(replies) == Some(
            size,
        ),
        CopyState::Writing { size, .. } => begun && !job.native && found_size(replies) == Some(
            size,
        ),
        CopyState::ClosingWriter { size } => begun && !job.native && found_size(replies) == Some(
            size,
        ),
        CopyState::StatDestination { bytes, completion } => {
            &&& replies.len() > 1
            &&& replies.last() == CopyReply::Closed(completion)
            &&& job.native ==> is_larger(bytes, replies)
            &&& !job.native ==> found_size(replies) == Some(bytes)
        },
        CopyState::Copied { bytes, .. } => {
            &&& replies.len() > 2
            &&& replies[replies.len() - 2] is Closed
            &&& replies.last() is Metadata || replies.last() is Failed
            &&& job.native ==> is_larger(bytes, replies)
            &&& !job.native ==> found_size(replies) == Some(bytes)
        },
        _ => true,
    }
}

proof fn lemma_trace(job: CopyJob, states: Seq<CopyState>, replies: Seq<CopyReply>)
    requires
        is_trace(job, states, replies),
    ensures
        has_counted(job, states, replies),
    decreases replies.len(),
{
    if replies.len() > 0 {
        let n = replies.len() - 1;
        let before = states.drop_last();
        let front = replies.drop_last();
        assert forall|i: int| #![trigger front[i]] 0 <= i < front.len() implies copy::answers(
            before[i],
            front[i],
        ) && copy::follows(job, before[i], front[i], before[i + 1]) by {
            assert(front[i] == replies[i]);
            assert(before[i] == states[i]);
            assert(before[i + 1] == states[i + 1]);
        }
        lemma_trace(job, before, front);
        assert(before.last() == states[n]);
        assert(states.last() == states[n + 1]);
        assert(replies[n] == replies.last());
        assert(copy::follows(job, states[n], replies[n], states[n + 1]));
        if n > 0 {
            assert(front[0] == replies[0]);
            assert(front.last() == replies[n - 1]);
            assert(found_size(front) == found_size(replies));
        } else {
            assert(reported(front) == 0);
        }
        match states[n] {
            CopyState::StatDestination { bytes, completion } => {
                assert(reported(replies) == reported(front));
                assert(states.last() is Copied || states.last() is Failed);
            },
            CopyState::ClosingCopier { size, copied } => {
                assert(reported(replies) == reported(front));
            },
            CopyState::Copying { size, copied } => {},
            _ => {},
        }
    }
}

/// A completed copy counts its bytes.  Where the service copied by itself, they are
/// the larger of what its copier reported and the size of the source: at least both,
/// and one of the two.  Where the bytes went through a reader and a writer, they are
/// the size of the source.
pub proof fn law_completed_copies_count_their_bytes(
    job: CopyJob,
    states: Seq<CopyState>,
    replies: Seq<CopyReply>,
    source: Metadata,
)
    requires
        is_trace(job, states, replies),
        states.last() is Copied,
        replies[0] == CopyReply::Metadata(source),
    ensures
        ({
            let bytes = states.last()->Copied_bytes;
            &&& job.native ==> bytes >= source.content_length && bytes >= reported(replies) && (
            bytes == source.content_length || bytes == reported(replies))
            &&& job.native && reported(replies) == source.content_length ==> bytes
                == source.content_length
            &&& !job.native ==> bytes == source.content_length
        }),
{
    lemma_trace(job, states, replies);
}

/// A copy ends in a row only after it looked at its source and was committed, and the
/// row shows the destination: as it was found afterwards, or, where that look failed,
/// as it was committed.
pub proof fn law_completed_copies_show_the_destination(
    job: CopyJob,
    states: Seq<CopyState>,
    replies: Seq<CopyReply>,
    shown: Metadata,
)
    requires
        is_trace(job, states, replies),
        states.last() is Copied,
        match replies.last() {
            CopyReply::Metadata(found) => shown == found,
            _ => replies[replies.len() - 2] == CopyReply::Closed(shown),
        },
    ensures
        replies[0] is Metadata,
        replies[replies.len() - 2] is Closed,
        states.last()->Copied_row.path@ == job.destination@,
        states.last()->Copied_row.content_length == shown.content_length,
        states.last()->Copied_row.content_type == shown.content_type,
        states.last()->Copied_row.etag == shown.etag,
        states.last()->Copied_row.version == shown.version,
{
    lemma_trace(job, states, replies);
    let n = replies.len() - 1;
    let before = states.drop_last();
    let front = replies.drop_last();
    assert forall|i: int| #![trigger front[i]] 0 <= i < front.len() implies copy::answers(
        before[i],
        front[i],
    ) && copy::follows(job, before[i], front[i], before[i + 1]) by {
        assert(front[i] == replies[i]);
        assert(before[i] == states[i]);
        assert(before[i + 1] == states[i + 1]);
    }
    lemma_trace(job, before, front);
    assert(copy::answers(states[n], replies[n]));
    assert(copy::follows(job, states[n], replies[n], states[n + 1]));
    assert(before.last() == states[n]);
    assert(front.last() == replies[n - 1]);
    assert(front[0] == replies[0]);
}

/// A chunk begins where the last one ended, holds something, stays within the source
/// and is full, unless it is the last.  Without a chunk size it is 8 MiB.
pub proof fn law_chunks_are_full(machine: CopyMachine, size: u64, offset: u64, range: (u64, u64))
    requires
        call_ensures(CopyMachine::range, (&machine, size, offset), range),
        offset < size,
        machine.job.options.chunk matches Some(chunk) ==> chunk > 0,
    ensures
        ({
            let chunk: int = match machine.job.options.chunk {
                Some(chunk) => chunk as int,
                None => 8 * 0x10_0000int,
            };
            &&& range.0 == offset
            &&& offset < range.1 <= size
            &&& range.1 - range.0 <= chunk
            &&& range.1 == size || range.1 - range.0 == chunk
        }),
{
}

/// What is written of a source is what was read of it: after a chunk the next one is
/// read, and after the last one the writer is closed.
pub proof fn law_chunks_follow_each_other(
    machine: CopyMachine,
    size: u64,
    offset: u64,
    range: (u64, u64),
    after: CopyState,
)
    requires
        call_ensures(CopyMachine::range, (&machine, size, offset), range),
        offset < size,
        copy::follows(
            machine.job,
            CopyState::Writing { size, offset },
            CopyReply::Written,
            after,
        ),
    ensures
        range.1 < size ==> after == (CopyState::Reading { size, offset: range.1 }),
        range.1 >= size ==> after == (CopyState::ClosingWriter { size }),
{
}

/// Where a copy goes once the size of its source is known: nowhere on a wrong hint,
/// to the service's copier where there is one, and to a reader where both ends can do
/// their part.
pub proof fn law_copies_are_routed(job: CopyJob, source: Metadata, after: CopyState)
    requires
        copy::follows(job, CopyState::StatSource, CopyReply::Metadata(source), after),
    ensures
        ({
            let size = source.content_length;
            let wrong = job.options.source_content_length_hint is Some
                && job.options.source_content_length_hint != Some(size);
            &&& after == (CopyState::OpenCopier { size }) <==> !wrong && job.native
            &&& after == (CopyState::OpenReader { size }) <==> !wrong && !job.native && job.can_read
                && job.can_write
            &&& after is Failed <==> wrong || (!job.native && !(job.can_read && job.can_write))
            &&& after matches CopyState::Failed(f) ==> f.code == if wrong {
                OdErrorCode::InvalidInput
            } else {
                OdErrorCode::Unsupported
            }
        }),
{
}

/// A refusal names the end that cannot do its part, the source first.
pub proof fn law_missing_capabilities_are_named(job: CopyJob, source: Metadata, after: CopyState)
    requires
        copy::follows(job, CopyState::StatSource, CopyReply::Metadata(source), after),
        job.options.source_content_length_hint is None,
        !job.native,
        !(job.can_read && job.can_write),
    ensures
        after matches CopyState::Failed(f) && f.message@ == if !job.can_read {
            "service '"@ + job.source_scheme@ + "' does not support read"@
        } else {
            "service '"@ + job.destination_scheme@ + "' does not support write"@
        },
{
    reveal_strlit("' does not support ");
    reveal_strlit("' does not support read");
    reveal_strlit("' does not support write");
    reveal_strlit("read");
    reveal_strlit("write");
    assert("' does not support read"@ =~= "' does not support "@ + "read"@);
    assert("' does not support write"@ =~= "' does not support "@ + "write"@);
}

/// Before anything was opened, and once the destination is being opened, an error of
/// the service is the error of the copy.
pub proof fn law_early_errors_are_surfaced(
    job: CopyJob,
    before: CopyState,
    error: ServiceError,
    after: CopyState,
)
    requires
        before is StatSource || before is OpenCopier || before is OpenReader
            || before is OpenWriter || before is ClosingCopier,
        copy::follows(job, before, CopyReply::Failed(error), after),
    ensures
        after matches CopyState::Failed(f) && f.message@ == error.message@ && f.code
            == error.kind.category(),
{
}

/// A failed copier is aborted first, and what comes of that changes nothing.
pub proof fn law_copier_errors_are_surfaced(
    job: CopyJob,
    size: u64,
    copied: u64,
    error: ServiceError,
    aborting: CopyState,
    reply: CopyReply,
    after: CopyState,
)
    requires
        copy::follows(
            job,
            CopyState::Copying { size, copied },
            CopyReply::Failed(error),
            aborting,
        ),
        copy::answers(aborting, reply),
        copy::follows(job, aborting, reply, after),
    ensures
        aborting is AbortingCopier,
        after matches CopyState::Failed(f) && f.message@ == error.message@ && f.code
            == error.kind.category(),
{
}

/// Bytes that a copier reports add up, or the copy is given up.
pub proof fn law_reports_add_up(
    job: CopyJob,
    size: u64,
    copied: u64,
    bytes: u64,
    after: CopyState,
)
    requires
        copy::follows(job, CopyState::Copying { size, copied }, CopyReply::Bytes(bytes), after),
    ensures
        copied + bytes <= u64::MAX <==> after is Copying,
        after matches CopyState::Copying { size: s, copied: c } ==> s == size && c == copied + bytes,
        copied + bytes > u64::MAX ==> (after matches CopyState::AbortingCopier { failure }
            && failure.code == OdErrorCode::Unexpected && failure.message@
            == "copy byte count overflow"@),
{
}

/// A failed transfer aborts its writer and then fails with what went wrong first.  An
/// abort that fails too is only added to that.
pub proof fn law_transfer_errors_are_surfaced(
    job: CopyJob,
    before: CopyState,
    error: ServiceError,
    aborting: CopyState,
    after: CopyState,
    text: String,
    described: CopyState,
    words: String,
    end: CopyState,
)
    requires
        before is Reading || before is Writing || before is ClosingWriter,
        copy::follows(job, before, CopyReply::Failed(error), aborting),
        copy::follows(job, aborting, CopyReply::Aborted, after),
        copy::follows(job, aborting, CopyReply::AbortFailed(text), described),
        copy::follows(job, described, CopyReply::Described(words), end),
    ensures
        aborting is AbortingWriter,
        after matches CopyState::Failed(f) && f.message@ == error.message@ && f.code
            == error.kind.category(),
        described matches CopyState::Describing { primary, context } && primary == error
            && context.0@ == "abort_error"@ && context.1@ == text@,
        end matches CopyState::Failed(f) && f.message@ == words@ && f.code
            == error.kind.category(),
{
}

/// An opened copy takes its source and what can be read from one operator, its
/// destination and what can be written from the other, and the rest from its options.
pub proof fn law_opened_copies_hold_what_was_asked(
    source_op: OdOperator,
    source: CText,
    destination_op: OdOperator,
    destination: CText,
    same_operator: bool,
    raw: OdCopyOptions,
    machine: CopyMachine,
)
    requires
        call_ensures(
            copy::od_table_copy_open,
            (
                Some(&source_op),
                &source,
                Some(&destination_op),
                &destination,
                same_operator,
                &raw,
            ),
            Ok::<CopyMachine, Failure>(machine),
        ),
    ensures
        machine.state is StatSource,
        Some(machine.job.source@) == source.text(),
        Some(machine.job.destination@) == destination.text(),
        machine.job.native <==> same_operator && source_op.cap.copy,
        machine.job.can_read == source_op.cap.read,
        machine.job.can_write == destination_op.cap.write,
        machine.job.source_scheme@ == source_op.scheme@,
        machine.job.destination_scheme@ == destination_op.scheme@,
        machine.job.options.if_not_exists <==> raw.if_not_exists != 0,
        text::optional_text(machine.job.options.if_match) == raw.if_match.text(),
        text::optional_text(machine.job.options.source_version) == raw.source_version.text(),
        raw.has_source_content_length_hint != 0 ==> machine.job.options.source_content_length_hint
            == Some(raw.source_content_length_hint),
        raw.has_source_content_length_hint == 0
            ==> machine.job.options.source_content_length_hint is None,
        raw.has_concurrent != 0 ==> raw.concurrent > 0 && machine.job.options.concurrent
            == raw.concurrent,
        raw.has_concurrent == 0 ==> machine.job.options.concurrent == 0,
        raw.has_chunk_size != 0 ==> raw.chunk_size > 0 && machine.job.options.chunk == Some(
            raw.chunk_size,
        ),
        raw.has_chunk_size == 0 ==> machine.job.options.chunk is None,
{
}

/// A copy is refused before it starts only as bad input: without an operator or a
/// path, with text that is none, or with a zero where a number has to be positive.
pub proof fn law_refused_copies(
    source_op: Option<&OdOperator>,
    source: CText,
    destination_op: Option<&OdOperator>,
    destination: CText,
    same_operator: bool,
    raw: OdCopyOptions,
    outcome: Result<CopyMachine, Failure>,
)
    requires
        call_ensures(
            copy::od_table_copy_open,
            (source_op, &source, destination_op, &destination, same_operator, &raw),
            outcome,
        ),
    ensures
        outcome is Err <==> source_op is None || destination_op is None || source.text() is None
            || destination.text() is None || (raw.has_concurrent != 0 && raw.concurrent == 0) || (
        raw.has_chunk_size != 0 && raw.chunk_size == 0) || raw.if_match is NotUtf8
            || raw.source_version is NotUtf8,
        outcome matches Err(f) ==> f.code == OdErrorCode::InvalidInput,
{
}

/// A reader, a writer and the service's own copier are opened with the options of the
/// copy and the size that was found.
pub proof fn law_ends_are_opened_as_asked(
    machine: CopyMachine,
    size: u64,
    reader: ReaderOptions,
    writer: WriteOptions,
    copier: CopyOptions,
)
    requires
        call_ensures(CopyMachine::reader_options, (&machine, size), reader),
        call_ensures(CopyMachine::write_options, (&machine,), writer),
        call_ensures(CopyMachine::copier_options, (&machine, size), copier),
    ensures
        text::optional_text(reader.version) == text::optional_text(
            machine.job.options.source_version,
        ),
        reader.content_length_hint == size,
        reader.concurrent >= 1,
        machine.job.options.concurrent > 0 ==> reader.concurrent == machine.job.options.concurrent,
        machine.job.options.concurrent == 0 ==> reader.concurrent == 1,
        reader.chunk == machine.job.options.chunk,
        writer.if_not_exists == machine.job.options.if_not_exists,
        text::optional_text(writer.if_match) == text::optional_text(machine.job.options.if_match),
        writer.concurrent == machine.job.options.concurrent,
        writer.chunk == machine.job.options.chunk,
        copier.if_not_exists == machine.job.options.if_not_exists,
        text::optional_text(copier.if_match) == text::optional_text(machine.job.options.if_match),
        text::optional_text(copier.source_version) == text::optional_text(
            machine.job.options.source_version,
        ),
        copier.source_content_length_hint == Some(size),
        copier.concurrent == machine.job.options.concurrent,
        copier.chunk == machine.job.options.chunk,
{
}

/// A copy has an outcome once it came to its end, and only then.
pub proof fn law_outcomes_are_final(
    machine: CopyMachine,
    outcome: Option<Result<OdCopyCursor, Failure>>,
)
    requires
        call_ensures(CopyMachine::outcome, (machine,), outcome),
    ensures
        outcome is Some <==> machine.state is Failed || machine.state is Copied,
        machine.state matches CopyState::Failed(failure) ==> outcome == Some(
            Err::<OdCopyCursor, Failure>(failure),
        ),
        machine.state matches CopyState::Copied { bytes, row } ==> (outcome matches Some(Ok(cursor))
            && (cursor.row matches Some(shown) && shown.0 == bytes && shown.1 == row)),
{
}

/// Every state that asks for something takes what can come of it, and the two last ones
/// take nothing.
pub proof fn law_states_take_what_can_come(
    size: u64,
    offset: u64,
    failure: Failure,
    error: ServiceError,
    metadata: Metadata,
    bytes: u64,
    text: String,
    row: OwnedRow,
    reply: CopyReply,
)
    ensures
        copy::answers(CopyState::StatSource, CopyReply::Metadata(metadata)),
        copy::answers(CopyState::StatSource, CopyReply::Failed(error)),
        copy::answers(CopyState::OpenCopier { size }, CopyReply::Opened),
        copy::answers(CopyState::OpenCopier { size }, CopyReply::Failed(error)),
        copy::answers(CopyState::Copying { size, copied: offset }, CopyReply::Bytes(bytes)),
        copy::answers(CopyState::Copying { size, copied: offset }, CopyReply::Exhausted),
        copy::answers(CopyState::Copying { size, copied: offset }, CopyReply::Failed(error)),
        copy::answers(
            CopyState::ClosingCopier { size, copied: offset },
            CopyReply::Closed(metadata),
        ),
        copy::answers(CopyState::ClosingCopier { size, copied: offset }, CopyReply::Failed(error)),
        copy::answers(CopyState::AbortingCopier { failure }, CopyReply::Aborted),
        copy::answers(CopyState::AbortingCopier { failure }, CopyReply::AbortFailed(text)),
        copy::answers(CopyState::OpenReader { size }, CopyReply::Opened),
        copy::answers(CopyState::OpenReader { size }, CopyReply::Failed(error)),
        copy::answers(CopyState::OpenWriter { size }, CopyReply::Opened),
        copy::answers(CopyState::OpenWriter { size }, CopyReply::Failed(error)),
        copy::answers(CopyState::Reading { size, offset }, CopyReply::Read),
        copy::answers(CopyState::Reading { size, offset }, CopyReply::Failed(error)),
        copy::answers(CopyState::Writing { size, offset }, CopyReply::Written),
        copy::answers(CopyState::Writing { size, offset }, CopyReply::Failed(error)),
        copy::answers(CopyState::ClosingWriter { size }, CopyReply::Closed(metadata)),
        copy::answers(CopyState::ClosingWriter { size }, CopyReply::Failed(error)),
        copy::answers(CopyState::AbortingWriter { primary: error }, CopyReply::Aborted),
        copy::answers(CopyState::AbortingWriter { primary: error }, CopyReply::AbortFailed(text)),
        copy::answers(
            CopyState::StatDestination { bytes, completion: metadata },
            CopyReply::Metadata(metadata),
        ),
        copy::answers(
            CopyState::StatDestination { bytes, completion: metadata },
            CopyReply::Failed(error),
        ),
        !copy::answers(CopyState::Failed(failure), reply),
        !copy::answers(CopyState::Copied { bytes, row }, reply),
{
}

/// A copy goes through its states in order: a copier is drained before it is closed, a
/// reader is opened before a writer, and a chunk is read before it is written.
pub proof fn law_copies_go_in_order(
    job: CopyJob,
    size: u64,
    copied: u64,
    offset: u64,
    draining: CopyState,
    drained: CopyState,
    reading: CopyState,
    begun: CopyState,
    writing: CopyState,
)
    requires
        copy::follows(job, CopyState::OpenCopier { size }, CopyReply::Opened, draining),
        copy::follows(job, CopyState::Copying { size, copied }, CopyReply::Exhausted, drained),
        copy::follows(job, CopyState::OpenReader { size }, CopyReply::Opened, reading),
        copy::follows(job, CopyState::OpenWriter { size }, CopyReply::Opened, begun),
        copy::follows(job, CopyState::Reading { size, offset }, CopyReply::Read, writing),
    ensures
        draining == (CopyState::Copying { size, copied: 0 }),
        drained == (CopyState::ClosingCopier { size, copied }),
        reading == (CopyState::OpenWriter { size }),
        size > 0 ==> begun == (CopyState::Reading { size, offset: 0 }),
        size == 0 ==> begun == (CopyState::ClosingWriter { size }),
        writing == (CopyState::Writing { size, offset }),
{
}

/// A committed copy whose destination cannot be shown fails, and says why.
pub proof fn law_unshowable_destinations_fail(
    job: CopyJob,
    bytes: u64,
    completion: Metadata,
    found: Metadata,
    row: Result<OwnedRow, String>,
    after: CopyState,
)
    requires
        call_ensures(OwnedRow::from_parts, (job.destination, found), row),
        copy::follows(
            job,
            CopyState::StatDestination { bytes, completion },
            CopyReply::Metadata(found),
            after,
        ),
    ensures
        row is Ok <==> after is Copied,
        after matches CopyState::Copied { bytes: b, row: r } ==> b == bytes && r.path@
            == job.destination@,
        row is Err ==> (after matches CopyState::Failed(f) && f.code is Unexpected && f.message@
            == row->Err_0@),
{
}

} // verus!
