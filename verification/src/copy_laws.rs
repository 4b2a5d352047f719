//! What holds of every copy, from its first state to its last.

use vstd::prelude::*;

use crate::copy;
use crate::copy::{CopyJob, CopyReply, CopyState};
use crate::entry::Metadata;
use crate::error::ServiceError;

verus! {

/// Whether a copy can go from one state to another.
pub open spec fn goes(job: CopyJob, before: CopyState, after: CopyState) -> bool {
    exists|reply: CopyReply| #[trigger]
        copy::answers(before, reply) && copy::follows(job, before, reply, after)
}

/// Whether states are those of a copy from its start on.
pub open spec fn is_run(job: CopyJob, states: Seq<CopyState>) -> bool
    decreases states.len(),
{
    if states.len() <= 1 {
        states.len() == 1 && states[0] is StatSource
    } else {
        is_run(job, states.drop_last()) && goes(job, states[states.len() - 2], states.last())
    }
}

/// The ranges that were written, in order.
pub open spec fn written(job: CopyJob, states: Seq<CopyState>) -> Seq<(u64, u64)>
    decreases states.len(),
{
    if states.len() <= 1 {
        Seq::empty()
    } else {
        let before = written(job, states.drop_last());
        match states[states.len() - 2] {
            CopyState::Writing { size, offset } => if states.last() is AbortingWriter {
                before
            } else {
                before.push((offset, job.chunk_end(size, offset)))
            },
            _ => before,
        }
    }
}

/// Whether ranges cover everything below `end` once and in order, none of them
/// empty or longer than `chunk`.
pub open spec fn tile(ranges: Seq<(u64, u64)>, end: u64, chunk: nat) -> bool
    decreases ranges.len(),
{
    if ranges.len() == 0 {
        end == 0
    } else {
        let (from, to) = ranges.last();
        to == end && from < to && to - from <= chunk && tile(ranges.drop_last(), from, chunk)
    }
}

/// Whether a state belongs to a transfer whose writer is open, or comes after.
pub open spec fn writer_was_opened(state: CopyState) -> bool {
    ||| state is Reading
    ||| state is Writing
    ||| state is ClosingWriter
    ||| state is AbortingWriter
    ||| state is Describing
}

/// Whether a copy through a writer began with a source of `size` bytes.
pub open spec fn began_with(states: Seq<CopyState>, size: u64) -> bool {
    states.len() >= 2 && states[1] == (CopyState::OpenReader { size })
}

/// What holds in each state of a copy through a writer.
spec fn progress(job: CopyJob, states: Seq<CopyState>) -> bool {
    let ranges = written(job, states);
    match states.last() {
        CopyState::Reading { size, offset } => {
            &&& offset < size
            &&& tile(ranges, offset, job.chunk())
            &&& began_with(states, size)
        },
        CopyState::Writing { size, offset } => {
            &&& offset < size
            &&& tile(ranges, offset, job.chunk())
            &&& began_with(states, size)
        },
        CopyState::ClosingWriter { size } => {
            &&& tile(ranges, size, job.chunk())
            &&& began_with(states, size)
        },
        CopyState::StatDestination { bytes, .. } => !job.native ==> {
            &&& tile(ranges, bytes, job.chunk())
            &&& began_with(states, bytes)
        },
        CopyState::StatSource => states.len() == 1 && ranges.len() == 0,
        CopyState::OpenReader { size } => {
            &&& !job.native
            &&& ranges.len() == 0
            &&& began_with(states, size)
        },
        CopyState::OpenWriter { size } => {
            &&& !job.native
            &&& ranges.len() == 0
            &&& began_with(states, size)
        },
        CopyState::OpenCopier { .. } => job.native,
        CopyState::Copying { .. } => job.native,
        CopyState::ClosingCopier { .. } => job.native,
        _ => true,
    }
}

proof fn lemma_progress(job: CopyJob, states: Seq<CopyState>)
    requires
        is_run(job, states),
        job.options.wf(),
    ensures
        progress(job, states),
    decreases states.len(),
{
    if states.len() > 1 {
        let front = states.drop_last();
        lemma_progress(job, front);
        let before = states[states.len() - 2];
        let after = states.last();
        assert(front.last() == before);
        assert(front.len() >= 2 ==> front[1] == states[1]);
        let reply = choose|reply: CopyReply| #[trigger]
            copy::answers(before, reply) && copy::follows(job, before, reply, after);
        match before {
            CopyState::Writing { size, offset } => {
                let end = job.chunk_end(size, offset);
                let ranges = written(job, front).push((offset, end));
                assert(ranges.drop_last() =~= written(job, front));
                assert(tile(ranges, end, job.chunk()));
            },
            _ => {},
        }
    }
}

/// A copy through a writer writes the whole source: when it is committed, the
/// written ranges cover every byte below the size that the source was found to
/// have, once and in order, and that is what is counted.
pub proof fn law_streams_copy_everything(job: CopyJob, states: Seq<CopyState>)
    requires
        is_run(job, states),
        job.options.wf(),
        !job.native,
        states.last() is StatDestination,
    ensures
        began_with(states, states.last()->StatDestination_bytes),
        tile(written(job, states), states.last()->StatDestination_bytes, job.chunk()),
{
    lemma_progress(job, states);
}

/// A row is shown only after the destination is committed: its copier or its
/// writer was closed, and then the destination was looked at.
pub proof fn law_rows_follow_commits(job: CopyJob, states: Seq<CopyState>)
    requires
        is_run(job, states),
        states.last() is Copied,
    ensures
        states.len() >= 3,
        states[states.len() - 2] is StatDestination,
        states[states.len() - 3] is ClosingCopier || states[states.len() - 3] is ClosingWriter,
        states.last()->Copied_bytes == states[states.len() - 2]->StatDestination_bytes,
{
    let front = states.drop_last();
    assert(goes(job, states[states.len() - 2], states.last()));
    assert(states[states.len() - 2] is StatDestination);
    assert(is_run(job, front));
    assert(front.last() == states[states.len() - 2]);
    assert(front.len() > 1);
    assert(goes(job, front[front.len() - 2], front.last()));
}

/// A copy that fails after its writer was opened either had the writer aborted,
/// just before or just before the failure of that was described, or was already
/// committed.
pub proof fn law_failed_transfers_are_aborted(job: CopyJob, states: Seq<CopyState>, i: int)
    requires
        is_run(job, states),
        0 <= i < states.len(),
        writer_was_opened(states[i]),
        states.last() is Failed,
    ensures
        states.len() >= 2,
        ({
            let before = states[states.len() - 2];
            ||| before is AbortingWriter
            ||| before is Describing && states.len() >= 3 && states[states.len() - 3]
                is AbortingWriter
            ||| before is StatDestination
        }),
{
    let front = states.drop_last();
    lemma_opened_stays(job, front, i);
    assert(front.last() == states[states.len() - 2]);
    assert(goes(job, states[states.len() - 2], states.last()));
    assert(is_run(job, front));
    if front.last() is Describing {
        assert(front.len() > 1);
        assert(goes(job, front[front.len() - 2], front.last()));
    }
}

/// A failed abort never takes the place of the error that led to it: what is reported
/// has the category of the primary error, and either its text, or the text of that
/// error with the abort's own error added to its context.
pub proof fn law_primary_errors_are_kept(job: CopyJob, states: Seq<CopyState>, i: int)
    requires
        is_run(job, states),
        0 <= i < states.len(),
        states[i] is AbortingWriter,
        states.last() is Failed,
    ensures
        ({
            let primary = states[i]->AbortingWriter_primary;
            let failure = states.last()->Failed_0;
            ||| states.len() == i + 2 && failure.is(primary.kind.category(), primary.message@)
            ||| states.len() == i + 3 && failure.code == primary.kind.category() && (states[i + 1]
                matches CopyState::Describing { primary: kept, context } && kept == primary
                && context.0@ == copy::ABORT_ERROR@)
        }),
{
    lemma_after_abort(job, states, i);
}

/// A writer is aborted once at most.
pub proof fn law_writers_are_aborted_once(job: CopyJob, states: Seq<CopyState>, i: int, j: int)
    requires
        is_run(job, states),
        0 <= i < states.len(),
        0 <= j < states.len(),
        states[i] is AbortingWriter,
        states[j] is AbortingWriter,
    ensures
        i == j,
{
    if i < j {
        lemma_after_abort(job, states, i);
    } else if j < i {
        lemma_after_abort(job, states, j);
    }
}

/// After an abort a copy fails, at once or once the failure of the abort is described.
proof fn lemma_after_abort(job: CopyJob, states: Seq<CopyState>, i: int)
    requires
        is_run(job, states),
        0 <= i < states.len(),
        states[i] is AbortingWriter,
    ensures
        states.len() <= i + 3,
        states.len() >= i + 2 ==> {
            let primary = states[i]->AbortingWriter_primary;
            match states[i + 1] {
                CopyState::Failed(f) => states.len() == i + 2 && f.is(
                    primary.kind.category(),
                    primary.message@,
                ),
                CopyState::Describing { primary: kept, context } => kept == primary && context.0@
                    == copy::ABORT_ERROR@,
                _ => false,
            }
        },
        states.len() == i + 3 ==> (states[i + 2] matches CopyState::Failed(f) && f.code
            == states[i]->AbortingWriter_primary.kind.category()),
    decreases states.len(),
{
    if i < states.len() - 1 {
        let front = states.drop_last();
        assert(front[i] == states[i]);
        lemma_after_abort(job, front, i);
        assert(front.last() == states[states.len() - 2]);
        assert(goes(job, states[states.len() - 2], states.last()));
        if front.len() >= i + 2 {
            assert(front[i + 1] == states[i + 1]);
        }
        if front.len() >= i + 3 {
            assert(front[i + 2] == states[i + 2]);
        }
    }
}

/// Once a writer is open, a copy goes on writing, aborts, or is committed.
proof fn lemma_opened_stays(job: CopyJob, states: Seq<CopyState>, i: int)
    requires
        is_run(job, states),
        0 <= i < states.len(),
        writer_was_opened(states[i]),
    ensures
        ({
            let last = states.last();
            ||| writer_was_opened(last)
            ||| last is StatDestination
            ||| last is Failed
            ||| last is Copied
        }),
    decreases states.len(),
{
    if i < states.len() - 1 {
        let front = states.drop_last();
        assert(front[i] == states[i]);
        lemma_opened_stays(job, front, i);
        assert(front.last() == states[states.len() - 2]);
        assert(goes(job, states[states.len() - 2], states.last()));
    }
}

/// A copier that fails while it is drained is aborted before the failure is
/// reported.
pub proof fn law_failed_copiers_are_aborted(job: CopyJob, before: CopyState, after: CopyState)
    requires
        before is Copying,
        goes(job, before, after),
    ensures
        after is Copying || after is ClosingCopier || after is AbortingCopier,
{
}

/// A hint that differs from the size of the source stops the copy before anything
/// is opened.
pub proof fn law_wrong_hints_stop_copies(
    job: CopyJob,
    metadata: Metadata,
    after: CopyState,
)
    requires
        copy::follows(job, CopyState::StatSource, CopyReply::Metadata(metadata), after),
        job.options.source_content_length_hint matches Some(hint) && hint
            != metadata.content_length,
    ensures
        after is Failed,
{
}

/// A service's own copy counts at least the bytes of the source.
pub proof fn law_native_copies_count_the_source(
    job: CopyJob,
    size: u64,
    copied: u64,
    metadata: Metadata,
    after: CopyState,
)
    requires
        copy::follows(
            job,
            CopyState::ClosingCopier { size, copied },
            CopyReply::Closed(metadata),
            after,
        ),
    ensures
        after is StatDestination,
        after->StatDestination_bytes >= size,
        after->StatDestination_bytes >= copied,
{
}

/// A committed copy is never reported as failed because its destination cannot be
/// looked at: the outcome is the same as if the service had repeated what it said
/// when it committed.
pub proof fn law_commits_outlive_failed_stats(
    job: CopyJob,
    bytes: u64,
    completion: Metadata,
    error: ServiceError,
    after: CopyState,
)
    requires
        copy::follows(
            job,
            CopyState::StatDestination { bytes, completion },
            CopyReply::Failed(error),
            after,
        ),
    ensures
        copy::follows(
            job,
            CopyState::StatDestination { bytes, completion },
            CopyReply::Metadata(completion),
            after,
        ),
{
}

} // verus!
