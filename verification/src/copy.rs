//! Copies within and across services, as a state machine.
//!
//! The machine decides; whoever drives it performs what a state asks for and
//! reports back.  The source is looked at first.  Where both ends are the same
//! operator and its service copies by itself, its copier is drained; otherwise
//! bounded chunks go from a reader into a writer.  A transfer that fails aborts
//! its destination.  There is a row only after the destination is committed.

use vstd::prelude::*;

use crate::capability;
use crate::capability::require;
use crate::entry;
use crate::entry::{Metadata, OwnedRow};
use crate::error::{Failure, OdErrorCode, ServiceError};
use crate::ffi::{cstr, optional_cstr, CText};
use crate::operator::OdOperator;
use crate::table;
use crate::text;
use crate::text::decimal_text;

verus! {

/// Copy options as received.
pub struct OdCopyOptions {
    pub if_not_exists: u8,
    pub if_match: CText,
    pub source_version: CText,
    pub source_content_length_hint: u64,
    pub has_source_content_length_hint: u8,
    pub concurrent: usize,
    pub has_concurrent: u8,
    pub chunk_size: usize,
    pub has_chunk_size: u8,
}

/// Copy options, decoded.
pub struct CopyOptions {
    pub if_not_exists: bool,
    pub if_match: Option<String>,
    pub source_version: Option<String>,
    pub source_content_length_hint: Option<u64>,
    /// Zero leaves concurrency to the service.
    pub concurrent: usize,
    pub chunk: Option<usize>,
}

/// What is wrong with copy options: the first of them that is wrong.
pub open spec fn copy_options_error(raw: OdCopyOptions) -> Option<Seq<char>> {
    if raw.has_concurrent != 0 && raw.concurrent == 0 {
        Some("copy concurrent must be positive"@)
    } else if raw.has_chunk_size != 0 && raw.chunk_size == 0 {
        Some("copy chunk_size must be positive"@)
    } else {
        entry::either(
            table::decode_error(raw.if_match, "if_match"@),
            table::decode_error(raw.source_version, "source_version"@),
        )
    }
}

impl CopyOptions {
    /// Whether these are the options received.
    pub open spec fn decodes(self, raw: OdCopyOptions) -> bool {
        &&& self.if_not_exists == (raw.if_not_exists != 0)
        &&& text::optional_text(self.if_match) == raw.if_match.text()
        &&& text::optional_text(self.source_version) == raw.source_version.text()
        &&& self.source_content_length_hint == if raw.has_source_content_length_hint != 0 {
            Some(raw.source_content_length_hint)
        } else {
            None
        }
        &&& self.concurrent == if raw.has_concurrent != 0 {
            raw.concurrent
        } else {
            0
        }
        &&& self.chunk == if raw.has_chunk_size != 0 {
            Some(raw.chunk_size)
        } else {
            None
        }
    }

    /// Whether chunks are not empty.
    pub open spec fn wf(self) -> bool {
        self.chunk matches Some(chunk) ==> chunk > 0
    }
}

/// Decode copy options.
pub fn copy_options(raw: &OdCopyOptions) -> (options: Result<CopyOptions, String>)
    ensures
        match copy_options_error(*raw) {
            Some(message) => options matches Err(e) && e@ == message,
            None => options matches Ok(o) && o.decodes(*raw) && o.wf(),
        },
{
    if raw.has_concurrent != 0 && raw.concurrent == 0 {
        return Err("copy concurrent must be positive".to_owned());
    }
    if raw.has_chunk_size != 0 && raw.chunk_size == 0 {
        return Err("copy chunk_size must be positive".to_owned());
    }
    let if_match: Option<String> = match optional_cstr(&raw.if_match, "if_match") {
        Ok(if_match) => if_match,
        Err(message) => {
            return Err(message);
        },
    };
    let source_version: Option<String> = match optional_cstr(
        &raw.source_version,
        "source_version",
    ) {
        Ok(source_version) => source_version,
        Err(message) => {
            return Err(message);
        },
    };
    let source_content_length_hint: Option<u64> = if raw.has_source_content_length_hint != 0 {
        Some(raw.source_content_length_hint)
    } else {
        None
    };
    let concurrent: usize = if raw.has_concurrent != 0 {
        raw.concurrent
    } else {
        0
    };
    let chunk: Option<usize> = if raw.has_chunk_size != 0 {
        Some(raw.chunk_size)
    } else {
        None
    };
    Ok(
        CopyOptions {
            if_not_exists: raw.if_not_exists != 0,
            if_match,
            source_version,
            source_content_length_hint,
            concurrent,
            chunk,
        },
    )
}

/// How a source is read.
pub struct ReaderOptions {
    pub version: Option<String>,
    pub content_length_hint: u64,
    pub concurrent: usize,
    pub chunk: Option<usize>,
}

/// How a destination is written.
pub struct WriteOptions {
    pub if_not_exists: bool,
    pub if_match: Option<String>,
    pub concurrent: usize,
    pub chunk: Option<usize>,
}

/// What to copy, and between what.
pub struct CopyJob {
    pub source: String,
    pub destination: String,
    /// Whether the service copies by itself: both ends are the same operator, and
    /// it can.
    pub native: bool,
    pub source_scheme: String,
    pub can_read: bool,
    pub destination_scheme: String,
    pub can_write: bool,
    pub options: CopyOptions,
}

/// Bytes per chunk where nothing is said of them.
pub const DEFAULT_CHUNK: usize = 0x80_0000;

impl CopyJob {
    /// Bytes per chunk.
    pub open spec fn chunk(self) -> nat {
        match self.options.chunk {
            Some(chunk) => chunk as nat,
            None => DEFAULT_CHUNK as nat,
        }
    }

    /// Where the chunk at `offset` ends.
    pub open spec fn chunk_end(self, size: u64, offset: u64) -> u64 {
        if offset + self.chunk() < size {
            (offset + self.chunk()) as u64
        } else {
            size
        }
    }

    fn end_of_chunk(&self, size: u64, offset: u64) -> (end: u64)
        ensures
            end == self.chunk_end(size, offset),
    {
        let chunk: u64 = match self.options.chunk {
            Some(chunk) => chunk as u64,
            None => DEFAULT_CHUNK as u64,
        };
        match offset.checked_add(chunk) {
            Some(end) => if end < size {
                end
            } else {
                size
            },
            None => size,
        }
    }
}

/// Where a copy stands.  Each state but the last two asks for something.
pub enum CopyState {
    /// Look at the source, in the version asked for.
    StatSource,
    /// Open the service's copier for a source of so many bytes.
    OpenCopier { size: u64 },
    /// Drain the copier.
    Copying { size: u64, copied: u64 },
    /// Close the copier.
    ClosingCopier { size: u64, copied: u64 },
    /// Abort the copier, whatever comes of it.
    AbortingCopier { failure: Failure },
    /// Open a reader of the source.
    OpenReader { size: u64 },
    /// Open a writer of the destination.
    OpenWriter { size: u64 },
    /// Read the chunk at `offset`.
    Reading { size: u64, offset: u64 },
    /// Write the chunk at `offset`.
    Writing { size: u64, offset: u64 },
    /// Close the writer.
    ClosingWriter { size: u64 },
    /// Abort the writer because of `primary`.
    AbortingWriter { primary: ServiceError },
    /// Put `primary` into words with `context` added to it: a key and its value.
    Describing { primary: ServiceError, context: (String, String) },
    /// Look at the destination, which is committed.
    StatDestination { bytes: u64, completion: Metadata },
    /// Nothing was copied.
    Failed(Failure),
    /// So many bytes were copied; the row shows the destination.
    Copied { bytes: u64, row: OwnedRow },
}

/// What came of what a state asked for.
pub enum CopyReply {
    /// What the service says of a path.
    Metadata(Metadata),
    Opened,
    /// The copier moved so many bytes.
    Bytes(u64),
    /// The copier has no more to move.
    Exhausted,
    /// The chunk was read.
    Read,
    /// The chunk was written.
    Written,
    /// The destination is committed.
    Closed(Metadata),
    Aborted,
    /// Aborting failed too; this is the text of its own error.
    AbortFailed(String),
    /// The text of an error with its added context.
    Described(String),
    Failed(ServiceError),
}

/// Whether a reply answers what a state asks for.
pub open spec fn answers(state: CopyState, reply: CopyReply) -> bool {
    match state {
        CopyState::StatSource => reply is Metadata || reply is Failed,
        CopyState::OpenCopier { .. } => reply is Opened || reply is Failed,
        CopyState::Copying { .. } => reply is Bytes || reply is Exhausted || reply is Failed,
        CopyState::ClosingCopier { .. } => reply is Closed || reply is Failed,
        CopyState::AbortingCopier { .. } => reply is Aborted || reply is AbortFailed,
        CopyState::OpenReader { .. } => reply is Opened || reply is Failed,
        CopyState::OpenWriter { .. } => reply is Opened || reply is Failed,
        CopyState::Reading { .. } => reply is Read || reply is Failed,
        CopyState::Writing { .. } => reply is Written || reply is Failed,
        CopyState::ClosingWriter { .. } => reply is Closed || reply is Failed,
        CopyState::AbortingWriter { .. } => reply is Aborted || reply is AbortFailed,
        CopyState::Describing { .. } => reply is Described,
        CopyState::StatDestination { .. } => reply is Metadata || reply is Failed,
        CopyState::Failed(_) => false,
        CopyState::Copied { .. } => false,
    }
}

/// What is said of a hint that differs from the size of the source.
pub open spec fn hint_message(hint: u64, size: u64) -> Seq<char> {
    "source_content_length_hint="@ + text::decimal(hint as nat) + " does not match source size "@
        + text::decimal(size as nat)
}

/// Whether `after` is the surfaced failure of an error.
pub open spec fn surfaced(after: CopyState, error: ServiceError) -> bool {
    after matches CopyState::Failed(f) && f.is(error.kind.category(), error.message@)
}

/// Whether `after` is where a copy goes once the source is known to have `size`
/// bytes.
pub open spec fn routed(job: CopyJob, size: u64, after: CopyState) -> bool {
    if job.options.source_content_length_hint matches Some(hint) && hint != size {
        after matches CopyState::Failed(f) && f.is(
            OdErrorCode::InvalidInput,
            hint_message(job.options.source_content_length_hint->0, size),
        )
    } else if job.native {
        after == (CopyState::OpenCopier { size })
    } else if !job.can_read {
        after matches CopyState::Failed(f) && f.is(
            OdErrorCode::Unsupported,
            capability::unsupported_message(job.source_scheme@, "read"@),
        )
    } else if !job.can_write {
        after matches CopyState::Failed(f) && f.is(
            OdErrorCode::Unsupported,
            capability::unsupported_message(job.destination_scheme@, "write"@),
        )
    } else {
        after == (CopyState::OpenReader { size })
    }
}

/// Where a copy into a writer stands when all before `offset` is written.
pub open spec fn written_up_to(size: u64, offset: u64) -> CopyState {
    if offset < size {
        CopyState::Reading { size, offset }
    } else {
        CopyState::ClosingWriter { size }
    }
}

/// Whether a committed copy ends in `after` with what was found at its
/// destination.
pub open spec fn concluded(job: CopyJob, bytes: u64, found: Metadata, after: CopyState) -> bool {
    match entry::row_error(job.destination@, found) {
        Some(message) => after matches CopyState::Failed(f) && f.is(
            OdErrorCode::Unexpected,
            message,
        ),
        None => after matches CopyState::Copied { bytes: b, row } && b == bytes && row.shows(
            job.destination@,
            found,
        ),
    }
}

/// Whether a copy goes from `before` to `after` on a reply.
pub open spec fn follows(
    job: CopyJob,
    before: CopyState,
    reply: CopyReply,
    after: CopyState,
) -> bool {
    match (before, reply) {
        (CopyState::StatSource, CopyReply::Metadata(metadata)) => routed(
            job,
            metadata.content_length,
            after,
        ),
        (CopyState::OpenCopier { size }, CopyReply::Opened) => after == (CopyState::Copying {
            size,
            copied: 0,
        }),
        (CopyState::Copying { size, copied }, CopyReply::Bytes(bytes)) => if copied + bytes
            <= u64::MAX {
            after == (CopyState::Copying { size, copied: (copied + bytes) as u64 })
        } else {
            after matches CopyState::AbortingCopier { failure } && failure.is(
                OdErrorCode::Unexpected,
                "copy byte count overflow"@,
            )
        },
        (CopyState::Copying { size, copied }, CopyReply::Exhausted) => after == (
        CopyState::ClosingCopier { size, copied }),
        (CopyState::Copying { .. }, CopyReply::Failed(error)) => {
            after matches CopyState::AbortingCopier { failure } && failure.is(
                error.kind.category(),
                error.message@,
            )
        },
        (CopyState::ClosingCopier { size, copied }, CopyReply::Closed(metadata)) => after == (
        CopyState::StatDestination {
            bytes: if copied < size {
                size
            } else {
                copied
            },
            completion: metadata,
        }),
        (CopyState::AbortingCopier { failure }, _) => after == CopyState::Failed(failure),
        (CopyState::OpenReader { size }, CopyReply::Opened) => after == (CopyState::OpenWriter {
            size,
        }),
        (CopyState::OpenWriter { size }, CopyReply::Opened) => after == written_up_to(size, 0),
        (CopyState::Reading { size, offset }, CopyReply::Read) => after == (CopyState::Writing {
            size,
            offset,
        }),
        (CopyState::Writing { size, offset }, CopyReply::Written) => after == written_up_to(
            size,
            job.chunk_end(size, offset),
        ),
        (CopyState::Reading { .. }, CopyReply::Failed(error))
        | (CopyState::Writing { .. }, CopyReply::Failed(error))
        | (CopyState::ClosingWriter { .. }, CopyReply::Failed(error)) => after == (
        CopyState::AbortingWriter { primary: error }),
        (CopyState::ClosingWriter { size }, CopyReply::Closed(metadata)) => after == (
        CopyState::StatDestination { bytes: size, completion: metadata }),
        (CopyState::AbortingWriter { primary }, CopyReply::Aborted) => surfaced(after, primary),
        (CopyState::AbortingWriter { primary }, CopyReply::AbortFailed(abort)) => {
            after matches CopyState::Describing { primary: kept, context } && kept == primary
                && context.0@ == ABORT_ERROR@ && context.1@ == abort@
        },
        (CopyState::Describing { primary, .. }, CopyReply::Described(text)) => {
            after matches CopyState::Failed(f) && f.is(primary.kind.category(), text@)
        },
        (CopyState::StatDestination { bytes, completion }, CopyReply::Metadata(metadata)) =>
        concluded(job, bytes, metadata, after),
        (CopyState::StatDestination { bytes, completion }, CopyReply::Failed(_)) => concluded(
            job,
            bytes,
            completion,
            after,
        ),
        (_, CopyReply::Failed(error)) => surfaced(after, error),
        _ => false,
    }
}

/// The key under which the error of a failed abort is added to another error.
pub const ABORT_ERROR: &'static str = "abort_error";

/// The error of a transfer that failed: what the service reported first, and what is
/// added to its context, a key and its value.
pub struct TransferError {
    pub primary: ServiceError,
    pub context: Option<(String, String)>,
}

/// The error of a transfer whose writer was aborted.  `aborted` is the text of the
/// error of the abort, if that failed too: it is added to the context of the primary
/// error and never takes its place.
pub fn abort_writer(primary: ServiceError, aborted: Option<String>) -> (error: TransferError)
    ensures
        error.primary == primary,
        match aborted {
            None => error.context is None,
            Some(abort) => error.context matches Some(added) && added.0@ == ABORT_ERROR@
                && added.1@ == abort@,
        },
{
    let context: Option<(String, String)> = match aborted {
        None => None,
        Some(abort) => Some((ABORT_ERROR.to_owned(), abort)),
    };
    TransferError { primary, context }
}

/// A copy.
pub struct CopyMachine {
    pub job: CopyJob,
    pub state: CopyState,
}

/// Why opening a copy is refused, if so.
pub open spec fn copy_open_error(
    source_op: Option<&OdOperator>,
    source: CText,
    destination_op: Option<&OdOperator>,
    destination: CText,
    raw: OdCopyOptions,
) -> Option<Seq<char>> {
    if source_op is None || destination_op is None {
        Some("null source or destination operator"@)
    } else if source.text() is None {
        Some("source is null or not UTF-8"@)
    } else if destination.text() is None {
        Some("destination is null or not UTF-8"@)
    } else {
        copy_options_error(raw)
    }
}

/// Open a copy.  `same_operator` says whether both ends are one operator.
pub fn od_table_copy_open(
    source_op: Option<&OdOperator>,
    source: &CText,
    destination_op: Option<&OdOperator>,
    destination: &CText,
    same_operator: bool,
    raw: &OdCopyOptions,
) -> (machine: Result<CopyMachine, Failure>)
    ensures
        match copy_open_error(source_op, *source, destination_op, *destination, *raw) {
            Some(message) => machine matches Err(e) && e.is(OdErrorCode::InvalidInput, message),
            None => machine matches Ok(m) && {
                &&& m.state is StatSource
                &&& source.text() == Some(m.job.source@)
                &&& destination.text() == Some(m.job.destination@)
                &&& m.job.native == (same_operator && source_op->0.cap.copy)
                &&& m.job.source_scheme@ == source_op->0.scheme@
                &&& m.job.can_read == source_op->0.cap.read
                &&& m.job.destination_scheme@ == destination_op->0.scheme@
                &&& m.job.can_write == destination_op->0.cap.write
                &&& m.job.options.decodes(*raw)
                &&& m.job.options.wf()
            },
        },
{
    let (source_op, destination_op): (&OdOperator, &OdOperator) = match (
        source_op,
        destination_op,
    ) {
        (Some(source_op), Some(destination_op)) => (source_op, destination_op),
        _ => {
            return Err(
                Failure::new(OdErrorCode::InvalidInput, "null source or destination operator"),
            );
        },
    };
    let source: &String = match cstr(source) {
        Some(source) => source,
        None => {
            return Err(Failure::new(OdErrorCode::InvalidInput, "source is null or not UTF-8"));
        },
    };
    let destination: &String = match cstr(destination) {
        Some(destination) => destination,
        None => {
            return Err(
                Failure::new(OdErrorCode::InvalidInput, "destination is null or not UTF-8"),
            );
        },
    };
    let options: CopyOptions = match copy_options(raw) {
        Ok(options) => options,
        Err(message) => {
            return Err(Failure { code: OdErrorCode::InvalidInput, message });
        },
    };
    let job: CopyJob = CopyJob {
        source: source.clone(),
        destination: destination.clone(),
        native: same_operator && source_op.cap.copy,
        source_scheme: source_op.scheme.clone(),
        can_read: source_op.cap.read,
        destination_scheme: destination_op.scheme.clone(),
        can_write: destination_op.cap.write,
        options,
    };
    Ok(CopyMachine { job, state: CopyState::StatSource })
}

/// The failure of a hint that differs from the size of the source.
fn wrong_hint(hint: u64, size: u64) -> (failure: Failure)
    ensures
        failure.is(OdErrorCode::InvalidInput, hint_message(hint, size)),
{
    let mut message: String = "source_content_length_hint=".to_owned();
    message.append(decimal_text(hint).as_str());
    message.append(" does not match source size ");
    message.append(decimal_text(size).as_str());
    Failure { code: OdErrorCode::InvalidInput, message }
}

fn route(job: &CopyJob, size: u64) -> (state: CopyState)
    ensures
        routed(*job, size, state),
{
    match job.options.source_content_length_hint {
        Some(hint) => if hint != size {
            return CopyState::Failed(wrong_hint(hint, size));
        },
        None => {},
    }
    if job.native {
        return CopyState::OpenCopier { size };
    }
    match require(job.source_scheme.as_str(), job.can_read, "read") {
        Ok(()) => {},
        Err(failure) => {
            return CopyState::Failed(failure);
        },
    }
    match require(job.destination_scheme.as_str(), job.can_write, "write") {
        Ok(()) => {},
        Err(failure) => {
            return CopyState::Failed(failure);
        },
    }
    CopyState::OpenReader { size }
}

fn go_on(size: u64, offset: u64) -> (state: CopyState)
    ensures
        state == written_up_to(size, offset),
{
    if offset < size {
        CopyState::Reading { size, offset }
    } else {
        CopyState::ClosingWriter { size }
    }
}

fn conclude(job: &CopyJob, bytes: u64, found: Metadata) -> (state: CopyState)
    ensures
        concluded(*job, bytes, found, state),
{
    match OwnedRow::from_parts(job.destination.clone(), found) {
        Ok(row) => CopyState::Copied { bytes, row },
        Err(message) => CopyState::Failed(Failure { code: OdErrorCode::Unexpected, message }),
    }
}

/// Where a transfer goes that failed and had its writer aborted.
fn fail(error: TransferError) -> (state: CopyState)
    ensures
        match error.context {
            None => surfaced(state, error.primary),
            Some(added) => state == (CopyState::Describing {
                primary: error.primary,
                context: added,
            }),
        },
{
    match error.context {
        None => CopyState::Failed(error.primary.surface()),
        Some(context) => CopyState::Describing { primary: error.primary, context },
    }
}

/// Where a copy goes on a reply.
fn step(job: &CopyJob, state: CopyState, reply: CopyReply) -> (after: CopyState)
    requires
        answers(state, reply),
    ensures
        follows(*job, state, reply, after),
{
    match (state, reply) {
        (CopyState::StatSource, CopyReply::Metadata(metadata)) => route(
            job,
            metadata.content_length,
        ),
        (CopyState::OpenCopier { size }, CopyReply::Opened) => CopyState::Copying {
            size,
            copied: 0,
        },
        (CopyState::Copying { size, copied }, CopyReply::Bytes(bytes)) => match copied.checked_add(
            bytes,
        ) {
            Some(copied) => CopyState::Copying { size, copied },
            None => CopyState::AbortingCopier {
                failure: Failure::new(OdErrorCode::Unexpected, "copy byte count overflow"),
            },
        },
        (CopyState::Copying { size, copied }, CopyReply::Exhausted) => CopyState::ClosingCopier {
            size,
            copied,
        },
        (CopyState::Copying { .. }, CopyReply::Failed(error)) => CopyState::AbortingCopier {
            failure: error.surface(),
        },
        (CopyState::ClosingCopier { size, copied }, CopyReply::Closed(metadata)) => {
            let bytes: u64 = if copied < size {
                size
            } else {
                copied
            };
            CopyState::StatDestination { bytes, completion: metadata }
        },
        (CopyState::AbortingCopier { failure }, _) => CopyState::Failed(failure),
        (CopyState::OpenReader { size }, CopyReply::Opened) => CopyState::OpenWriter { size },
        (CopyState::OpenWriter { size }, CopyReply::Opened) => go_on(size, 0),
        (CopyState::Reading { size, offset }, CopyReply::Read) => CopyState::Writing {
            size,
            offset,
        },
        (CopyState::Writing { size, offset }, CopyReply::Written) => go_on(
            size,
            job.end_of_chunk(size, offset),
        ),
        (CopyState::Reading { .. }, CopyReply::Failed(error)) => CopyState::AbortingWriter {
            primary: error,
        },
        (CopyState::Writing { .. }, CopyReply::Failed(error)) => CopyState::AbortingWriter {
            primary: error,
        },
        (CopyState::ClosingWriter { .. }, CopyReply::Failed(error)) => CopyState::AbortingWriter {
            primary: error,
        },
        (CopyState::ClosingWriter { size }, CopyReply::Closed(metadata)) => {
            CopyState::StatDestination { bytes: size, completion: metadata }
        },
        (CopyState::AbortingWriter { primary }, CopyReply::AbortFailed(abort)) => fail(
            abort_writer(primary, Some(abort)),
        ),
        (CopyState::AbortingWriter { primary }, _) => fail(abort_writer(primary, None)),
        (CopyState::Describing { primary, .. }, CopyReply::Described(text)) => CopyState::Failed(
            Failure::from_service(primary.kind, text),
        ),
        (CopyState::StatDestination { bytes, .. }, CopyReply::Metadata(metadata)) => conclude(
            job,
            bytes,
            metadata,
        ),
        (CopyState::StatDestination { bytes, completion }, CopyReply::Failed(_)) => conclude(
            job,
            bytes,
            completion,
        ),
        (_, CopyReply::Failed(error)) => CopyState::Failed(error.surface()),
        (state, _) => state,
    }
}

impl CopyMachine {
    /// Go on with what came of what the state asked for.
    pub fn advance(&mut self, reply: CopyReply)
        requires
            answers(old(self).state, reply),
        ensures
            final(self).job == old(self).job,
            follows(old(self).job, old(self).state, reply, final(self).state),
    {
        let mut state: CopyState = CopyState::StatSource;
        std::mem::swap(&mut state, &mut self.state);
        self.state = step(&self.job, state, reply);
    }

    /// The range of the chunk to read next: from `offset` to where it ends.
    pub fn range(&self, size: u64, offset: u64) -> (range: (u64, u64))
        ensures
            range.0 == offset,
            range.1 == self.job.chunk_end(size, offset),
    {
        (offset, self.job.end_of_chunk(size, offset))
    }

    /// How the source is to be read, once its size is known.
    pub fn reader_options(&self, size: u64) -> (options: ReaderOptions)
        ensures
            text::optional_text(options.version) == text::optional_text(
                self.job.options.source_version,
            ),
            options.content_length_hint == size,
            options.concurrent == if self.job.options.concurrent == 0 {
                1
            } else {
                self.job.options.concurrent
            },
            options.chunk == self.job.options.chunk,
    {
        let concurrent: usize = if self.job.options.concurrent == 0 {
            1
        } else {
            self.job.options.concurrent
        };
        ReaderOptions {
            version: cloned(&self.job.options.source_version),
            content_length_hint: size,
            concurrent,
            chunk: self.job.options.chunk,
        }
    }

    /// How the destination is to be written.
    pub fn write_options(&self) -> (options: WriteOptions)
        ensures
            options.if_not_exists == self.job.options.if_not_exists,
            text::optional_text(options.if_match) == text::optional_text(self.job.options.if_match),
            options.concurrent == self.job.options.concurrent,
            options.chunk == self.job.options.chunk,
    {
        WriteOptions {
            if_not_exists: self.job.options.if_not_exists,
            if_match: cloned(&self.job.options.if_match),
            concurrent: self.job.options.concurrent,
            chunk: self.job.options.chunk,
        }
    }

    /// How the service is to copy by itself: as asked for, with the size that the
    /// source was found to have.
    pub fn copier_options(&self, size: u64) -> (options: CopyOptions)
        ensures
            options.if_not_exists == self.job.options.if_not_exists,
            text::optional_text(options.if_match) == text::optional_text(self.job.options.if_match),
            text::optional_text(options.source_version) == text::optional_text(
                self.job.options.source_version,
            ),
            options.source_content_length_hint == Some(size),
            options.concurrent == self.job.options.concurrent,
            options.chunk == self.job.options.chunk,
    {
        CopyOptions {
            if_not_exists: self.job.options.if_not_exists,
            if_match: cloned(&self.job.options.if_match),
            source_version: cloned(&self.job.options.source_version),
            source_content_length_hint: Some(size),
            concurrent: self.job.options.concurrent,
            chunk: self.job.options.chunk,
        }
    }

    /// The outcome of a copy that came to its end.
    pub fn outcome(self) -> (outcome: Option<Result<OdCopyCursor, Failure>>)
        ensures
            match self.state {
                CopyState::Failed(failure) => outcome == Some(
                    Err::<OdCopyCursor, Failure>(failure),
                ),
                CopyState::Copied { bytes, row } => outcome matches Some(Ok(cursor)) && cursor.row
                    == Some((bytes, row)),
                _ => outcome is None,
            },
    {
        match self.state {
            CopyState::Failed(failure) => Some(Err(failure)),
            CopyState::Copied { bytes, row } => Some(Ok(OdCopyCursor { row: Some((bytes, row)) })),
            _ => None,
        }
    }
}

fn cloned(text: &Option<String>) -> (copy: Option<String>)
    ensures
        text::optional_text(copy) == text::optional_text(*text),
{
    match text {
        Some(text) => Some(text.clone()),
        None => None,
    }
}

/// The scan over the row of a copy.
pub struct OdCopyCursor {
    pub row: Option<(u64, OwnedRow)>,
}

impl OdCopyCursor {
    /// The row, the first time it is asked for.
    pub fn next_row(&mut self) -> (row: Option<(u64, OwnedRow)>)
        ensures
            row == old(self).row,
            final(self).row is None,
    {
        self.row.take()
    }
}

} // verus!
