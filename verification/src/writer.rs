//! Append-only writes.
//!
//! A writer takes bytes until it is closed.  Closing commits what was written.  A
//! closed writer takes no further bytes and can neither be closed again nor aborted.

use vstd::prelude::*;

use crate::capability;
use crate::capability::require;
use crate::config::value;
use crate::error::{Failure, OdErrorCode, ServiceError};
use crate::ffi::CText;
use crate::operator::{full, OdOperator, OdopOperator};
use crate::reader;
use crate::reader::open_path;

verus! {

/// A writer: its path, its tuning, and whether it was closed.  Unset fields are
/// left to the service.
pub struct OdWriter {
    pub path: String,
    pub concurrent: Option<usize>,
    pub chunk: Option<usize>,
    pub closed: bool,
}

/// A writer on an operator built from a scheme.
pub struct OdopWriter {
    pub path: String,
}

/// What a write comes down to.
#[derive(Clone, Copy, Debug, PartialEq, Eq, Structural)]
pub enum WriteStep {
    /// There is nothing to write.
    Nothing,
    /// Write so many bytes.
    Bytes(usize),
}

/// The largest number of bytes that a buffer can hold.
pub open spec fn buffer_limit() -> nat {
    isize::MAX as nat
}

/// Open a writer.
pub fn od_writer_open(op: Option<&OdOperator>, path: &CText) -> (writer: Result<OdWriter, Failure>)
    ensures
        match reader::open_error(
            reader::scheme_view(op),
            op is Some && op->0.cap.write,
            "write"@,
            *path,
        ) {
            Some((code, message)) => writer matches Err(e) && e.is(code, message),
            None => writer matches Ok(w) && {
                &&& path.text() == Some(w.path@)
                &&& value::number_view(w.concurrent) == value::positive_view(
                    op->0.io.write.concurrent,
                )
                &&& value::number_view(w.chunk) == value::size_view(op->0.io.write.chunk_size)
                &&& !w.closed
            },
        },
{
    let op: &OdOperator = match op {
        Some(op) => op,
        None => {
            return Err(Failure::new(OdErrorCode::InvalidInput, "null operator"));
        },
    };
    let path: String = match open_path(Some(&op.scheme), op.cap.write, "write", path) {
        Ok(path) => path,
        Err(failure) => {
            return Err(failure);
        },
    };
    let concurrent: Option<usize> = match op.io.write.concurrent {
        Some(concurrent) => Some(concurrent.get()),
        None => None,
    };
    Ok(OdWriter { path, concurrent, chunk: op.io.write_chunk(), closed: false })
}

/// Whether a write of `len` bytes comes down to `step`.
pub open spec fn is_write(
    step: Result<WriteStep, Failure>,
    writer: Option<&OdWriter>,
    len: u64,
    has_data: bool,
) -> bool {
    if writer is None || (!has_data && len != 0) {
        step matches Err(e) && e.is(OdErrorCode::InvalidInput, "null writer or data"@)
    } else if len == 0 {
        step == Ok::<WriteStep, Failure>(WriteStep::Nothing)
    } else if writer->0.closed {
        step matches Err(e) && e.is(OdErrorCode::InvalidInput, "writer is closed"@)
    } else if len > buffer_limit() {
        step matches Err(e) && e.is(
            OdErrorCode::InvalidInput,
            "write length exceeds the platform size limit"@,
        )
    } else {
        step == Ok::<WriteStep, Failure>(WriteStep::Bytes(len as usize))
    }
}

/// Decide on a write of `len` bytes.  `has_data` says whether there are any to
/// point at.
pub fn od_writer_write(writer: Option<&OdWriter>, len: u64, has_data: bool) -> (step: Result<
    WriteStep,
    Failure,
>)
    ensures
        is_write(step, writer, len, has_data),
{
    let writer: &OdWriter = match writer {
        Some(writer) => writer,
        None => {
            return Err(Failure::new(OdErrorCode::InvalidInput, "null writer or data"));
        },
    };
    if !has_data && len != 0 {
        return Err(Failure::new(OdErrorCode::InvalidInput, "null writer or data"));
    }
    if len == 0 {
        return Ok(WriteStep::Nothing);
    }
    if writer.closed {
        return Err(Failure::new(OdErrorCode::InvalidInput, "writer is closed"));
    }
    if len > isize::MAX as u64 {
        return Err(
            Failure::new(OdErrorCode::InvalidInput, "write length exceeds the platform size limit"),
        );
    }
    Ok(WriteStep::Bytes(len as usize))
}

/// Whether a writer can be closed or aborted.
pub open spec fn is_usable(ready: Result<(), Failure>, writer: Option<&OdWriter>) -> bool {
    match writer {
        None => ready matches Err(e) && e.is(OdErrorCode::InvalidInput, "null writer"@),
        Some(writer) => if writer.closed {
            ready matches Err(e) && e.is(OdErrorCode::InvalidInput, "writer is closed"@)
        } else {
            ready is Ok
        },
    }
}

fn usable(writer: Option<&OdWriter>) -> (ready: Result<(), Failure>)
    ensures
        is_usable(ready, writer),
{
    match writer {
        None => Err(Failure::new(OdErrorCode::InvalidInput, "null writer")),
        Some(writer) => if writer.closed {
            Err(Failure::new(OdErrorCode::InvalidInput, "writer is closed"))
        } else {
            Ok(())
        },
    }
}

/// Whether a writer can be closed.
pub fn od_writer_close(writer: Option<&OdWriter>) -> (ready: Result<(), Failure>)
    ensures
        is_usable(ready, writer),
{
    usable(writer)
}

/// Whether a writer can be aborted.
pub fn od_writer_abort(writer: Option<&OdWriter>) -> (ready: Result<(), Failure>)
    ensures
        is_usable(ready, writer),
{
    usable(writer)
}

impl OdWriter {
    /// Note how closing went.  Only a close that succeeds closes the writer.
    pub fn after_close(&mut self, outcome: Result<(), ServiceError>) -> (result: Result<
        (),
        Failure,
    >)
        ensures
            final(self).path == old(self).path,
            final(self).concurrent == old(self).concurrent,
            final(self).chunk == old(self).chunk,
            final(self).closed == (old(self).closed || outcome is Ok),
            match outcome {
                Ok(_) => result is Ok,
                Err(error) => result matches Err(e) && e.is(error.kind.category(), error.message@),
            },
    {
        match outcome {
            Ok(()) => {
                self.closed = true;
                Ok(())
            },
            Err(error) => Err(error.surface()),
        }
    }
}

/// Once closed, a writer takes no further bytes, and can neither be closed again
/// nor aborted.
pub proof fn law_closed_writers_stay_closed(
    writer: OdWriter,
    len: u64,
    step: Result<WriteStep, Failure>,
    ready: Result<(), Failure>,
)
    requires
        writer.closed,
        is_write(step, Some(&writer), len, true),
        is_usable(ready, Some(&writer)),
    ensures
        len != 0 ==> (step matches Err(e) && e.is(OdErrorCode::InvalidInput, "writer is closed"@)),
        ready matches Err(e) && e.is(OdErrorCode::InvalidInput, "writer is closed"@),
{
}

/// Open a writer on an operator built from a scheme.
pub fn odop_writer_open(op: Option<&OdopOperator>, path: &CText) -> (writer: Result<
    OdopWriter,
    Failure,
>)
    ensures
        if op is None || path is Null {
            writer matches Err(e) && e.is(OdErrorCode::InvalidInput, "null operator or path"@)
        } else if !op->0.cap.write {
            writer matches Err(e) && e.is(
                OdErrorCode::Unsupported,
                capability::unsupported_message(op->0.scheme@, "write"@),
            )
        } else if path.text() is None {
            writer matches Err(e) && e.is(OdErrorCode::InvalidInput, "path not UTF-8"@)
        } else {
            writer matches Ok(w) && path.text() == Some(w.path@)
        },
{
    let op: &OdopOperator = match (op, path) {
        (None, _) => {
            return Err(Failure::new(OdErrorCode::InvalidInput, "null operator or path"));
        },
        (_, CText::Null) => {
            return Err(Failure::new(OdErrorCode::InvalidInput, "null operator or path"));
        },
        (Some(op), _) => op,
    };
    match require(op.scheme.as_str(), full(op).write, "write") {
        Ok(()) => {},
        Err(failure) => {
            return Err(failure);
        },
    }
    match path {
        CText::Text(path) => Ok(OdopWriter { path: path.clone() }),
        _ => Err(Failure::new(OdErrorCode::InvalidInput, "path not UTF-8")),
    }
}

/// Decide on a write of `len` bytes on a writer of an operator built from a
/// scheme, where `len` is what a buffer can hold.
pub fn odop_writer_write(writer: Option<&OdopWriter>, len: usize, has_data: bool) -> (step: Result<
    WriteStep,
    Failure,
>)
    ensures
        if writer is None || (!has_data && len != 0) {
            step matches Err(e) && e.is(OdErrorCode::InvalidInput, "null writer or data"@)
        } else if len == 0 {
            step == Ok::<WriteStep, Failure>(WriteStep::Nothing)
        } else {
            step == Ok::<WriteStep, Failure>(WriteStep::Bytes(len))
        },
{
    if writer.is_none() || (!has_data && len != 0) {
        return Err(Failure::new(OdErrorCode::InvalidInput, "null writer or data"));
    }
    if len == 0 {
        return Ok(WriteStep::Nothing);
    }
    Ok(WriteStep::Bytes(len))
}

/// Whether an outcome says that a writer of an operator built from a scheme is
/// there.
pub open spec fn is_there(ready: Result<(), Failure>, writer: Option<&OdopWriter>) -> bool {
    match writer {
        None => ready matches Err(e) && e.is(OdErrorCode::InvalidInput, "null writer"@),
        Some(_) => ready is Ok,
    }
}

/// Whether a writer of an operator built from a scheme can be closed: it can
/// wherever it is there.
pub fn odop_writer_close(writer: Option<&OdopWriter>) -> (ready: Result<(), Failure>)
    ensures
        is_there(ready, writer),
{
    match writer {
        None => Err(Failure::new(OdErrorCode::InvalidInput, "null writer")),
        Some(_) => Ok(()),
    }
}

/// Whether a writer of an operator built from a scheme can be aborted: it can
/// wherever it is there.
pub fn odop_writer_abort(writer: Option<&OdopWriter>) -> (ready: Result<(), Failure>)
    ensures
        is_there(ready, writer),
{
    odop_writer_close(writer)
}

} // verus!
