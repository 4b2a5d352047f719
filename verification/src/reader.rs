//! Positioned reads.

use vstd::prelude::*;

use crate::capability;
use crate::capability::require;
use crate::config::value;
use crate::error::{Failure, OdErrorCode};
use crate::ffi::{cstr, CText};
use crate::operator::{OdOperator, OdopOperator};
use crate::text;

verus! {

/// A reader that is to be opened, or was: a path and its tuning.  Unset fields
/// are left to the service.
pub struct OdReader {
    pub path: String,
    pub concurrent: Option<usize>,
    pub chunk: Option<usize>,
}

/// A reader on an operator built from a scheme.
pub struct OdopReader {
    pub path: String,
    pub concurrent: Option<usize>,
    pub chunk: Option<usize>,
}

/// Why a call that needs an operator, a capability of it and a path is refused,
/// if so.
pub open spec fn open_error(
    scheme: Option<Seq<char>>,
    supported: bool,
    op_name: Seq<char>,
    path: CText,
) -> Option<(OdErrorCode, Seq<char>)> {
    match scheme {
        None => Some((OdErrorCode::InvalidInput, "null operator"@)),
        Some(scheme) => if !supported {
            Some(
                (OdErrorCode::Unsupported, capability::unsupported_message(scheme, op_name)),
            )
        } else if path.text() is None {
            Some((OdErrorCode::InvalidInput, "path is null or not UTF-8"@))
        } else {
            None
        },
    }
}

/// The path of a call that is not refused.
pub(crate) fn open_path(scheme: Option<&String>, supported: bool, op_name: &str, path: &CText) -> (
    opened: Result<String, Failure>)
    ensures
        match open_error(text::optional_ref(scheme), supported, op_name@, *path) {
            Some((code, message)) => opened matches Err(e) && e.is(code, message),
            None => opened matches Ok(p) && path.text() == Some(p@),
        },
{
    let scheme: &String = match scheme {
        Some(scheme) => scheme,
        None => {
            return Err(Failure::new(OdErrorCode::InvalidInput, "null operator"));
        },
    };
    match require(scheme.as_str(), supported, op_name) {
        Ok(()) => {},
        Err(failure) => {
            return Err(failure);
        },
    }
    match cstr(path) {
        Some(path) => Ok(path.clone()),
        None => Err(Failure::new(OdErrorCode::InvalidInput, "path is null or not UTF-8")),
    }
}

/// The scheme of an operator, where there is one.
pub open spec fn scheme_view(op: Option<&OdOperator>) -> Option<Seq<char>> {
    match op {
        Some(op) => Some(op.scheme@),
        None => None,
    }
}

/// The scheme of an operator built from a scheme, where there is one.
pub open spec fn odop_scheme_view(op: Option<&OdopOperator>) -> Option<Seq<char>> {
    match op {
        Some(op) => Some(op.scheme@),
        None => None,
    }
}

/// Open a reader.
pub fn od_reader_open(op: Option<&OdOperator>, path: &CText) -> (reader: Result<OdReader, Failure>)
    ensures
        match open_error(scheme_view(op), op is Some && op->0.cap.read, "read"@, *path) {
            Some((code, message)) => reader matches Err(e) && e.is(code, message),
            None => reader matches Ok(r) && {
                &&& path.text() == Some(r.path@)
                &&& value::number_view(r.concurrent) == value::positive_view(
                    op->0.io.read.concurrent,
                )
                &&& value::number_view(r.chunk) == value::size_view(op->0.io.read.chunk_size)
            },
        },
{
    let op: &OdOperator = match op {
        Some(op) => op,
        None => {
            return Err(Failure::new(OdErrorCode::InvalidInput, "null operator"));
        },
    };
    let path: String = match open_path(Some(&op.scheme), op.cap.read, "read", path) {
        Ok(path) => path,
        Err(failure) => {
            return Err(failure);
        },
    };
    let concurrent: Option<usize> = match op.io.read.concurrent {
        Some(concurrent) => Some(concurrent.get()),
        None => None,
    };
    Ok(OdReader { path, concurrent, chunk: op.io.read_chunk() })
}

/// A number that is set, which zero is not.
pub open spec fn set_number(n: usize) -> Option<usize> {
    if n > 0 {
        Some(n)
    } else {
        None
    }
}

pub(crate) fn number_set(n: usize) -> (set: Option<usize>)
    ensures
        set == set_number(n),
{
    if n > 0 {
        Some(n)
    } else {
        None
    }
}

/// Open a reader on an operator built from a scheme.
pub fn odop_reader_open(op: Option<&OdopOperator>, path: &CText) -> (reader: Result<
    OdopReader,
    Failure,
>)
    ensures
        match open_error(odop_scheme_view(op), op is Some && op->0.cap.read, "read"@, *path) {
            Some((code, message)) => reader matches Err(e) && e.is(code, message),
            None => reader matches Ok(r) && {
                &&& path.text() == Some(r.path@)
                &&& r.concurrent == set_number(op->0.io.read.concurrent)
                &&& r.chunk == set_number(op->0.io.read.chunk)
            },
        },
{
    let op: &OdopOperator = match op {
        Some(op) => op,
        None => {
            return Err(Failure::new(OdErrorCode::InvalidInput, "null operator"));
        },
    };
    let path: String = match open_path(Some(&op.scheme), op.cap.read, "read", path) {
        Ok(path) => path,
        Err(failure) => {
            return Err(failure);
        },
    };
    Ok(
        OdopReader {
            path,
            concurrent: number_set(op.io.read.concurrent),
            chunk: number_set(op.io.read.chunk),
        },
    )
}

/// What a read comes down to.
#[derive(Clone, Copy, Debug, PartialEq, Eq, Structural)]
pub enum ReadStep {
    /// There is nothing to read.
    Nothing,
    /// Read the bytes from `start` up to `end`.
    Range { start: u64, end: u64 },
}

/// Decide on a read of `len` bytes at `offset`.  `has_reader` and `has_buffer` say
/// whether the reader and the buffer are there; nothing can be read into no
/// buffer.
pub fn od_reader_read(has_reader: bool, offset: u64, len: u64, has_buffer: bool) -> (step: Result<
    ReadStep,
    Failure,
>)
    ensures
        if !has_reader || (!has_buffer && len != 0) {
            step matches Err(e) && e.is(OdErrorCode::InvalidInput, "null reader or buffer"@)
        } else if len == 0 {
            step == Ok::<ReadStep, Failure>(ReadStep::Nothing)
        } else if offset + len > u64::MAX {
            step matches Err(e) && e.is(OdErrorCode::InvalidInput, "read range overflows"@)
        } else {
            step == Ok::<ReadStep, Failure>(
                ReadStep::Range { start: offset, end: (offset + len) as u64 },
            )
        },
{
    if !has_reader || (!has_buffer && len != 0) {
        return Err(Failure::new(OdErrorCode::InvalidInput, "null reader or buffer"));
    }
    if len == 0 {
        return Ok(ReadStep::Nothing);
    }
    match offset.checked_add(len) {
        Some(end) => Ok(ReadStep::Range { start: offset, end }),
        None => Err(Failure::new(OdErrorCode::InvalidInput, "read range overflows")),
    }
}

/// Decide on a read of `len` bytes at `offset` on a reader of an operator built
/// from a scheme.  The range is cut off at the largest offset.
pub fn odop_reader_read(has_reader: bool, offset: u64, len: u64, has_buffer: bool) -> (step: Result<
    ReadStep,
    Failure,
>)
    ensures
        if !has_reader || !has_buffer {
            step matches Err(e) && e.is(OdErrorCode::InvalidInput, "null reader or buffer"@)
        } else if len == 0 {
            step == Ok::<ReadStep, Failure>(ReadStep::Nothing)
        } else {
            step == Ok::<ReadStep, Failure>(
                ReadStep::Range {
                    start: offset,
                    end: if offset + len > u64::MAX {
                        u64::MAX
                    } else {
                        (offset + len) as u64
                    },
                },
            )
        },
{
    if !has_reader || !has_buffer {
        return Err(Failure::new(OdErrorCode::InvalidInput, "null reader or buffer"));
    }
    if len == 0 {
        return Ok(ReadStep::Nothing);
    }
    let end: u64 = match offset.checked_add(len) {
        Some(end) => end,
        None => u64::MAX,
    };
    Ok(ReadStep::Range { start: offset, end })
}

} // verus!
