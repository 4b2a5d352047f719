//! Mutations: directories, removal, renames and copies.

use vstd::prelude::*;

use crate::capability;
use crate::capability::require;
use crate::error::{Failure, OdErrorCode};
use crate::ffi::{cstr, CText};
use crate::operator::{OdOperator, OdopOperator};
use crate::reader;
use crate::reader::open_path;
use crate::text::chars_of;

verus! {

/// The path of a directory, which ends in `/`.
pub open spec fn directory_path(path: Seq<char>) -> Seq<char> {
    if path.len() > 0 && path.last() == '/' {
        path
    } else {
        path.push('/')
    }
}

/// A path with a `/` at its end.
pub fn as_directory(path: &str) -> (directory: String)
    ensures
        directory@ == directory_path(path@),
{
    let chars: Vec<char> = chars_of(path);
    let mut directory: String = path.to_owned();
    if !(chars.len() > 0 && chars[chars.len() - 1] == '/') {
        directory.push('/');
    }
    directory
}

/// The directory to create.
pub fn odop_create_dir(op: Option<&OdopOperator>, path: &CText) -> (request: Result<
    String,
    Failure,
>)
    ensures
        if op is None {
            request matches Err(e) && e.is(OdErrorCode::InvalidInput, "null operator"@)
        } else {
            match path.text() {
                None => request matches Err(e) && e.is(
                    OdErrorCode::InvalidInput,
                    "path is null or not UTF-8"@,
                ),
                Some(p) => request matches Ok(r) && r@ == directory_path(p),
            }
        },
{
    if op.is_none() {
        return Err(Failure::new(OdErrorCode::InvalidInput, "null operator"));
    }
    match cstr(path) {
        Some(path) => Ok(as_directory(path.as_str())),
        None => Err(Failure::new(OdErrorCode::InvalidInput, "path is null or not UTF-8")),
    }
}

/// What to remove: a path, and whether to remove all that lies under it.
pub fn odop_remove(op: Option<&OdopOperator>, path: &CText, recursive: u8) -> (request: Result<
    (String, bool),
    Failure,
>)
    ensures
        if op is None {
            request matches Err(e) && e.is(OdErrorCode::InvalidInput, "null operator"@)
        } else {
            match path.text() {
                None => request matches Err(e) && e.is(
                    OdErrorCode::InvalidInput,
                    "path is null or not UTF-8"@,
                ),
                Some(p) => request matches Ok(r) && r.0@ == p && r.1 == (recursive != 0),
            }
        },
{
    if op.is_none() {
        return Err(Failure::new(OdErrorCode::InvalidInput, "null operator"));
    }
    match cstr(path) {
        Some(path) => Ok((path.clone(), recursive != 0)),
        None => Err(Failure::new(OdErrorCode::InvalidInput, "path is null or not UTF-8")),
    }
}

/// Whether an outcome is the two paths of a move, or says which is missing.
pub open spec fn is_move(
    request: Result<(String, String), Failure>,
    from: CText,
    to: CText,
) -> bool {
    match (from.text(), to.text()) {
        (None, _) => request matches Err(e) && e.is(
            OdErrorCode::InvalidInput,
            "from is null or not UTF-8"@,
        ),
        (_, None) => request matches Err(e) && e.is(
            OdErrorCode::InvalidInput,
            "to is null or not UTF-8"@,
        ),
        (Some(f), Some(t)) => request matches Ok(r) && r.0@ == f && r.1@ == t,
    }
}

fn two_paths(from: &CText, to: &CText) -> (request: Result<(String, String), Failure>)
    ensures
        is_move(request, *from, *to),
{
    let from: &String = match cstr(from) {
        Some(from) => from,
        None => {
            return Err(Failure::new(OdErrorCode::InvalidInput, "from is null or not UTF-8"));
        },
    };
    match cstr(to) {
        Some(to) => Ok((from.clone(), to.clone())),
        None => Err(Failure::new(OdErrorCode::InvalidInput, "to is null or not UTF-8")),
    }
}

/// The paths of a rename.
pub fn odop_rename(op: Option<&OdopOperator>, from: &CText, to: &CText) -> (request: Result<
    (String, String),
    Failure,
>)
    ensures
        if op is None {
            request matches Err(e) && e.is(OdErrorCode::InvalidInput, "null operator"@)
        } else {
            is_move(request, *from, *to)
        },
{
    if op.is_none() {
        return Err(Failure::new(OdErrorCode::InvalidInput, "null operator"));
    }
    two_paths(from, to)
}

/// The directory to create.  It fails early on a service without directories.
pub fn od_create_dir(op: Option<&OdOperator>, path: &CText) -> (request: Result<String, Failure>)
    ensures
        match reader::open_error(
            reader::scheme_view(op),
            op is Some && op->0.cap.create_dir,
            "create_dir"@,
            *path,
        ) {
            Some((code, message)) => request matches Err(e) && e.is(code, message),
            None => request matches Ok(r) && r@ == directory_path(path.text()->0),
        },
{
    let op: &OdOperator = match op {
        Some(op) => op,
        None => {
            return Err(Failure::new(OdErrorCode::InvalidInput, "null operator"));
        },
    };
    match open_path(Some(&op.scheme), op.cap.create_dir, "create_dir", path) {
        Ok(path) => Ok(as_directory(path.as_str())),
        Err(failure) => Err(failure),
    }
}

/// What to remove: a path, and whether to remove all that lies under it.  It fails
/// early on a service without removal.
pub fn od_remove(op: Option<&OdOperator>, path: &CText, recursive: u8) -> (request: Result<
    (String, bool),
    Failure,
>)
    ensures
        match reader::open_error(
            reader::scheme_view(op),
            op is Some && op->0.cap.delete,
            "delete"@,
            *path,
        ) {
            Some((code, message)) => request matches Err(e) && e.is(code, message),
            None => request matches Ok(r) && Some(r.0@) == path.text() && r.1 == (recursive != 0),
        },
{
    let op: &OdOperator = match op {
        Some(op) => op,
        None => {
            return Err(Failure::new(OdErrorCode::InvalidInput, "null operator"));
        },
    };
    match open_path(Some(&op.scheme), op.cap.delete, "delete", path) {
        Ok(path) => Ok((path, recursive != 0)),
        Err(failure) => Err(failure),
    }
}

/// The paths of a rename.  It fails early on a service without renames.
pub fn od_rename(op: Option<&OdOperator>, from: &CText, to: &CText) -> (request: Result<
    (String, String),
    Failure,
>)
    ensures
        match op {
            None => request matches Err(e) && e.is(OdErrorCode::InvalidInput, "null operator"@),
            Some(op) => if op.cap.rename {
                is_move(request, *from, *to)
            } else {
                request matches Err(e) && e.is(
                    OdErrorCode::Unsupported,
                    capability::unsupported_message(op.scheme@, "rename"@),
                )
            },
        },
{
    let op: &OdOperator = match op {
        Some(op) => op,
        None => {
            return Err(Failure::new(OdErrorCode::InvalidInput, "null operator"));
        },
    };
    match require(op.scheme.as_str(), op.cap.rename, "rename") {
        Ok(()) => two_paths(from, to),
        Err(failure) => Err(failure),
    }
}

/// The paths of a copy.  It fails early on a service without copies.
pub fn od_copy(op: Option<&OdOperator>, from: &CText, to: &CText) -> (request: Result<
    (String, String),
    Failure,
>)
    ensures
        match op {
            None => request matches Err(e) && e.is(OdErrorCode::InvalidInput, "null operator"@),
            Some(op) => if op.cap.copy {
                is_move(request, *from, *to)
            } else {
                request matches Err(e) && e.is(
                    OdErrorCode::Unsupported,
                    capability::unsupported_message(op.scheme@, "copy"@),
                )
            },
        },
{
    let op: &OdOperator = match op {
        Some(op) => op,
        None => {
            return Err(Failure::new(OdErrorCode::InvalidInput, "null operator"));
        },
    };
    match require(op.scheme.as_str(), op.cap.copy, "copy") {
        Ok(()) => two_paths(from, to),
        Err(failure) => Err(failure),
    }
}

} // verus!
