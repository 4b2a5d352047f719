//! Metadata of a path, and whether a path or a directory is there.

use vstd::prelude::*;

use crate::capability;
use crate::capability::require;
use crate::entry::{EntryMode, Metadata};
use crate::error::{ErrorKind, Failure, OdErrorCode, ServiceError};
use crate::ffi::{cstr, CText};
use crate::operator::{OdOperator, OdopOperator};
use crate::text::chars_of;

verus! {

/// Metadata of a path.
#[derive(Clone, Copy, Debug, PartialEq, Eq, Structural)]
pub struct OdMetadata {
    /// Content length in bytes.
    pub content_length: u64,
    /// Last-modified time in Unix milliseconds, or -1 if unknown.
    pub last_modified_ms: i64,
    /// 1 if the path is a directory, 0 otherwise.
    pub is_dir: u8,
}

/// Metadata of a path on an operator built from a scheme.
#[derive(Clone, Copy, Debug, PartialEq, Eq, Structural)]
pub struct OdopMetadata {
    /// Content length in bytes.
    pub content_length: u64,
    /// Last-modified time in Unix milliseconds, or -1 if unknown.
    pub last_modified_ms: i64,
    /// 1 if the path is a directory, 0 otherwise.
    pub is_dir: u8,
}

/// The last-modified time of metadata, or -1.
pub open spec fn modified_or_unknown(metadata: Metadata) -> int {
    match metadata.last_modified_ms {
        Some(ms) => ms as int,
        None => -1,
    }
}

/// One for a directory, zero for anything else.
pub open spec fn directory_flag(metadata: Metadata) -> u8 {
    if metadata.mode == EntryMode::Dir {
        1
    } else {
        0
    }
}

/// The last-modified time of metadata, or -1.
pub(crate) fn modified(metadata: &Metadata) -> (ms: i64)
    ensures
        ms == modified_or_unknown(*metadata),
{
    match metadata.last_modified_ms {
        Some(ms) => ms,
        None => -1,
    }
}

/// One for a directory, zero for anything else.
pub(crate) fn directory(metadata: &Metadata) -> (flag: u8)
    ensures
        flag == directory_flag(*metadata),
{
    if metadata.mode == EntryMode::Dir {
        1
    } else {
        0
    }
}

impl OdMetadata {
    /// Metadata of nothing: what is left in the output of a call that fails.
    pub fn empty() -> (metadata: OdMetadata)
        ensures
            metadata.content_length == 0,
            metadata.last_modified_ms == -1,
            metadata.is_dir == 0,
    {
        OdMetadata { content_length: 0, last_modified_ms: -1, is_dir: 0 }
    }

    /// The metadata that a service reported.
    pub fn of(metadata: &Metadata) -> (shown: OdMetadata)
        ensures
            shown.content_length == metadata.content_length,
            shown.last_modified_ms == modified_or_unknown(*metadata),
            shown.is_dir == directory_flag(*metadata),
    {
        OdMetadata {
            content_length: metadata.content_length,
            last_modified_ms: modified(metadata),
            is_dir: directory(metadata),
        }
    }
}

impl OdopMetadata {
    /// Metadata of nothing: what is left in the output of a call that fails.
    pub fn empty() -> (metadata: OdopMetadata)
        ensures
            metadata.content_length == 0,
            metadata.last_modified_ms == -1,
            metadata.is_dir == 0,
    {
        OdopMetadata { content_length: 0, last_modified_ms: -1, is_dir: 0 }
    }

    /// The metadata that a service reported.
    pub fn of(metadata: &Metadata) -> (shown: OdopMetadata)
        ensures
            shown.content_length == metadata.content_length,
            shown.last_modified_ms == modified_or_unknown(*metadata),
            shown.is_dir == directory_flag(*metadata),
    {
        OdopMetadata {
            content_length: metadata.content_length,
            last_modified_ms: modified(metadata),
            is_dir: directory(metadata),
        }
    }
}

/// Why a call that looks at a path is refused, if so: `missing` is said where the
/// operator or the path is null.
pub open spec fn look_error(op: Option<&OdOperator>, path: CText, missing: Seq<char>) -> Option<
    (OdErrorCode, Seq<char>),
> {
    if op is None || path is Null {
        Some((OdErrorCode::InvalidInput, missing))
    } else if !op->0.cap.stat {
        Some(
            (
                OdErrorCode::Unsupported,
                capability::unsupported_message(op->0.scheme@, "stat"@),
            ),
        )
    } else if path.text() is None {
        Some((OdErrorCode::InvalidInput, "path is null or not UTF-8"@))
    } else {
        None
    }
}

/// Whether an outcome is a path or the reason why there is none.
pub open spec fn is_path(
    outcome: Result<String, Failure>,
    path: CText,
    error: Option<(OdErrorCode, Seq<char>)>,
) -> bool {
    match error {
        Some((code, message)) => outcome matches Err(e) && e.is(code, message),
        None => outcome matches Ok(p) && path.text() == Some(p@),
    }
}

fn look(op: Option<&OdOperator>, path: &CText, missing: &str) -> (request: Result<String, Failure>)
    ensures
        is_path(request, *path, look_error(op, *path, missing@)),
{
    let op: &OdOperator = match (op, path) {
        (None, _) => {
            return Err(Failure::new(OdErrorCode::InvalidInput, missing));
        },
        (_, CText::Null) => {
            return Err(Failure::new(OdErrorCode::InvalidInput, missing));
        },
        (Some(op), _) => op,
    };
    match require(op.scheme.as_str(), op.cap.stat, "stat") {
        Ok(()) => {},
        Err(failure) => {
            return Err(failure);
        },
    }
    match cstr(path) {
        Some(path) => Ok(path.clone()),
        None => Err(Failure::new(OdErrorCode::InvalidInput, "path is null or not UTF-8")),
    }
}

/// The path to stat.  `has_output` says whether there is a place for the outcome.
pub fn od_stat(op: Option<&OdOperator>, path: &CText, has_output: bool) -> (request: Result<
    String,
    Failure,
>)
    ensures
        is_path(
            request,
            *path,
            if has_output {
                look_error(op, *path, "null operator, path, or metadata output"@)
            } else {
                Some((OdErrorCode::InvalidInput, "null operator, path, or metadata output"@))
            },
        ),
{
    if !has_output {
        return Err(
            Failure::new(OdErrorCode::InvalidInput, "null operator, path, or metadata output"),
        );
    }
    look(op, path, "null operator, path, or metadata output")
}

/// The path to look for.
pub fn od_exists(op: Option<&OdOperator>, path: &CText) -> (request: Result<String, Failure>)
    ensures
        is_path(request, *path, look_error(op, *path, "null operator or path"@)),
{
    look(op, path, "null operator or path")
}

/// The path to stat or look for on an operator built from a scheme, which is not
/// guarded.
pub fn odop_stat(op: Option<&OdopOperator>, path: &CText) -> (request: Result<String, Failure>)
    ensures
        is_path(
            request,
            *path,
            if op is None || path is Null {
                Some((OdErrorCode::InvalidInput, "null operator or path"@))
            } else if path.text() is None {
                Some((OdErrorCode::InvalidInput, "path not UTF-8"@))
            } else {
                None
            },
        ),
{
    match (op, path) {
        (None, _) => Err(Failure::new(OdErrorCode::InvalidInput, "null operator or path")),
        (_, CText::Null) => Err(Failure::new(OdErrorCode::InvalidInput, "null operator or path")),
        (_, CText::NotUtf8) => Err(Failure::new(OdErrorCode::InvalidInput, "path not UTF-8")),
        (_, CText::Text(path)) => Ok(path.clone()),
    }
}

/// The path to look for on an operator built from a scheme.
pub fn odop_exists(op: Option<&OdopOperator>, path: &CText) -> (request: Result<String, Failure>)
    ensures
        is_path(
            request,
            *path,
            if op is None || path is Null {
                Some((OdErrorCode::InvalidInput, "null operator or path"@))
            } else if path.text() is None {
                Some((OdErrorCode::InvalidInput, "path not UTF-8"@))
            } else {
                None
            },
        ),
{
    odop_stat(op, path)
}

/// The question whether a path names a directory.
///
/// Object stores keep no directories: there, a directory is a prefix with
/// something under it.  So where the path itself is not found, its prefix is
/// listed.
pub struct DirProbe {
    pub path: String,
    /// Whether the service can list.
    pub can_list: bool,
}

/// What to do next about a directory.
pub enum DirStep {
    /// The path names a directory, or it does not.
    Answer(bool),
    /// List under this prefix and look for one child.
    Probe(String),
    /// The question cannot be answered.
    Fail(Failure),
}

/// What listing a prefix showed.
pub enum Listed {
    /// There is a child.
    Child,
    /// There is nothing.
    Nothing,
    /// The listing could not be opened.
    NotOpened(ServiceError),
    /// The listing broke off.
    BrokeOff(ServiceError),
}

/// The prefix under which the children of a path lie.
pub open spec fn child_prefix(path: Seq<char>) -> Seq<char> {
    if path.len() == 0 || path.last() == '/' {
        path
    } else {
        path.push('/')
    }
}

/// Ask whether a path names a directory.
pub fn od_dir_exists(op: Option<&OdOperator>, path: &CText) -> (probe: Result<DirProbe, Failure>)
    ensures
        match look_error(op, *path, "null operator or path"@) {
            Some((code, message)) => probe matches Err(e) && e.is(code, message),
            None => probe matches Ok(p) && path.text() == Some(p.path@) && p.can_list
                == op->0.cap.list,
        },
{
    match look(op, path, "null operator or path") {
        Ok(path) => Ok(
            DirProbe {
                path,
                can_list: match op {
                    Some(op) => op.cap.list,
                    None => false,
                },
            },
        ),
        Err(failure) => Err(failure),
    }
}

impl DirProbe {
    /// Go on once the path was looked at: `stat` is whether it is a directory.
    pub fn after_stat(&self, stat: Result<bool, ServiceError>) -> (step: DirStep)
        ensures
            match stat {
                Ok(is_dir) => step == DirStep::Answer(is_dir),
                Err(error) => if error.kind != ErrorKind::NotFound {
                    step matches DirStep::Fail(f) && f.is(error.kind.category(), error.message@)
                } else if self.can_list {
                    step matches DirStep::Probe(prefix) && prefix@ == child_prefix(self.path@)
                } else {
                    step == DirStep::Answer(false)
                },
            },
    {
        match stat {
            Ok(is_dir) => DirStep::Answer(is_dir),
            Err(error) => if error.kind != ErrorKind::NotFound {
                DirStep::Fail(error.surface())
            } else if self.can_list {
                let chars: Vec<char> = chars_of(self.path.as_str());
                let mut prefix: String = self.path.clone();
                if chars.len() > 0 && chars[chars.len() - 1] != '/' {
                    prefix.push('/');
                }
                DirStep::Probe(prefix)
            } else {
                DirStep::Answer(false)
            },
        }
    }

    /// Answer once the prefix was listed.
    pub fn after_list(&self, listed: Listed) -> (answer: Result<bool, Failure>)
        ensures
            match listed {
                Listed::Child => answer == Ok::<bool, Failure>(true),
                Listed::Nothing => answer == Ok::<bool, Failure>(false),
                Listed::NotOpened(error) => if error.kind == ErrorKind::NotFound {
                    answer == Ok::<bool, Failure>(false)
                } else {
                    answer matches Err(e) && e.is(error.kind.category(), error.message@)
                },
                Listed::BrokeOff(error) => answer matches Err(e) && e.is(
                    error.kind.category(),
                    error.message@,
                ),
            },
    {
        match listed {
            Listed::Child => Ok(true),
            Listed::Nothing => Ok(false),
            Listed::NotOpened(error) => if error.kind == ErrorKind::NotFound {
                Ok(false)
            } else {
                Err(error.surface())
            },
            Listed::BrokeOff(error) => Err(error.surface()),
        }
    }
}

/// What an answer is as a return code: 1 for yes, 0 for no, -1 for neither.
pub fn answer_code(answer: &Result<bool, Failure>) -> (code: i8)
    ensures
        code == match answer {
            Ok(true) => 1int,
            Ok(false) => 0int,
            Err(_) => -1int,
        },
{
    match answer {
        Ok(true) => 1,
        Ok(false) => 0,
        Err(_) => -1,
    }
}

} // verus!
