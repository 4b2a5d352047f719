//! Materialized directory listings.

use vstd::prelude::*;

use crate::capability;
use crate::capability::require;
use crate::entry;
use crate::entry::Metadata;
use crate::error::{Failure, OdErrorCode};
use crate::ffi;
use crate::ffi::{as_c_text, cstr, CText};
use crate::operator::OdOperator;
use crate::stat;
use crate::stat::{directory, modified};

verus! {

/// A listing to make.
pub struct ListRequest {
    pub path: String,
    pub recursive: bool,
}

/// List entries under a path.
pub fn od_list(op: Option<&OdOperator>, path: &CText, recursive: u8) -> (request: Result<
    ListRequest,
    Failure,
>)
    ensures
        if op is None || path is Null {
            request matches Err(e) && e.is(OdErrorCode::InvalidInput, "null operator or path"@)
        } else if !op->0.cap.list {
            request matches Err(e) && e.is(
                OdErrorCode::Unsupported,
                capability::unsupported_message(op->0.scheme@, "list"@),
            )
        } else if path.text() is None {
            request matches Err(e) && e.is(OdErrorCode::InvalidInput, "path is null or not UTF-8"@)
        } else {
            request matches Ok(r) && path.text() == Some(r.path@) && r.recursive == (recursive != 0)
        },
{
    let op: &OdOperator = match (op, path) {
        (None, _) => {
            return Err(Failure::new(OdErrorCode::InvalidInput, "null operator or path"));
        },
        (_, CText::Null) => {
            return Err(Failure::new(OdErrorCode::InvalidInput, "null operator or path"));
        },
        (Some(op), _) => op,
    };
    match require(op.scheme.as_str(), op.cap.list, "list") {
        Ok(()) => {},
        Err(failure) => {
            return Err(failure);
        },
    }
    match cstr(path) {
        Some(path) => Ok(ListRequest { path: path.clone(), recursive: recursive != 0 }),
        None => Err(Failure::new(OdErrorCode::InvalidInput, "path is null or not UTF-8")),
    }
}

/// Entries by index: the path of each and what the service says of it.
pub struct OdEntryList {
    pub entries: Vec<(String, Metadata)>,
}

/// One entry as it is handed over.
pub struct OdEntry {
    pub path: String,
    pub name: String,
    pub content_length: u64,
    pub last_modified_ms: i64,
    pub is_dir: u8,
}

impl OdEntry {
    /// Whether this is how an entry is handed over.  Text that holds a NUL is
    /// handed over as empty text.
    pub open spec fn shows(self, path: Seq<char>, metadata: Metadata) -> bool {
        &&& self.path@ == ffi::c_text(path)
        &&& self.name@ == ffi::c_text(entry::basename(path))
        &&& self.content_length == metadata.content_length
        &&& self.last_modified_ms == stat::modified_or_unknown(metadata)
        &&& self.is_dir == stat::directory_flag(metadata)
    }

    /// An entry as it is handed over.
    pub fn of(path: &str, metadata: &Metadata) -> (shown: OdEntry)
        ensures
            shown.shows(path@, *metadata),
    {
        OdEntry {
            path: as_c_text(path.to_owned()),
            name: as_c_text(opendal::raw::get_basename(path).to_owned()),
            content_length: metadata.content_length,
            last_modified_ms: modified(metadata),
            is_dir: directory(metadata),
        }
    }
}

impl OdEntryList {
    /// The number of entries.
    pub fn len(&self) -> (len: usize)
        ensures
            len == self.entries@.len(),
    {
        self.entries.len()
    }
}

/// The entry at `index`.  `has_output` says whether there is a place for it.
pub fn od_list_entry(list: Option<&OdEntryList>, index: usize, has_output: bool) -> (shown: Result<
    OdEntry,
    Failure,
>)
    ensures
        if list is None || !has_output {
            shown matches Err(e) && e.is(OdErrorCode::InvalidInput, "null list or out parameter"@)
        } else if index >= list->0.entries@.len() {
            shown matches Err(e) && e.is(OdErrorCode::InvalidInput, "index out of bounds"@)
        } else {
            shown matches Ok(s) && s.shows(
                list->0.entries@[index as int].0@,
                list->0.entries@[index as int].1,
            )
        },
{
    let list: &OdEntryList = match list {
        Some(list) => list,
        None => {
            return Err(Failure::new(OdErrorCode::InvalidInput, "null list or out parameter"));
        },
    };
    if !has_output {
        return Err(Failure::new(OdErrorCode::InvalidInput, "null list or out parameter"));
    }
    if index >= list.entries.len() {
        return Err(Failure::new(OdErrorCode::InvalidInput, "index out of bounds"));
    }
    let (path, metadata) = &list.entries[index];
    Ok(OdEntry::of(path.as_str(), metadata))
}

} // verus!
