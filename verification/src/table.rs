//! Table scans: the entry of a path, listings and globs.

use vstd::prelude::*;
use vstd::utf8::*;

use crate::capability;
use crate::capability::require;
use crate::entry;
use crate::entry::{Metadata, OwnedRow};
use crate::error::{Failure, OdErrorCode, ServiceError};
use crate::ffi::{cstr, optional_cstr, CText};
use crate::glob;
use crate::glob::{glob_matches, glob_root, has_glob};
use crate::operator::OdOperator;
use crate::text;
use crate::text::{chars_of, has_char, text_eq, text_of, trimmed_end, without_leading};

verus! {

/// Stat options as received.
pub struct OdStatOptions {
    pub version: CText,
    pub if_match: CText,
    pub if_none_match: CText,
    pub if_modified_since_ms: i64,
    pub has_if_modified_since: u8,
    pub if_unmodified_since_ms: i64,
    pub has_if_unmodified_since: u8,
}

/// Stat options, decoded.  Times are Unix milliseconds.
pub struct StatOptions {
    pub version: Option<String>,
    pub if_match: Option<String>,
    pub if_none_match: Option<String>,
    pub if_modified_since: Option<i64>,
    pub if_unmodified_since: Option<i64>,
}

/// List options as received.
pub struct OdListOptions {
    pub limit: usize,
    pub has_limit: u8,
    pub start_after: CText,
    pub recursive: u8,
    pub versions: u8,
    pub deleted: u8,
}

/// List options, decoded.
pub struct ListOptions {
    pub limit: Option<usize>,
    pub start_after: Option<String>,
    pub recursive: bool,
    pub versions: bool,
    pub deleted: bool,
}

/// Whether a time lies within what a timestamp can hold: from -9999-01-02T01:59:59Z
/// up to 9999-12-30T22:00:00Z.
pub open spec fn admits_time(ms: i64) -> bool {
    -377_705_023_201_000 <= ms <= 253_402_207_200_000
}

/// What `opendal::raw::Timestamp::from_millisecond` says of a time that it refuses.
pub uninterp spec fn timestamp_refusal(ms: i64) -> Seq<char>;

/// `opendal::raw::Timestamp::from_millisecond`, for the sake of its refusal.  The
/// outcome depends on the time alone: times are refused outside the range of a
/// timestamp.
#[verifier::external_body]
fn refuse_timestamp(ms: i64) -> (refusal: Option<String>)
    ensures
        refusal is None <==> admits_time(ms),
        refusal matches Some(text) ==> text@ == timestamp_refusal(ms),
{
    opendal::raw::Timestamp::from_millisecond(ms).err().map(|error| error.to_string())
}

/// Why a time is refused, if so.
pub open spec fn time_refusal(ms: i64) -> Option<Seq<char>> {
    if admits_time(ms) {
        None
    } else {
        Some(timestamp_refusal(ms))
    }
}

/// What is wrong with a time that may be left out.
pub open spec fn time_error(refusal: Option<Seq<char>>, present: u8, name: Seq<char>) -> Option<
    Seq<char>,
> {
    match refusal {
        Some(refusal) if present != 0 => Some("invalid "@ + name + ": "@ + refusal),
        _ => None,
    }
}

/// A time that may be left out, once it is known whether it is refused.
pub fn checked_time(ms: i64, present: u8, name: &str, refusal: Option<String>) -> (time: Result<
    Option<i64>,
    String,
>)
    ensures
        match time_error(text::optional_text(refusal), present, name@) {
            Some(message) => time matches Err(e) && e@ == message,
            None => time == Ok::<Option<i64>, String>(
                if present != 0 {
                    Some(ms)
                } else {
                    None
                },
            ),
        },
{
    if present == 0 {
        return Ok(None);
    }
    match refusal {
        None => Ok(Some(ms)),
        Some(refusal) => {
            let mut message: String = "invalid ".to_owned();
            message.append(name);
            message.append(": ");
            message.append(refusal.as_str());
            Err(message)
        },
    }
}

/// A time that may be left out.
pub fn timestamp(ms: i64, present: u8, name: &str) -> (time: Result<Option<i64>, String>)
    ensures
        match time_error(time_refusal(ms), present, name@) {
            Some(message) => time matches Err(e) && e@ == message,
            None => time == Ok::<Option<i64>, String>(
                if present != 0 {
                    Some(ms)
                } else {
                    None
                },
            ),
        },
        time is Err <==> present != 0 && !admits_time(ms),
{
    let refusal: Option<String> = refuse_timestamp(ms);
    checked_time(ms, present, name, refusal)
}

/// What is wrong with a text that may be left out.
pub open spec fn decode_error(text: CText, name: Seq<char>) -> Option<Seq<char>> {
    match text {
        CText::NotUtf8 => Some(name + " is not UTF-8"@),
        _ => None,
    }
}

/// What is wrong with stat options: the first of them that is wrong.
pub open spec fn stat_options_error(raw: OdStatOptions) -> Option<Seq<char>> {
    entry::either(
        decode_error(raw.version, "version"@),
        entry::either(
            decode_error(raw.if_match, "if_match"@),
            entry::either(
                decode_error(raw.if_none_match, "if_none_match"@),
                entry::either(
                    time_error(
                        time_refusal(raw.if_modified_since_ms),
                        raw.has_if_modified_since,
                        "if_modified_since"@,
                    ),
                    time_error(
                        time_refusal(raw.if_unmodified_since_ms),
                        raw.has_if_unmodified_since,
                        "if_unmodified_since"@,
                    ),
                ),
            ),
        ),
    )
}

impl StatOptions {
    /// Whether these are the options received.
    pub open spec fn decodes(self, raw: OdStatOptions) -> bool {
        &&& text::optional_text(self.version) == raw.version.text()
        &&& text::optional_text(self.if_match) == raw.if_match.text()
        &&& text::optional_text(self.if_none_match) == raw.if_none_match.text()
        &&& self.if_modified_since == if raw.has_if_modified_since != 0 {
            Some(raw.if_modified_since_ms)
        } else {
            None
        }
        &&& self.if_unmodified_since == if raw.has_if_unmodified_since != 0 {
            Some(raw.if_unmodified_since_ms)
        } else {
            None
        }
    }
}

/// Whether stat options can be decoded: their texts are UTF-8, and the times that
/// are there lie within what a timestamp can hold.
pub open spec fn stat_options_decode(raw: OdStatOptions) -> bool {
    &&& !(raw.version is NotUtf8)
    &&& !(raw.if_match is NotUtf8)
    &&& !(raw.if_none_match is NotUtf8)
    &&& raw.has_if_modified_since != 0 ==> admits_time(raw.if_modified_since_ms)
    &&& raw.has_if_unmodified_since != 0 ==> admits_time(raw.if_unmodified_since_ms)
}

/// Decode stat options.
pub fn stat_options(raw: &OdStatOptions) -> (options: Result<StatOptions, String>)
    ensures
        options is Ok <==> stat_options_decode(*raw),
        match stat_options_error(*raw) {
            Some(message) => options matches Err(e) && e@ == message,
            None => options matches Ok(o) && o.decodes(*raw),
        },
{
    let version: Option<String> = match optional_cstr(&raw.version, "version") {
        Ok(version) => version,
        Err(message) => {
            return Err(message);
        },
    };
    let if_match: Option<String> = match optional_cstr(&raw.if_match, "if_match") {
        Ok(if_match) => if_match,
        Err(message) => {
            return Err(message);
        },
    };
    let if_none_match: Option<String> = match optional_cstr(&raw.if_none_match, "if_none_match") {
        Ok(if_none_match) => if_none_match,
        Err(message) => {
            return Err(message);
        },
    };
    let if_modified_since: Option<i64> = match timestamp(
        raw.if_modified_since_ms,
        raw.has_if_modified_since,
        "if_modified_since",
    ) {
        Ok(time) => time,
        Err(message) => {
            return Err(message);
        },
    };
    let if_unmodified_since: Option<i64> = match timestamp(
        raw.if_unmodified_since_ms,
        raw.has_if_unmodified_since,
        "if_unmodified_since",
    ) {
        Ok(time) => time,
        Err(message) => {
            return Err(message);
        },
    };
    Ok(StatOptions { version, if_match, if_none_match, if_modified_since, if_unmodified_since })
}

impl ListOptions {
    /// Whether these are the options received.
    pub open spec fn decodes(self, raw: OdListOptions) -> bool {
        &&& self.limit == if raw.has_limit != 0 {
            Some(raw.limit)
        } else {
            None
        }
        &&& text::optional_text(self.start_after) == raw.start_after.text()
        &&& self.recursive == (raw.recursive != 0)
        &&& self.versions == (raw.versions != 0)
        &&& self.deleted == (raw.deleted != 0)
    }

    /// Whether these are the options received, but for recursion, which is on.
    pub open spec fn decodes_recursive(self, raw: OdListOptions) -> bool {
        self.decodes(OdListOptions { recursive: 1, ..raw })
    }
}

/// Decode list options.
pub fn list_options(raw: &OdListOptions) -> (options: Result<ListOptions, String>)
    ensures
        match decode_error(raw.start_after, "start_after"@) {
            Some(message) => options matches Err(e) && e@ == message,
            None => options matches Ok(o) && o.decodes(*raw),
        },
{
    let start_after: Option<String> = match optional_cstr(&raw.start_after, "start_after") {
        Ok(start_after) => start_after,
        Err(message) => {
            return Err(message);
        },
    };
    let limit: Option<usize> = if raw.has_limit != 0 {
        Some(raw.limit)
    } else {
        None
    };
    Ok(
        ListOptions {
            limit,
            start_after,
            recursive: raw.recursive != 0,
            versions: raw.versions != 0,
            deleted: raw.deleted != 0,
        },
    )
}

/// Where the entries of a scan come from.
pub enum CursorSource {
    /// One entry, until it is taken.
    One(Option<(String, Metadata)>),
    /// A listing that is pulled from.
    List,
}

/// A scan over entries.
pub struct OdTableCursor {
    pub source: CursorSource,
    /// The pattern that paths have to match.
    pub glob: Option<String>,
    /// The listed directory itself, which is not shown.
    pub self_path: Option<String>,
}

/// What pulling from a scan's source gave.
pub enum Pulled {
    Entry(String, Metadata),
    End,
    Failed(ServiceError),
}

/// What a scan comes to next.
pub enum CursorStep {
    /// A row to show.
    Row(OwnedRow),
    /// The entry is not shown; pull again.
    Skip,
    /// There are no more rows.
    Done,
    Fail(Failure),
}

/// Whether a path is that of a directory, with or without a `/` at its end.
pub open spec fn is_directory_itself(path: Seq<char>, directory: Seq<char>) -> bool {
    path == directory || path == directory.push('/')
}

impl OdTableCursor {
    /// Whether an entry is shown: it is not the listed directory itself, and it
    /// matches the pattern.
    pub open spec fn shows(self, path: Seq<char>) -> bool {
        &&& self.self_path matches Some(directory) ==> !is_directory_itself(path, directory@)
        &&& self.glob matches Some(pattern) ==> glob::glob(
            encode_utf8(pattern@),
            encode_utf8(path),
        )
    }

    /// The entry that the source holds, if it holds one of its own.  A listing
    /// has to be pulled from.
    pub fn pull(&mut self) -> (pulled: Option<Pulled>)
        ensures
            final(self).glob == old(self).glob,
            final(self).self_path == old(self).self_path,
            match old(self).source {
                CursorSource::List => pulled is None && final(self).source == old(self).source,
                CursorSource::One(None) => pulled == Some(Pulled::End) && final(self).source
                    == old(self).source,
                CursorSource::One(Some(one)) => pulled == Some(Pulled::Entry(one.0, one.1))
                    && final(self).source == CursorSource::One(None),
            },
    {
        let mut source: CursorSource = CursorSource::List;
        std::mem::swap(&mut source, &mut self.source);
        match source {
            CursorSource::List => None,
            CursorSource::One(None) => {
                self.source = CursorSource::One(None);
                Some(Pulled::End)
            },
            CursorSource::One(Some((path, metadata))) => {
                self.source = CursorSource::One(None);
                Some(Pulled::Entry(path, metadata))
            },
        }
    }

    fn is_shown(&self, path: &str) -> (shown: bool)
        ensures
            shown == self.shows(path@),
    {
        match &self.self_path {
            Some(directory) => {
                if text_eq(path, directory.as_str()) {
                    return false;
                }
                let mut marked: String = directory.clone();
                marked.push('/');
                if text_eq(path, marked.as_str()) {
                    return false;
                }
            },
            None => {},
        }
        match &self.glob {
            Some(pattern) => glob_matches(pattern.as_str().as_bytes(), path.as_bytes()),
            None => true,
        }
    }

    /// What a scan comes to with what was pulled from its source.  A row that
    /// cannot be handed over ends the scan even where it would not be shown.
    pub fn next(&self, pulled: Pulled) -> (step: CursorStep)
        ensures
            match pulled {
                Pulled::End => step is Done,
                Pulled::Failed(error) => step matches CursorStep::Fail(f) && f.is(
                    error.kind.category(),
                    error.message@,
                ),
                Pulled::Entry(path, metadata) => match entry::row_error(path@, metadata) {
                    Some(message) => step matches CursorStep::Fail(f) && f.is(
                        OdErrorCode::Unexpected,
                        message,
                    ),
                    None => if self.shows(path@) {
                        step matches CursorStep::Row(row) && row.shows(path@, metadata)
                    } else {
                        step is Skip
                    },
                },
            },
    {
        match pulled {
            Pulled::End => CursorStep::Done,
            Pulled::Failed(error) => CursorStep::Fail(error.surface()),
            Pulled::Entry(path, metadata) => {
                let shown: bool = self.is_shown(path.as_str());
                match OwnedRow::from_parts(path, metadata) {
                    Ok(row) => if shown {
                        CursorStep::Row(row)
                    } else {
                        CursorStep::Skip
                    },
                    Err(message) => CursorStep::Fail(
                        Failure { code: OdErrorCode::Unexpected, message },
                    ),
                }
            },
        }
    }
}

/// A stat to make.
pub struct StatRequest {
    pub path: String,
    pub options: StatOptions,
}

/// Why opening a stat scan is refused, if so.
pub open spec fn stat_open_error(op: Option<&OdOperator>, path: CText, raw: OdStatOptions) -> Option<
    (OdErrorCode, Seq<char>),
> {
    if op is None {
        Some((OdErrorCode::InvalidInput, "null operator"@))
    } else if path.text() is None {
        Some((OdErrorCode::InvalidInput, "path is null or not UTF-8"@))
    } else if !op->0.cap.stat {
        Some(
            (OdErrorCode::Unsupported, capability::unsupported_message(op->0.scheme@, "stat"@)),
        )
    } else {
        match stat_options_error(raw) {
            Some(message) => Some((OdErrorCode::InvalidInput, message)),
            None => None,
        }
    }
}

/// Open a scan over the entry of a path.
pub fn od_table_stat_open(op: Option<&OdOperator>, path: &CText, raw: &OdStatOptions) -> (request:
    Result<StatRequest, Failure>)
    ensures
        request is Ok <==> op is Some && path.text() is Some && op->0.cap.stat
            && stat_options_decode(*raw),
        match stat_open_error(op, *path, *raw) {
            Some((code, message)) => request matches Err(e) && e.is(code, message),
            None => request matches Ok(r) && path.text() == Some(r.path@) && r.options.decodes(
                *raw,
            ),
        },
{
    let op: &OdOperator = match op {
        Some(op) => op,
        None => {
            return Err(Failure::new(OdErrorCode::InvalidInput, "null operator"));
        },
    };
    let path: &String = match cstr(path) {
        Some(path) => path,
        None => {
            return Err(Failure::new(OdErrorCode::InvalidInput, "path is null or not UTF-8"));
        },
    };
    match require(op.scheme.as_str(), op.cap.stat, "stat") {
        Ok(()) => {},
        Err(failure) => {
            return Err(failure);
        },
    }
    match stat_options(raw) {
        Ok(options) => Ok(StatRequest { path: path.clone(), options }),
        Err(message) => Err(Failure { code: OdErrorCode::InvalidInput, message }),
    }
}

/// The scan over one entry.
pub fn stat_cursor(path: String, metadata: Metadata) -> (cursor: OdTableCursor)
    ensures
        cursor.source == CursorSource::One(Some((path, metadata))),
        cursor.glob is None,
        cursor.self_path is None,
{
    OdTableCursor { source: CursorSource::One(Some((path, metadata))), glob: None, self_path: None }
}

/// A listing to make, and the scan over it.
pub struct ListOpen {
    pub path: String,
    pub options: ListOptions,
    pub cursor: OdTableCursor,
}

/// A path without the `/` around it.
pub open spec fn trim_slashes(path: Seq<char>) -> Seq<char> {
    text::trim_end(text::trim_start(path, '/'), '/')
}

/// Why opening a list scan is refused, if so.
pub open spec fn list_open_error(
    op: Option<&OdOperator>,
    path: CText,
    pattern: CText,
    raw: OdListOptions,
) -> Option<(OdErrorCode, Seq<char>)> {
    if op is None {
        Some((OdErrorCode::InvalidInput, "null operator"@))
    } else if path.text() is None {
        Some((OdErrorCode::InvalidInput, "path is null or not UTF-8"@))
    } else if decode_error(pattern, "glob"@) is Some {
        Some((OdErrorCode::InvalidInput, decode_error(pattern, "glob"@)->0))
    } else if !op->0.cap.list {
        Some(
            (OdErrorCode::Unsupported, capability::unsupported_message(op->0.scheme@, "list"@)),
        )
    } else {
        match decode_error(raw.start_after, "start_after"@) {
            Some(message) => Some((OdErrorCode::InvalidInput, message)),
            None => None,
        }
    }
}

fn without_slashes(path: &str) -> (trimmed: String)
    ensures
        trimmed@ == trim_slashes(path@),
{
    let rest: String = without_leading(path, '/');
    let chars: Vec<char> = chars_of(rest.as_str());
    let end: usize = trimmed_end(&chars, '/');
    text_of(&chars, 0, end)
}

/// Open a scan over a listing, with an optional pattern.
pub fn od_table_list_open(
    op: Option<&OdOperator>,
    path: &CText,
    pattern: &CText,
    raw: &OdListOptions,
) -> (open: Result<ListOpen, Failure>)
    ensures
        match list_open_error(op, *path, *pattern, *raw) {
            Some((code, message)) => open matches Err(e) && e.is(code, message),
            None => open matches Ok(o) && {
                &&& path.text() == Some(o.path@)
                &&& o.options.decodes(*raw)
                &&& o.cursor.source is List
                &&& text::optional_text(o.cursor.glob) == pattern.text()
                &&& text::optional_text(o.cursor.self_path) == Some(trim_slashes(path.text()->0))
            },
        },
{
    let op: &OdOperator = match op {
        Some(op) => op,
        None => {
            return Err(Failure::new(OdErrorCode::InvalidInput, "null operator"));
        },
    };
    let path: &String = match cstr(path) {
        Some(path) => path,
        None => {
            return Err(Failure::new(OdErrorCode::InvalidInput, "path is null or not UTF-8"));
        },
    };
    let glob: Option<String> = match optional_cstr(pattern, "glob") {
        Ok(glob) => glob,
        Err(message) => {
            return Err(Failure { code: OdErrorCode::InvalidInput, message });
        },
    };
    match require(op.scheme.as_str(), op.cap.list, "list") {
        Ok(()) => {},
        Err(failure) => {
            return Err(failure);
        },
    }
    let options: ListOptions = match list_options(raw) {
        Ok(options) => options,
        Err(message) => {
            return Err(Failure { code: OdErrorCode::InvalidInput, message });
        },
    };
    let cursor: OdTableCursor = OdTableCursor {
        source: CursorSource::List,
        glob,
        self_path: Some(without_slashes(path.as_str())),
    };
    Ok(ListOpen { path: path.clone(), options, cursor })
}

/// Why opening a glob scan is refused, if so.
pub open spec fn glob_open_error(
    op: Option<&OdOperator>,
    pattern: CText,
    raw: OdListOptions,
) -> Option<(OdErrorCode, Seq<char>)> {
    match pattern.text() {
        None => Some((OdErrorCode::InvalidInput, "pattern is null or not UTF-8"@)),
        Some(p) => if glob::first_wild(p) == p.len() {
            Some((OdErrorCode::InvalidInput, "glob pattern has no wildcard"@))
        } else if p.contains('\0') {
            Some((OdErrorCode::InvalidInput, "glob pattern contains a NUL byte"@))
        } else if op is None {
            Some((OdErrorCode::InvalidInput, "null operator"@))
        } else if !op->0.cap.list {
            Some(
                (
                    OdErrorCode::Unsupported,
                    capability::unsupported_message(op->0.scheme@, "list"@),
                ),
            )
        } else {
            match decode_error(raw.start_after, "start_after"@) {
                Some(message) => Some((OdErrorCode::InvalidInput, message)),
                None => None,
            }
        },
    }
}

/// A pattern holds a NUL exactly where it does without its leading `/`.
proof fn lemma_stripped_nul(p: Seq<char>)
    ensures
        text::trim_start(p, '/').contains('\0') <==> p.contains('\0'),
    decreases p.len(),
{
    if p.len() > 0 && p[0] == '/' {
        let rest = p.drop_first();
        lemma_stripped_nul(rest);
        if p.contains('\0') {
            let i = choose|i: int| 0 <= i < p.len() && p[i] == '\0';
            assert(rest[i - 1] == '\0');
        }
        if rest.contains('\0') {
            let i = choose|i: int| 0 <= i < rest.len() && rest[i] == '\0';
            assert(p[i + 1] == '\0');
        }
    }
}

/// Open a scan over what matches a pattern: a recursive listing of the pattern's
/// static prefix, filtered by the pattern without its leading `/`.
pub fn od_table_glob_open(op: Option<&OdOperator>, pattern: &CText, raw: OdListOptions) -> (open:
    Result<ListOpen, Failure>)
    ensures
        match glob_open_error(op, *pattern, raw) {
            Some((code, message)) => open matches Err(e) && e.is(code, message),
            None => open matches Ok(o) && {
                let p = pattern.text()->0;
                &&& o.path@ == glob::static_root(p)
                &&& o.options.decodes_recursive(raw)
                &&& o.cursor.source is List
                &&& text::optional_text(o.cursor.glob) == Some(text::trim_start(p, '/'))
                &&& text::optional_text(o.cursor.self_path) == Some(trim_slashes(glob::static_root(p)))
            },
        },
{
    let pattern: &String = match cstr(pattern) {
        Some(pattern) => pattern,
        None => {
            return Err(Failure::new(OdErrorCode::InvalidInput, "pattern is null or not UTF-8"));
        },
    };
    proof {
        glob::lemma_first_wild(pattern@);
        lemma_stripped_nul(pattern@);
    }
    if !has_glob(pattern.as_str()) {
        return Err(Failure::new(OdErrorCode::InvalidInput, "glob pattern has no wildcard"));
    }
    let normalized: String = without_leading(pattern.as_str(), '/');
    if has_char(normalized.as_str(), '\0') {
        return Err(Failure::new(OdErrorCode::InvalidInput, "glob pattern contains a NUL byte"));
    }
    let root: String = glob_root(pattern.as_str()).to_owned();
    let recursive: OdListOptions = OdListOptions { recursive: 1, ..raw };
    od_table_list_open(op, &CText::Text(root), &CText::Text(normalized), &recursive)
}

/// A glob scan misses nothing: every path that matches its pattern lies under
/// the prefix that is listed.
pub proof fn law_globs_list_enough(pattern: Seq<char>, path: Seq<char>)
    requires
        glob::glob(encode_utf8(text::trim_start(pattern, '/')), encode_utf8(path)),
    ensures
        ({
            let prefix = text::trim_start(glob::static_root(pattern), '/');
            prefix.len() <= path.len() && path.take(prefix.len() as int) == prefix
        }),
{
    glob::law_static_root_of_stripped_pattern(pattern);
    glob::law_matches_lie_under_static_root(text::trim_start(pattern, '/'), path);
}

/// Whether a path matches a pattern: 1 or 0.  Text that does not decode matches
/// nothing.
pub fn od_glob_match(pattern: &CText, path: &CText) -> (matched: u8)
    ensures
        matched == match (pattern.text(), path.text()) {
            (Some(p), Some(v)) => if glob::glob(encode_utf8(p), encode_utf8(v)) {
                1int
            } else {
                0int
            },
            _ => 0int,
        },
{
    match (cstr(pattern), cstr(path)) {
        (Some(pattern), Some(path)) => if glob_matches(
            pattern.as_str().as_bytes(),
            path.as_str().as_bytes(),
        ) {
            1
        } else {
            0
        },
        _ => 0,
    }
}

} // verus!
