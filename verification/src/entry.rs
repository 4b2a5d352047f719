//! Entries of a service as table rows.

use vstd::prelude::*;

use crate::complaint;
use crate::text;
use crate::text::has_char;
use crate::text_map;
use crate::text_map::TextMap;

verus! {

/// What kind of object an entry is.
#[derive(Clone, Copy, Debug, PartialEq, Eq, Structural)]
pub enum EntryMode {
    File,
    Dir,
    Unknown,
}

impl EntryMode {
    /// The number that stands for the mode in a row.
    pub open spec fn number(self) -> u8 {
        match self {
            EntryMode::File => 1,
            EntryMode::Dir => 2,
            EntryMode::Unknown => 0,
        }
    }
}

/// What a service says of an object.
pub struct Metadata {
    pub mode: EntryMode,
    pub content_length: u64,
    pub cache_control: Option<String>,
    pub content_disposition: Option<String>,
    pub content_md5: Option<String>,
    pub content_type: Option<String>,
    pub content_encoding: Option<String>,
    pub etag: Option<String>,
    pub version: Option<String>,
    /// Unix milliseconds.
    pub last_modified_ms: Option<i64>,
    pub is_current: Option<bool>,
    pub is_deleted: bool,
    /// Pairs in any order.
    pub user_metadata: Vec<(String, String)>,
}

/// A row that can be handed over: no text of it holds a NUL, and its user
/// metadata ascends by key.
pub struct OwnedRow {
    pub path: String,
    pub name: String,
    pub cache_control: Option<String>,
    pub content_disposition: Option<String>,
    pub content_md5: Option<String>,
    pub content_type: Option<String>,
    pub content_encoding: Option<String>,
    pub etag: Option<String>,
    pub version: Option<String>,
    pub user_keys: Vec<String>,
    pub user_values: Vec<String>,
    pub mode: u8,
    pub content_length: u64,
    pub last_modified_ms: i64,
    pub has_last_modified: u8,
    pub is_current: u8,
    pub has_is_current: u8,
    pub is_deleted: u8,
}

/// The last name of a path.  The name of a directory keeps its trailing `/`.
pub open spec fn basename(path: Seq<char>) -> Seq<char> {
    let stem = if path.len() > 0 && path.last() == '/' {
        path.drop_last()
    } else {
        path
    };
    match text::last_index(stem, '/') {
        Some(slash) => path.skip(slash + 1),
        None => path,
    }
}

/// `opendal::raw::get_basename` gives the part of a path behind its last `/`, or
/// behind the one before a trailing `/`.
pub assume_specification[ opendal::raw::get_basename ](path: &str) -> (name: &str)
    ensures
        name@ == basename(path@),
;

/// What is said of text that cannot be handed over.
pub open spec fn nul_message(field: Seq<char>) -> Seq<char> {
    "OpenDAL "@ + field + " contains a NUL byte"@
}

/// What is wrong with a text.
pub open spec fn text_error(s: Seq<char>, field: Seq<char>) -> Option<Seq<char>> {
    if s.contains('\0') {
        Some(nul_message(field))
    } else {
        None
    }
}

/// What is wrong with an optional text.
pub open spec fn optional_error(s: Option<String>, field: Seq<char>) -> Option<Seq<char>> {
    match s {
        Some(s) => text_error(s@, field),
        None => None,
    }
}

/// What is wrong with an entry of the user metadata.
pub open spec fn user_error(key: Seq<char>, value: Seq<char>) -> Option<Seq<char>> {
    if key.contains('\0') {
        Some(nul_message("user metadata key"@))
    } else {
        text_error(value, "user metadata value"@)
    }
}

/// The complaints about user metadata.
pub open spec fn user_errors() -> spec_fn(Seq<char>, Seq<char>) -> Option<Seq<char>> {
    |key: Seq<char>, value: Seq<char>| user_error(key, value)
}

/// The map that pairs spell.
pub open spec fn user_entries(pairs: Seq<(String, String)>) -> Map<Seq<char>, Seq<char>>
    decreases pairs.len(),
{
    if pairs.len() == 0 {
        Map::empty()
    } else {
        user_entries(pairs.drop_last()).insert(pairs.last().0@, pairs.last().1@)
    }
}

/// The first of two complaints.
pub open spec fn either(a: Option<Seq<char>>, b: Option<Seq<char>>) -> Option<Seq<char>> {
    match a {
        Some(_) => a,
        None => b,
    }
}

/// What is wrong with the optional texts of an object.
pub open spec fn fields_error(metadata: Metadata) -> Option<Seq<char>> {
    either(
        optional_error(metadata.cache_control, "cache_control"@),
        either(
            optional_error(metadata.content_disposition, "content_disposition"@),
            either(
                optional_error(metadata.content_md5, "content_md5"@),
                either(
                    optional_error(metadata.content_type, "content_type"@),
                    either(
                        optional_error(metadata.content_encoding, "content_encoding"@),
                        either(
                            optional_error(metadata.etag, "etag"@),
                            optional_error(metadata.version, "version"@),
                        ),
                    ),
                ),
            ),
        ),
    )
}

/// What is wrong with an entry: the first text that holds a NUL, the user
/// metadata first and by key, then the path, then the other fields.
pub open spec fn row_error(path: Seq<char>, metadata: Metadata) -> Option<Seq<char>> {
    either(
        complaint::complaint(user_entries(metadata.user_metadata@), user_errors()),
        either(text_error(path, "path"@), fields_error(metadata)),
    )
}

/// One for true, zero for false.
pub open spec fn flag_number(flag: bool) -> u8 {
    if flag {
        1
    } else {
        0
    }
}

fn flag(set: bool) -> (number: u8)
    ensures
        number == flag_number(set),
{
    if set {
        1
    } else {
        0
    }
}

fn check_text(s: &str, field: &str) -> (message: Option<String>)
    ensures
        match text_error(s@, field@) {
            Some(text) => message matches Some(m) && m@ == text,
            None => message is None,
        },
{
    if has_char(s, '\0') {
        let mut message: String = "OpenDAL ".to_owned();
        message.append(field);
        message.append(" contains a NUL byte");
        Some(message)
    } else {
        None
    }
}

/// Text that can be handed over.
pub fn cstring(value: String, field: &str) -> (text: Result<String, String>)
    ensures
        match text_error(value@, field@) {
            Some(message) => text matches Err(e) && e@ == message,
            None => text matches Ok(t) && t == value,
        },
{
    match check_text(value.as_str(), field) {
        Some(message) => Err(message),
        None => Ok(value),
    }
}

fn check_optional(s: &Option<String>, field: &str) -> (message: Option<String>)
    ensures
        match optional_error(*s, field@) {
            Some(text) => message matches Some(m) && m@ == text,
            None => message is None,
        },
{
    match s {
        Some(s) => check_text(s.as_str(), field),
        None => None,
    }
}

fn check_fields(metadata: &Metadata) -> (message: Option<String>)
    ensures
        match fields_error(*metadata) {
            Some(text) => message matches Some(m) && m@ == text,
            None => message is None,
        },
{
    let mut message: Option<String> = check_optional(&metadata.cache_control, "cache_control");
    if message.is_none() {
        message = check_optional(&metadata.content_disposition, "content_disposition");
    }
    if message.is_none() {
        message = check_optional(&metadata.content_md5, "content_md5");
    }
    if message.is_none() {
        message = check_optional(&metadata.content_type, "content_type");
    }
    if message.is_none() {
        message = check_optional(&metadata.content_encoding, "content_encoding");
    }
    if message.is_none() {
        message = check_optional(&metadata.etag, "etag");
    }
    if message.is_none() {
        message = check_optional(&metadata.version, "version");
    }
    message
}

/// The pairs as a map.
fn collect_user_metadata(pairs: &Vec<(String, String)>) -> (user: TextMap<String>)
    ensures
        user.wf(),
        complaint::entries(&user) == user_entries(pairs@),
{
    let mut user: TextMap<String> = TextMap::new();
    let mut i: usize = 0;
    assert(complaint::entries(&user) =~= Map::<Seq<char>, Seq<char>>::empty());
    assert(pairs@.take(0) =~= Seq::<(String, String)>::empty());
    while i < pairs.len()
        invariant
            i <= pairs@.len(),
            user.wf(),
            complaint::entries(&user) == user_entries(pairs@.take(i as int)),
        decreases pairs@.len() - i,
    {
        let ghost before = complaint::entries(&user);
        let ghost next = pairs@.take(i + 1);
        let key: String = pairs[i].0.clone();
        let value: String = pairs[i].1.clone();
        let ghost k = key@;
        let ghost v = value@;
        user.insert(key, value);
        assert(complaint::entries(&user) =~= before.insert(k, v));
        assert(next.drop_last() =~= pairs@.take(i as int));
        assert(next.last() == pairs@[i as int]);
        i += 1;
    }
    assert(pairs@.take(i as int) =~= pairs@);
    user
}

/// The rows that parallel keys and values spell.
pub open spec fn zipped(keys: Seq<String>, values: Seq<String>) -> Seq<(Seq<char>, Seq<char>)> {
    Seq::new(keys.len(), |i: int| (keys[i]@, values[i]@))
}

/// User metadata in the order of its keys, or the complaint about it.
fn user_columns(pairs: &Vec<(String, String)>) -> (columns: Result<
    (Vec<String>, Vec<String>),
    String,
>)
    ensures
        match complaint::complaint(user_entries(pairs@), user_errors()) {
            Some(message) => columns matches Err(e) && e@ == message,
            None => columns matches Ok(c) && c.0@.len() == c.1@.len() && text_map::ascending(
                zipped(c.0@, c.1@),
            ) && text_map::map_of(zipped(c.0@, c.1@)) == user_entries(pairs@),
        },
{
    let user: TextMap<String> = collect_user_metadata(pairs);
    let ghost rows = user.rows();
    let mut keys: Vec<String> = Vec::new();
    let mut values: Vec<String> = Vec::new();
    let mut i: usize = 0;
    while i < user.len()
        invariant
            rows == user.rows(),
            user.wf(),
            complaint::entries(&user) == user_entries(pairs@),
            i <= rows.len(),
            keys@.len() == i,
            values@.len() == i,
            forall|j: int|
                0 <= j < i ==> (#[trigger] rows[j]).0 == keys@[j]@ && rows[j].1@ == values@[j]@,
            complaint::first_error(rows.take(i as int), user_errors()) is None,
        decreases rows.len() - i,
    {
        proof {
            complaint::lemma_first_error_step(rows, i as int, user_errors());
        }
        let key: &String = user.key(i);
        let value: &String = user.value(i);
        let mut message: Option<String> = check_text(key.as_str(), "user metadata key");
        if message.is_none() {
            message = check_text(value.as_str(), "user metadata value");
        }
        match message {
            Some(message) => {
                proof {
                    complaint::lemma_first_error_prefix(rows, i + 1, user_errors());
                    complaint::lemma_complaint(&user, user_errors());
                }
                return Err(message);
            },
            None => {},
        }
        keys.push(key.clone());
        values.push(value.clone());
        i += 1;
    }
    proof {
        assert(rows.take(i as int) =~= rows);
        complaint::lemma_complaint(&user, user_errors());
        let columns = zipped(keys@, values@);
        assert forall|a: int, b: int| 0 <= a < b < columns.len() implies #[trigger] text::text_lt(
            columns[a].0,
            columns[b].0,
        ) by {
            assert(text::text_lt(rows[a].0, rows[b].0));
        }
        let m = text_map::map_of(columns);
        let n = complaint::entries(&user);
        assert forall|k: Seq<char>| m.dom().contains(k) <==> n.dom().contains(k) by {
            if m.dom().contains(k) {
                let j = choose|j: int| 0 <= j < columns.len() && (#[trigger] columns[j]).0 == k;
                assert(rows[j].0 == k);
            }
            if n.dom().contains(k) {
                assert(user@.dom().contains(k));
                let j = choose|j: int| 0 <= j < rows.len() && (#[trigger] rows[j]).0 == k;
                assert(columns[j].0 == k);
            }
        }
        assert forall|k: Seq<char>| m.dom().contains(k) implies m[k] == n[k] by {
            let j = choose|j: int| 0 <= j < columns.len() && (#[trigger] columns[j]).0 == k;
            text_map::lemma_entry(columns, j);
            text_map::lemma_entry(rows, j);
            assert(rows[j].0 == k);
        }
        assert(m =~= n);
    }
    Ok((keys, values))
}

impl OwnedRow {
    /// Whether this is the row of an entry.
    pub open spec fn shows(self, path: Seq<char>, metadata: Metadata) -> bool {
        let user = zipped(self.user_keys@, self.user_values@);
        &&& self.path@ == path
        &&& self.name@ == basename(path)
        &&& self.cache_control == metadata.cache_control
        &&& self.content_disposition == metadata.content_disposition
        &&& self.content_md5 == metadata.content_md5
        &&& self.content_type == metadata.content_type
        &&& self.content_encoding == metadata.content_encoding
        &&& self.etag == metadata.etag
        &&& self.version == metadata.version
        &&& self.user_keys@.len() == self.user_values@.len()
        &&& text_map::ascending(user)
        &&& text_map::map_of(user) == user_entries(metadata.user_metadata@)
        &&& self.mode == metadata.mode.number()
        &&& self.content_length == metadata.content_length
        &&& self.last_modified_ms == match metadata.last_modified_ms {
            Some(ms) => ms,
            None => 0,
        }
        &&& self.has_last_modified == flag_number(metadata.last_modified_ms is Some)
        &&& self.is_current == flag_number(metadata.is_current == Some(true))
        &&& self.has_is_current == flag_number(metadata.is_current is Some)
        &&& self.is_deleted == flag_number(metadata.is_deleted)
    }

    /// The row of an entry.
    pub fn from_parts(path: String, metadata: Metadata) -> (row: Result<OwnedRow, String>)
        ensures
            match row_error(path@, metadata) {
                Some(message) => row matches Err(e) && e@ == message,
                None => row matches Ok(r) && r.shows(path@, metadata),
            },
    {
        let (user_keys, user_values): (Vec<String>, Vec<String>) = match user_columns(
            &metadata.user_metadata,
        ) {
            Ok(columns) => columns,
            Err(message) => {
                return Err(message);
            },
        };
        let name: String = opendal::raw::get_basename(path.as_str()).to_owned();
        let path: String = match cstring(path, "path") {
            Ok(path) => path,
            Err(message) => {
                return Err(message);
            },
        };
        match check_fields(&metadata) {
            Some(message) => {
                return Err(message);
            },
            None => {},
        }
        let mode: u8 = match metadata.mode {
            EntryMode::File => 1,
            EntryMode::Dir => 2,
            EntryMode::Unknown => 0,
        };
        let last_modified_ms: i64 = match metadata.last_modified_ms {
            Some(ms) => ms,
            None => 0,
        };
        Ok(
            OwnedRow {
                path,
                name,
                cache_control: metadata.cache_control,
                content_disposition: metadata.content_disposition,
                content_md5: metadata.content_md5,
                content_type: metadata.content_type,
                content_encoding: metadata.content_encoding,
                etag: metadata.etag,
                version: metadata.version,
                user_keys,
                user_values,
                mode,
                content_length: metadata.content_length,
                last_modified_ms,
                has_last_modified: flag(metadata.last_modified_ms.is_some()),
                is_current: flag(matches!(metadata.is_current, Some(true))),
                has_is_current: flag(metadata.is_current.is_some()),
                is_deleted: flag(metadata.is_deleted),
            },
        )
    }
}

/// The name of an entry is the end of its path, so it can be handed over where
/// the path can.
pub proof fn law_names_end_paths(path: Seq<char>)
    ensures
        basename(path).len() <= path.len(),
        basename(path) == path.skip(path.len() - basename(path).len()),
        !path.contains('\0') ==> !basename(path).contains('\0'),
{
    let stem = if path.len() > 0 && path.last() == '/' {
        path.drop_last()
    } else {
        path
    };
    text::lemma_last_index(stem, '/');
    let name = basename(path);
    assert(name =~= path.skip(path.len() - name.len()));
    if name.contains('\0') {
        let i = choose|i: int| 0 <= i < name.len() && name[i] == '\0';
        assert(path[i + path.len() - name.len()] == '\0');
    }
}

/// Pairs spell finitely many entries.
proof fn lemma_user_entries_finite(pairs: Seq<(String, String)>)
    ensures
        user_entries(pairs).dom().finite(),
    decreases pairs.len(),
{
    if pairs.len() > 0 {
        lemma_user_entries_finite(pairs.drop_last());
    }
}

/// Whether an optional text holds no NUL.
pub open spec fn is_clean(s: Option<String>) -> bool {
    s matches Some(text) ==> !text@.contains('\0')
}

/// A row can be handed over as it is: none of its texts holds a NUL.
pub proof fn law_rows_hold_no_nul(row: OwnedRow, path: Seq<char>, metadata: Metadata)
    requires
        row_error(path, metadata) is None,
        row.shows(path, metadata),
    ensures
        !row.path@.contains('\0'),
        !row.name@.contains('\0'),
        is_clean(row.cache_control),
        is_clean(row.content_disposition),
        is_clean(row.content_md5),
        is_clean(row.content_type),
        is_clean(row.content_encoding),
        is_clean(row.etag),
        is_clean(row.version),
        forall|i: int| 0 <= i < row.user_keys@.len() ==> !(#[trigger] row.user_keys@[i])@.contains('\0'),
        forall|i: int|
            0 <= i < row.user_values@.len() ==> !(#[trigger] row.user_values@[i])@.contains('\0'),
{
    law_names_end_paths(path);
    let user = zipped(row.user_keys@, row.user_values@);
    let m = user_entries(metadata.user_metadata@);
    lemma_user_entries_finite(metadata.user_metadata@);
    assert forall|i: int| 0 <= i < user.len() implies user_error(
        (#[trigger] user[i]).0,
        user[i].1,
    ) is None by {
        text_map::lemma_entry(user, i);
        if user_error(user[i].0, user[i].1) is Some {
            complaint::law_complaints_are_found(m, user_errors(), user[i].0);
        }
    }
    assert forall|i: int| 0 <= i < row.user_keys@.len() implies !(
    #[trigger] row.user_keys@[i])@.contains('\0') by {
        assert(user_error(user[i].0, user[i].1) is None);
    }
    assert forall|i: int| 0 <= i < row.user_values@.len() implies !(
    #[trigger] row.user_values@[i])@.contains('\0') by {
        assert(user_error(user[i].0, user[i].1) is None);
    }
}

} // verus!
