//! Rows of entries.

use vstd::prelude::*;

use crate::complaint;
use crate::entry;
use crate::entry::{Metadata, OwnedRow};
use crate::text;
use crate::text_map;

verus! {

/// A row shows each field of the metadata under its own name, and nothing else.
pub proof fn law_rows_show_metadata(path: String, metadata: Metadata, row: OwnedRow)
    requires
        call_ensures(OwnedRow::from_parts, (path, metadata), Ok::<OwnedRow, String>(row)),
    ensures
        row.path@ == path@,
        row.content_length == metadata.content_length,
        row.cache_control == metadata.cache_control,
        row.content_disposition == metadata.content_disposition,
        row.content_md5 == metadata.content_md5,
        row.content_type == metadata.content_type,
        row.content_encoding == metadata.content_encoding,
        row.etag == metadata.etag,
        row.version == metadata.version,
{
}

/// Modes, times and flags are told by numbers that can be told apart.
pub proof fn law_rows_number_modes_and_flags(path: String, metadata: Metadata, row: OwnedRow)
    requires
        call_ensures(OwnedRow::from_parts, (path, metadata), Ok::<OwnedRow, String>(row)),
    ensures
        row.mode == 1 <==> metadata.mode is File,
        row.mode == 2 <==> metadata.mode is Dir,
        row.mode == 0 <==> metadata.mode is Unknown,
        metadata.last_modified_ms matches Some(ms) ==> row.has_last_modified == 1
            && row.last_modified_ms == ms,
        metadata.last_modified_ms is None ==> row.has_last_modified == 0 && row.last_modified_ms
            == 0,
        metadata.is_current == Some(true) ==> row.has_is_current == 1 && row.is_current == 1,
        metadata.is_current == Some(false) ==> row.has_is_current == 1 && row.is_current == 0,
        metadata.is_current is None ==> row.has_is_current == 0 && row.is_current == 0,
        metadata.is_deleted ==> row.is_deleted == 1,
        !metadata.is_deleted ==> row.is_deleted == 0,
{
}

/// Metadata that differs in one field gives rows that differ in that column alone.
pub proof fn law_columns_are_independent(
    path: String,
    metadata: Metadata,
    content_type: Option<String>,
    row: OwnedRow,
    other: OwnedRow,
)
    requires
        call_ensures(OwnedRow::from_parts, (path, metadata), Ok::<OwnedRow, String>(row)),
        call_ensures(
            OwnedRow::from_parts,
            (path, Metadata { content_type, ..metadata }),
            Ok::<OwnedRow, String>(other),
        ),
    ensures
        row.content_type == metadata.content_type,
        other.content_type == content_type,
        row.cache_control == other.cache_control,
        row.content_disposition == other.content_disposition,
        row.content_md5 == other.content_md5,
        row.content_encoding == other.content_encoding,
        row.etag == other.etag,
        row.version == other.version,
        row.path@ == other.path@,
        row.name@ == other.name@,
        row.mode == other.mode,
        row.content_length == other.content_length,
        row.last_modified_ms == other.last_modified_ms,
        row.has_last_modified == other.has_last_modified,
        row.is_current == other.is_current,
        row.has_is_current == other.has_is_current,
        row.is_deleted == other.is_deleted,
        row.user_keys@.len() == other.user_keys@.len(),
        forall|i: int|
            0 <= i < row.user_keys@.len() ==> (#[trigger] row.user_keys@[i])@
                == other.user_keys@[i]@ && row.user_values@[i]@ == other.user_values@[i]@,
{
    let a = entry::zipped(row.user_keys@, row.user_values@);
    let b = entry::zipped(other.user_keys@, other.user_values@);
    lemma_same_rows(a, b);
    assert(a.len() == row.user_keys@.len());
    assert(b.len() == other.user_keys@.len());
    assert forall|i: int| 0 <= i < row.user_keys@.len() implies (#[trigger] row.user_keys@[i])@
        == other.user_keys@[i]@ && row.user_values@[i]@ == other.user_values@[i]@ by {
        assert(a[i] == b[i]);
    }
}

/// A map has one list of rows.
proof fn lemma_same_rows(a: Seq<(Seq<char>, Seq<char>)>, b: Seq<(Seq<char>, Seq<char>)>)
    requires
        text_map::ascending(a),
        text_map::ascending(b),
        text_map::map_of(a) == text_map::map_of(b),
    ensures
        a == b,
    decreases a.len(),
{
    let m = text_map::map_of(a);
    if a.len() == 0 {
        if b.len() > 0 {
            text_map::lemma_entry(b, 0);
        }
        assert(a =~= b);
    } else {
        let x = a.len() - 1;
        text_map::lemma_entry(a, x);
        let j = choose|j: int| 0 <= j < b.len() && (#[trigger] b[j]).0 == a[x].0;
        let y = b.len() - 1;
        text_map::lemma_entry(b, y);
        let i = choose|i: int| 0 <= i < a.len() && (#[trigger] a[i]).0 == b[y].0;
        text::lemma_text_lt_irreflexive(a[x].0);
        if j < y {
            assert(text::text_lt(b[j].0, b[y].0));
            if i < x {
                assert(text::text_lt(a[i].0, a[x].0));
                text::lemma_text_lt_antisymmetric(a[x].0, b[y].0);
            }
        }
        assert(a[x] == b[y]);
        lemma_shorter(a);
        lemma_shorter(b);
        let c = a.drop_last();
        let d = b.drop_last();
        assert(text_map::map_of(c) =~= text_map::map_of(d));
        lemma_same_rows(c, d);
        assert(a =~= c.push(a[x]));
        assert(b =~= d.push(b[y]));
    }
}

/// Without its last row a map is without the key of that row.
proof fn lemma_shorter(rows: Seq<(Seq<char>, Seq<char>)>)
    requires
        text_map::ascending(rows),
        rows.len() > 0,
    ensures
        text_map::ascending(rows.drop_last()),
        text_map::map_of(rows.drop_last()) == text_map::map_of(rows).remove(rows.last().0),
{
    let front = rows.drop_last();
    let x = rows.len() - 1;
    assert forall|i: int, j: int| 0 <= i < j < front.len() implies #[trigger] text::text_lt(
        front[i].0,
        front[j].0,
    ) by {
        assert(text::text_lt(rows[i].0, rows[j].0));
    }
    let a = text_map::map_of(front);
    let b = text_map::map_of(rows).remove(rows.last().0);
    assert forall|k: Seq<char>| #[trigger] a.dom().contains(k) implies b.dom().contains(k) && a[k]
        == b[k] by {
        let i = choose|i: int| 0 <= i < front.len() && (#[trigger] front[i]).0 == k;
        text_map::lemma_entry(front, i);
        text_map::lemma_entry(rows, i);
        assert(text::text_lt(rows[i].0, rows[x].0));
        text::lemma_text_lt_irreflexive(k);
    }
    assert forall|k: Seq<char>| #[trigger] b.dom().contains(k) implies a.dom().contains(k) by {
        let i = choose|i: int| 0 <= i < rows.len() && (#[trigger] rows[i]).0 == k;
        assert(i < x);
        assert(front[i].0 == k);
    }
    assert(a.dom() =~= b.dom());
    assert(a =~= b);
}

/// A key stands for something where one of the pairs has it.
proof fn lemma_user_entries(pairs: Seq<(String, String)>, key: Seq<char>)
    ensures
        entry::user_entries(pairs).dom().contains(key) <==> exists|j: int|
            0 <= j < pairs.len() && (#[trigger] pairs[j]).0@ == key,
    decreases pairs.len(),
{
    if pairs.len() > 0 {
        let front = pairs.drop_last();
        lemma_user_entries(front, key);
        let last = pairs.len() - 1;
        assert(pairs[last] == pairs.last());
        if entry::user_entries(front).dom().contains(key) {
            let j = choose|j: int| 0 <= j < front.len() && (#[trigger] front[j]).0@ == key;
            assert(pairs[j].0@ == key);
        }
        if exists|j: int| 0 <= j < pairs.len() && (#[trigger] pairs[j]).0@ == key {
            let j = choose|j: int| 0 <= j < pairs.len() && (#[trigger] pairs[j]).0@ == key;
            if j < last {
                assert(front[j].0@ == key);
            }
        }
    }
}

/// What a key stands for is its last value.
proof fn lemma_last_user_value(pairs: Seq<(String, String)>, key: Seq<char>, j: int)
    requires
        0 <= j < pairs.len(),
        pairs[j].0@ == key,
        forall|k: int| j < k < pairs.len() ==> (#[trigger] pairs[k]).0@ != key,
    ensures
        entry::user_entries(pairs)[key] == pairs[j].1@,
    decreases pairs.len(),
{
    let front = pairs.drop_last();
    let last = pairs.len() - 1;
    if j < last {
        assert(pairs[last].0@ != key);
        assert(front[j] == pairs[j]);
        assert forall|k: int| j < k < front.len() implies (#[trigger] front[k]).0@ != key by {
            assert(front[k] == pairs[k]);
        }
        lemma_last_user_value(front, key, j);
    }
}

/// User metadata is shown in the order of its keys: every key that is there, each
/// once, with the last value given for it.
pub proof fn law_user_metadata_is_sorted(path: String, metadata: Metadata, row: OwnedRow)
    requires
        call_ensures(OwnedRow::from_parts, (path, metadata), Ok::<OwnedRow, String>(row)),
    ensures
        ({
            let pairs = metadata.user_metadata@;
            let keys = row.user_keys@;
            let values = row.user_values@;
            &&& keys.len() == values.len()
            &&& forall|i: int, j: int|
                0 <= i < j < keys.len() ==> text::text_lt(
                    (#[trigger] keys[i])@,
                    (#[trigger] keys[j])@,
                )
            &&& forall|j: int|
                0 <= j < pairs.len() ==> exists|i: int|
                    0 <= i < keys.len() && (#[trigger] keys[i])@ == (#[trigger] pairs[j]).0@
            &&& forall|i: int|
                0 <= i < keys.len() ==> exists|j: int|
                    0 <= j < pairs.len() && (#[trigger] pairs[j]).0@ == (#[trigger] keys[i])@
            &&& forall|i: int, j: int|
                0 <= i < keys.len() && 0 <= j < pairs.len() && (#[trigger] keys[i])@ == (
                #[trigger] pairs[j]).0@ && (forall|k: int|
                    j < k < pairs.len() ==> (#[trigger] pairs[k]).0@ != keys[i]@) ==> values[i]@
                    == pairs[j].1@
        }),
{
    let pairs = metadata.user_metadata@;
    let keys = row.user_keys@;
    let values = row.user_values@;
    let user = entry::zipped(keys, values);
    let m = entry::user_entries(pairs);
    assert forall|i: int, j: int| 0 <= i < j < keys.len() implies text::text_lt(
        (#[trigger] keys[i])@,
        (#[trigger] keys[j])@,
    ) by {
        assert(text::text_lt(user[i].0, user[j].0));
    }
    assert forall|j: int| 0 <= j < pairs.len() implies exists|i: int|
        0 <= i < keys.len() && (#[trigger] keys[i])@ == (#[trigger] pairs[j]).0@ by {
        lemma_user_entries(pairs, pairs[j].0@);
        assert(text_map::map_of(user).dom().contains(pairs[j].0@));
        let i = choose|i: int| 0 <= i < user.len() && (#[trigger] user[i]).0 == pairs[j].0@;
        assert(keys[i]@ == pairs[j].0@);
    }
    assert forall|i: int| 0 <= i < keys.len() implies exists|j: int|
        0 <= j < pairs.len() && (#[trigger] pairs[j]).0@ == (#[trigger] keys[i])@ by {
        lemma_user_entries(pairs, keys[i]@);
        text_map::lemma_entry(user, i);
        assert(user[i].0 == keys[i]@);
    }
    assert forall|i: int, j: int|
        0 <= i < keys.len() && 0 <= j < pairs.len() && (#[trigger] keys[i])@ == (
        #[trigger] pairs[j]).0@ && (forall|k: int|
            j < k < pairs.len() ==> (#[trigger] pairs[k]).0@ != keys[i]@) implies values[i]@
        == pairs[j].1@ by {
        lemma_last_user_value(pairs, keys[i]@, j);
        text_map::lemma_entry(user, i);
        assert(user[i].0 == keys[i]@);
    }
}

/// Whether an optional text holds a NUL.
pub open spec fn holds_nul(s: Option<String>) -> bool {
    s matches Some(text) && text@.contains('\0')
}

/// A row is refused for a NUL and for nothing else.
pub proof fn law_rows_are_refused_for_a_nul(
    path: String,
    metadata: Metadata,
    outcome: Result<OwnedRow, String>,
)
    requires
        call_ensures(OwnedRow::from_parts, (path, metadata), outcome),
    ensures
        path@.contains('\0') || holds_nul(metadata.cache_control) || holds_nul(
            metadata.content_disposition,
        ) || holds_nul(metadata.content_md5) || holds_nul(metadata.content_type) || holds_nul(
            metadata.content_encoding,
        ) || holds_nul(metadata.etag) || holds_nul(metadata.version) ==> outcome is Err,
        (exists|j: int|
            0 <= j < metadata.user_metadata@.len() && (
            #[trigger] metadata.user_metadata@[j]).0@.contains('\0')) ==> outcome is Err,
        outcome is Err ==> path@.contains('\0') || holds_nul(metadata.cache_control) || holds_nul(
            metadata.content_disposition,
        ) || holds_nul(metadata.content_md5) || holds_nul(metadata.content_type) || holds_nul(
            metadata.content_encoding,
        ) || holds_nul(metadata.etag) || holds_nul(metadata.version) || exists|j: int|
            0 <= j < metadata.user_metadata@.len() && ((
            #[trigger] metadata.user_metadata@[j]).0@.contains('\0')
                || metadata.user_metadata@[j].1@.contains('\0')),
{
    let pairs = metadata.user_metadata@;
    let m = entry::user_entries(pairs);
    let errors = entry::user_errors();
    lemma_finite(pairs);
    if exists|j: int| 0 <= j < pairs.len() && (#[trigger] pairs[j]).0@.contains('\0') {
        let j = choose|j: int| 0 <= j < pairs.len() && (#[trigger] pairs[j]).0@.contains('\0');
        lemma_user_entries(pairs, pairs[j].0@);
        complaint::law_complaints_are_found(m, errors, pairs[j].0@);
    }
    if complaint::complaint(m, errors) is Some {
        let key = choose|key: Seq<char>| #[trigger] complaint::is_least_error(m, errors, key);
        lemma_user_entries(pairs, key);
        lemma_has_last(pairs, key);
        let j = choose|j: int|
            0 <= j < pairs.len() && (#[trigger] pairs[j]).0@ == key && m[key] == pairs[j].1@;
        assert(pairs[j].0@.contains('\0') || pairs[j].1@.contains('\0'));
    }
}

proof fn lemma_finite(pairs: Seq<(String, String)>)
    ensures
        entry::user_entries(pairs).dom().finite(),
    decreases pairs.len(),
{
    if pairs.len() > 0 {
        lemma_finite(pairs.drop_last());
    }
}

/// What a key stands for is the value of one of the pairs.
proof fn lemma_has_last(pairs: Seq<(String, String)>, key: Seq<char>)
    requires
        entry::user_entries(pairs).dom().contains(key),
    ensures
        exists|j: int|
            0 <= j < pairs.len() && (#[trigger] pairs[j]).0@ == key && entry::user_entries(pairs)[key]
                == pairs[j].1@,
    decreases pairs.len(),
{
    let last = pairs.len() - 1;
    if pairs.len() > 0 && pairs[last].0@ != key {
        let front = pairs.drop_last();
        lemma_has_last(front, key);
        let j = choose|j: int|
            0 <= j < front.len() && (#[trigger] front[j]).0@ == key && entry::user_entries(front)[key]
                == front[j].1@;
        assert(pairs[j] == front[j]);
    }
}

/// The name of an entry is what follows the `/` before it, a `/` at its own end
/// included; without a `/` before it, it is all of the path.
pub proof fn law_names_follow_their_directory(
    path: String,
    metadata: Metadata,
    row: OwnedRow,
    directory: Seq<char>,
    name: Seq<char>,
    marked: bool,
)
    requires
        call_ensures(OwnedRow::from_parts, (path, metadata), Ok::<OwnedRow, String>(row)),
        name.len() > 0,
        !name.contains('/'),
    ensures
        ({
            let shown = if marked {
                name.push('/')
            } else {
                name
            };
            &&& path@ == directory.push('/') + shown ==> row.name@ == shown
            &&& path@ == shown ==> row.name@ == shown
        }),
{
    let shown = if marked {
        name.push('/')
    } else {
        name
    };
    assert forall|i: int| 0 <= i < name.len() implies name[i] != '/' by {
        assert(name.contains(name[i]));
    }
    if path@ == directory.push('/') + shown {
        let stem = if path@.last() == '/' {
            path@.drop_last()
        } else {
            path@
        };
        assert(path@.last() == shown.last());
        assert(stem =~= directory.push('/') + name);
        text::lemma_last_index(stem, '/');
        let n = directory.len() as int;
        assert(stem[n] == '/');
        assert(stem.contains('/'));
        let i = text::last_index(stem, '/')->0;
        if i > n {
            assert(stem[i] == name[i - n - 1]);
        }
        assert(i == n);
        assert(path@.skip(n + 1) =~= shown);
    }
    if path@ == shown {
        let stem = if path@.last() == '/' {
            path@.drop_last()
        } else {
            path@
        };
        assert(stem =~= name);
        text::lemma_last_index(stem, '/');
        if text::last_index(stem, '/') is Some {
            assert(name[text::last_index(stem, '/')->0] == '/');
        }
    }
}

/// A row that is refused says which text is the first to hold a NUL.
pub proof fn law_refused_rows_say_why(
    path: String,
    metadata: Metadata,
    outcome: Result<OwnedRow, String>,
)
    requires
        call_ensures(OwnedRow::from_parts, (path, metadata), outcome),
        metadata.user_metadata@.len() == 0,
    ensures
        outcome matches Err(message) ==> message@ == "OpenDAL "@ + (if path@.contains('\0') {
            "path"@
        } else if holds_nul(metadata.cache_control) {
            "cache_control"@
        } else if holds_nul(metadata.content_disposition) {
            "content_disposition"@
        } else if holds_nul(metadata.content_md5) {
            "content_md5"@
        } else if holds_nul(metadata.content_type) {
            "content_type"@
        } else if holds_nul(metadata.content_encoding) {
            "content_encoding"@
        } else if holds_nul(metadata.etag) {
            "etag"@
        } else {
            "version"@
        }) + " contains a NUL byte"@,
{
    let m = entry::user_entries(metadata.user_metadata@);
    assert forall|key: Seq<char>| !(#[trigger] complaint::is_least_error(
        m,
        entry::user_errors(),
        key,
    )) by {}
}

/// User metadata is looked at before everything else.
pub proof fn law_refused_user_metadata_comes_first(
    path: String,
    metadata: Metadata,
    outcome: Result<OwnedRow, String>,
    j: int,
)
    requires
        call_ensures(OwnedRow::from_parts, (path, metadata), outcome),
        0 <= j < metadata.user_metadata@.len(),
        metadata.user_metadata@[j].0@.contains('\0'),
    ensures
        outcome matches Err(message) && (message@ == "OpenDAL "@ + "user metadata key"@
            + " contains a NUL byte"@ || message@ == "OpenDAL "@ + "user metadata value"@
            + " contains a NUL byte"@),
{
    let pairs = metadata.user_metadata@;
    let m = entry::user_entries(pairs);
    lemma_finite(pairs);
    lemma_user_entries(pairs, pairs[j].0@);
    complaint::law_complaints_are_found(m, entry::user_errors(), pairs[j].0@);
}

} // verus!
