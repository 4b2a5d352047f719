//! Disk usage: files and bytes per directory.

use vstd::prelude::*;
use vstd::utf8::*;

use crate::entry;
use crate::entry::{cstring, EntryMode, Metadata};
use crate::error::{Failure, OdErrorCode, ServiceError};
use crate::ffi::{cstr, CText};
use crate::glob;
use crate::glob::{glob_matches, glob_root, has_glob, parent};
use crate::mutate;
use crate::mutate::as_directory;
use crate::operator::OdOperator;
use crate::table;
use crate::table::{list_options, ListOptions, OdListOptions};
use crate::text;
use crate::text::without_leading;
use crate::text_map;
use crate::text_map::TextMap;

verus! {

/// The usage of a directory: its files and their bytes.
pub struct OwnedDuRow {
    pub directory: String,
    pub file_count: u64,
    pub total_size: u64,
}

/// A scan over rows, and the position of the next.
pub struct OdDuCursor {
    pub rows: Vec<OwnedDuRow>,
    pub next: usize,
}

/// Whether an entry counts: it is a file, and it matches the pattern if there is
/// one.
pub open spec fn counts(item: (String, Metadata), pattern: Option<Seq<char>>) -> bool {
    &&& item.1.mode == EntryMode::File
    &&& pattern matches Some(p) ==> glob::glob(encode_utf8(p), encode_utf8(item.0@))
}

/// Whether an entry counts towards a directory.
pub open spec fn counts_in(
    item: (String, Metadata),
    pattern: Option<Seq<char>>,
    directory: Seq<char>,
) -> bool {
    counts(item, pattern) && glob::parent_of(item.0@) == directory
}

/// The files of a directory.
pub open spec fn files_in(
    entries: Seq<(String, Metadata)>,
    pattern: Option<Seq<char>>,
    directory: Seq<char>,
) -> nat
    decreases entries.len(),
{
    if entries.len() == 0 {
        0
    } else {
        files_in(entries.drop_last(), pattern, directory) + if counts_in(
            entries.last(),
            pattern,
            directory,
        ) {
            1nat
        } else {
            0nat
        }
    }
}

/// The bytes of a directory's files.
pub open spec fn bytes_in(
    entries: Seq<(String, Metadata)>,
    pattern: Option<Seq<char>>,
    directory: Seq<char>,
) -> nat
    decreases entries.len(),
{
    if entries.len() == 0 {
        0
    } else {
        bytes_in(entries.drop_last(), pattern, directory) + if counts_in(
            entries.last(),
            pattern,
            directory,
        ) {
            entries.last().1.content_length as nat
        } else {
            0nat
        }
    }
}

/// All files.
pub open spec fn all_files(entries: Seq<(String, Metadata)>, pattern: Option<Seq<char>>) -> nat
    decreases entries.len(),
{
    if entries.len() == 0 {
        0
    } else {
        all_files(entries.drop_last(), pattern) + if counts(entries.last(), pattern) {
            1nat
        } else {
            0nat
        }
    }
}

/// The bytes of all files.
pub open spec fn all_bytes(entries: Seq<(String, Metadata)>, pattern: Option<Seq<char>>) -> nat
    decreases entries.len(),
{
    if entries.len() == 0 {
        0
    } else {
        all_bytes(entries.drop_last(), pattern) + if counts(entries.last(), pattern) {
            entries.last().1.content_length as nat
        } else {
            0nat
        }
    }
}

/// Whether the bytes of some directory exceed 64 bits.
pub open spec fn overflows(entries: Seq<(String, Metadata)>, pattern: Option<Seq<char>>) -> bool {
    exists|directory: Seq<char>| #[trigger] bytes_in(entries, pattern, directory) > u64::MAX
}

/// Whether the name of a directory with files cannot be handed over.
pub open spec fn has_nul_directory(
    entries: Seq<(String, Metadata)>,
    pattern: Option<Seq<char>>,
) -> bool {
    exists|directory: Seq<char>|
        directory.contains('\0') && #[trigger] files_in(entries, pattern, directory) > 0
}

/// The files that rows add up to.
pub open spec fn sum_files(rows: Seq<(Seq<char>, (u64, u64))>) -> nat
    decreases rows.len(),
{
    if rows.len() == 0 {
        0
    } else {
        sum_files(rows.drop_last()) + rows.last().1.0 as nat
    }
}

/// The bytes that rows add up to.
pub open spec fn sum_bytes(rows: Seq<(Seq<char>, (u64, u64))>) -> nat
    decreases rows.len(),
{
    if rows.len() == 0 {
        0
    } else {
        sum_bytes(rows.drop_last()) + rows.last().1.1 as nat
    }
}

/// The texts and numbers of rows.
pub open spec fn row_views(rows: Seq<OwnedDuRow>) -> Seq<(Seq<char>, (u64, u64))> {
    Seq::new(rows.len(), |i: int| (rows[i].directory@, (rows[i].file_count, rows[i].total_size)))
}

/// Whether rows are the usage of entries: one row for each directory with files,
/// in ascending order.
pub open spec fn is_usage(
    rows: Seq<(Seq<char>, (u64, u64))>,
    entries: Seq<(String, Metadata)>,
    pattern: Option<Seq<char>>,
) -> bool {
    &&& text_map::ascending(rows)
    &&& forall|directory: Seq<char>| #[trigger]
        text_map::map_of(rows).dom().contains(directory) <==> files_in(entries, pattern, directory)
            > 0
    &&& forall|i: int|
        0 <= i < rows.len() ==> {
            &&& (#[trigger] rows[i]).1.0 == files_in(entries, pattern, rows[i].0)
            &&& rows[i].1.1 == bytes_in(entries, pattern, rows[i].0)
        }
}

proof fn lemma_sums_update(rows: Seq<(Seq<char>, (u64, u64))>, at: int, row: (Seq<char>, (u64, u64)))
    requires
        0 <= at < rows.len(),
    ensures
        sum_files(rows.update(at, row)) + rows[at].1.0 == sum_files(rows) + row.1.0,
        sum_bytes(rows.update(at, row)) + rows[at].1.1 == sum_bytes(rows) + row.1.1,
    decreases rows.len(),
{
    let after = rows.update(at, row);
    if at == rows.len() - 1 {
        assert(after.drop_last() =~= rows.drop_last());
    } else {
        assert(after.drop_last() =~= rows.drop_last().update(at, row));
        lemma_sums_update(rows.drop_last(), at, row);
    }
}

proof fn lemma_sums_insert(rows: Seq<(Seq<char>, (u64, u64))>, at: int, row: (Seq<char>, (u64, u64)))
    requires
        0 <= at <= rows.len(),
    ensures
        sum_files(rows.insert(at, row)) == sum_files(rows) + row.1.0,
        sum_bytes(rows.insert(at, row)) == sum_bytes(rows) + row.1.1,
    decreases rows.len(),
{
    let after = rows.insert(at, row);
    if at == rows.len() {
        assert(after.drop_last() =~= rows);
    } else {
        assert(after.drop_last() =~= rows.drop_last().insert(at, row));
        assert(after.last() == rows.last());
        lemma_sums_insert(rows.drop_last(), at, row);
    }
}

proof fn lemma_usage_grows(
    entries: Seq<(String, Metadata)>,
    pattern: Option<Seq<char>>,
    directory: Seq<char>,
    n: int,
)
    requires
        0 <= n <= entries.len(),
    ensures
        files_in(entries.take(n), pattern, directory) <= files_in(entries, pattern, directory),
        bytes_in(entries.take(n), pattern, directory) <= bytes_in(entries, pattern, directory),
        files_in(entries.take(n), pattern, directory) <= n,
    decreases entries.len(),
{
    if n == entries.len() {
        assert(entries.take(n) =~= entries);
        if n > 0 {
            lemma_usage_grows(entries.drop_last(), pattern, directory, n - 1);
            assert(entries.drop_last().take(n - 1) =~= entries.drop_last());
        }
    } else {
        assert(entries.drop_last().take(n) =~= entries.take(n));
        lemma_usage_grows(entries.drop_last(), pattern, directory, n);
    }
}

fn is_counted(item: &(String, Metadata), pattern: Option<&String>) -> (counted: bool)
    ensures
        counted == counts(*item, text::optional_ref(pattern)),
{
    if item.1.mode != EntryMode::File {
        return false;
    }
    match pattern {
        Some(pattern) => glob_matches(pattern.as_str().as_bytes(), item.0.as_str().as_bytes()),
        None => true,
    }
}

/// Files and bytes per directory, or nothing where the bytes of a directory
/// exceed 64 bits.
fn group(entries: &Vec<(String, Metadata)>, pattern: Option<&String>) -> (groups: Option<
    TextMap<(u64, u64)>,
>)
    ensures
        ({
            let p = text::optional_ref(pattern);
            &&& groups is None <==> overflows(entries@, p)
            &&& groups matches Some(g) ==> {
                &&& is_usage(g.rows(), entries@, p)
                &&& sum_files(g.rows()) == all_files(entries@, p)
                &&& sum_bytes(g.rows()) == all_bytes(entries@, p)
            }
        }),
{
    let ghost p = text::optional_ref(pattern);
    let mut groups: TextMap<(u64, u64)> = TextMap::new();
    let mut i: usize = 0;
    assert(entries@.take(0) =~= Seq::<(String, Metadata)>::empty());
    while i < entries.len()
        invariant
            i <= entries@.len(),
            p == text::optional_ref(pattern),
            groups.wf(),
            is_usage(groups.rows(), entries@.take(i as int), p),
            sum_files(groups.rows()) == all_files(entries@.take(i as int), p),
            sum_bytes(groups.rows()) == all_bytes(entries@.take(i as int), p),
        decreases entries@.len() - i,
    {
        let ghost before = groups.rows();
        let ghost done = entries@.take(i as int);
        let ghost next = entries@.take(i + 1);
        let ghost item = entries@[i as int];
        assert(next.drop_last() =~= done);
        assert(next.last() == item);
        if is_counted(&entries[i], pattern) {
            let directory: String = parent(entries[i].0.as_str()).to_owned();
            let ghost d = directory@;
            proof {
                lemma_usage_grows(entries@, p, d, i as int);
                lemma_usage_grows(entries@, p, d, i + 1);
                lemma_found(before, done, p, d);
            }
            let (files, bytes): (u64, u64) = match groups.get(directory.as_str()) {
                Some(usage) => (usage.0, usage.1),
                None => (0, 0),
            };
            let bytes: u64 = match bytes.checked_add(entries[i].1.content_length) {
                Some(bytes) => bytes,
                None => {
                    assert(bytes_in(entries@, p, d) > u64::MAX);
                    return None;
                },
            };
            let files: u64 = files + 1;
            groups.insert(directory, (files, bytes));
            proof {
                lemma_grouped(before, groups.rows(), done, next, p, d, (files, bytes));
            }
        } else {
            proof {
                assert forall|directory: Seq<char>|
                    files_in(next, p, directory) == files_in(done, p, directory) && bytes_in(
                        next,
                        p,
                        directory,
                    ) == bytes_in(done, p, directory) by {}
            }
        }
        i += 1;
    }
    assert(entries@.take(i as int) =~= entries@);
    proof {
        if overflows(entries@, p) {
            let d = choose|d: Seq<char>| #[trigger] bytes_in(entries@, p, d) > u64::MAX;
            lemma_found(groups.rows(), entries@, p, d);
        }
    }
    Some(groups)
}

/// What rows hold under a directory.
proof fn lemma_found(
    rows: Seq<(Seq<char>, (u64, u64))>,
    entries: Seq<(String, Metadata)>,
    pattern: Option<Seq<char>>,
    directory: Seq<char>,
)
    requires
        is_usage(rows, entries, pattern),
    ensures
        ({
            let m = text_map::map_of(rows);
            if m.dom().contains(directory) {
                &&& m[directory].0 == files_in(entries, pattern, directory)
                &&& m[directory].1 == bytes_in(entries, pattern, directory)
            } else {
                &&& files_in(entries, pattern, directory) == 0
                &&& bytes_in(entries, pattern, directory) == 0
            }
        }),
{
    let m = text_map::map_of(rows);
    if m.dom().contains(directory) {
        let i = choose|i: int| 0 <= i < rows.len() && (#[trigger] rows[i]).0 == directory;
        text_map::lemma_entry(rows, i);
    } else {
        lemma_no_files_no_bytes(entries, pattern, directory);
    }
}

proof fn lemma_no_files_no_bytes(
    entries: Seq<(String, Metadata)>,
    pattern: Option<Seq<char>>,
    directory: Seq<char>,
)
    requires
        files_in(entries, pattern, directory) == 0,
    ensures
        bytes_in(entries, pattern, directory) == 0,
    decreases entries.len(),
{
    if entries.len() > 0 {
        lemma_no_files_no_bytes(entries.drop_last(), pattern, directory);
    }
}

/// The usage after one more file.
proof fn lemma_grouped(
    before: Seq<(Seq<char>, (u64, u64))>,
    after: Seq<(Seq<char>, (u64, u64))>,
    done: Seq<(String, Metadata)>,
    next: Seq<(String, Metadata)>,
    pattern: Option<Seq<char>>,
    directory: Seq<char>,
    usage: (u64, u64),
)
    requires
        is_usage(before, done, pattern),
        sum_files(before) == all_files(done, pattern),
        sum_bytes(before) == all_bytes(done, pattern),
        next.len() > 0,
        next.drop_last() == done,
        counts_in(next.last(), pattern, directory),
        usage.0 == files_in(next, pattern, directory),
        usage.1 == bytes_in(next, pattern, directory),
        text_map::ascending(after),
        text_map::map_of(after) == text_map::map_of(before).insert(directory, usage),
        exists|at: int| #[trigger] text_map::placed(before, after, at, directory, usage),
    ensures
        is_usage(after, next, pattern),
        sum_files(after) == all_files(next, pattern),
        sum_bytes(after) == all_bytes(next, pattern),
{
    let m = text_map::map_of(after);
    assert forall|d: Seq<char>| #[trigger] m.dom().contains(d) <==> files_in(next, pattern, d)
        > 0 by {
        assert(text_map::map_of(before).dom().contains(d) <==> files_in(done, pattern, d) > 0);
    }
    assert forall|i: int| 0 <= i < after.len() implies (#[trigger] after[i]).1.0 == files_in(
        next,
        pattern,
        after[i].0,
    ) && after[i].1.1 == bytes_in(next, pattern, after[i].0) by {
        text_map::lemma_entry(after, i);
        let d = after[i].0;
        if d != directory {
            assert(text_map::map_of(before).dom().contains(d));
            lemma_found(before, done, pattern, d);
        }
    }
    let at = choose|at: int| #[trigger] text_map::placed(before, after, at, directory, usage);
    lemma_found(before, done, pattern, directory);
    if text_map::map_of(before).dom().contains(directory) {
        text_map::lemma_entry(before, at);
        lemma_sums_update(before, at, (directory, usage));
    } else {
        if 0 <= at < before.len() && before[at].0 == directory {
            text_map::lemma_entry(before, at);
        }
        lemma_sums_insert(before, at, (directory, usage));
    }
}

/// The usage of entries, by directory.
pub fn rollup(entries: &Vec<(String, Metadata)>, pattern: Option<&String>) -> (cursor: Result<
    OdDuCursor,
    Failure,
>)
    ensures
        ({
            let p = text::optional_ref(pattern);
            if overflows(entries@, p) {
                cursor matches Err(e) && e.is(OdErrorCode::Unexpected, "du byte count overflow"@)
            } else if has_nul_directory(entries@, p) {
                cursor matches Err(e) && e.is(
                    OdErrorCode::Unexpected,
                    entry::nul_message("du directory"@),
                )
            } else {
                cursor matches Ok(c) && {
                    &&& c.next == 0
                    &&& is_usage(row_views(c.rows@), entries@, p)
                    &&& sum_files(row_views(c.rows@)) == all_files(entries@, p)
                    &&& sum_bytes(row_views(c.rows@)) == all_bytes(entries@, p)
                }
            }
        }),
{
    let ghost p = text::optional_ref(pattern);
    let groups: TextMap<(u64, u64)> = match group(entries, pattern) {
        Some(groups) => groups,
        None => {
            return Err(Failure::new(OdErrorCode::Unexpected, "du byte count overflow"));
        },
    };
    let ghost grouped = groups.rows();
    let mut rows: Vec<OwnedDuRow> = Vec::new();
    let mut i: usize = 0;
    while i < groups.len()
        invariant
            grouped == groups.rows(),
            p == text::optional_ref(pattern),
            is_usage(grouped, entries@, p),
            !overflows(entries@, p),
            i <= grouped.len(),
            rows@.len() == i,
            forall|j: int| 0 <= j < i ==> #[trigger] row_views(rows@)[j] == grouped[j],
            forall|j: int| 0 <= j < i ==> !(#[trigger] grouped[j]).0.contains('\0'),
        decreases grouped.len() - i,
    {
        let usage: &(u64, u64) = groups.value(i);
        let directory: String = match cstring(groups.key(i).clone(), "du directory") {
            Ok(directory) => directory,
            Err(message) => {
                proof {
                    text_map::lemma_entry(grouped, i as int);
                    assert(files_in(entries@, p, grouped[i as int].0) > 0);
                }
                return Err(Failure { code: OdErrorCode::Unexpected, message });
            },
        };
        let ghost before = row_views(rows@);
        rows.push(OwnedDuRow { directory, file_count: usage.0, total_size: usage.1 });
        assert forall|j: int| 0 <= j < i + 1 implies #[trigger] row_views(rows@)[j]
            == grouped[j] by {
            if j < i {
                assert(before[j] == row_views(rows@)[j]);
            }
        }
        i += 1;
    }
    proof {
        assert(row_views(rows@) =~= grouped);
        if has_nul_directory(entries@, p) {
            let d = choose|d: Seq<char>| d.contains('\0') && #[trigger] files_in(entries@, p, d) > 0;
            assert(text_map::map_of(grouped).dom().contains(d));
            let j = choose|j: int| 0 <= j < grouped.len() && (#[trigger] grouped[j]).0 == d;
        }
    }
    Ok(OdDuCursor { rows, next: 0 })
}

impl OdDuCursor {
    /// The next row, if there is one more.
    pub fn next_row(&mut self) -> (row: Option<&OwnedDuRow>)
        ensures
            final(self).rows == old(self).rows,
            if old(self).next < old(self).rows@.len() {
                &&& row matches Some(r) && *r == old(self).rows@[old(self).next as int]
                &&& final(self).next == old(self).next + 1
            } else {
                &&& row is None
                &&& final(self).next == old(self).next
            },
    {
        if self.next < self.rows.len() {
            let at: usize = self.next;
            self.next = at + 1;
            Some(&self.rows[at])
        } else {
            None
        }
    }
}

/// What a usage scan asks for.
pub enum DuStep {
    /// List under a path, and count what matches the pattern.
    List { path: String, options: ListOptions, pattern: Option<String> },
    /// Look at what the target is.
    Stat { target: String, options: ListOptions },
}

/// Open a usage scan over a file, a directory or a glob.
pub fn od_table_du_open(op: Option<&OdOperator>, target: &CText, raw: &OdListOptions) -> (step:
    Result<DuStep, Failure>)
    ensures
        if op is None {
            step matches Err(e) && e.is(OdErrorCode::InvalidInput, "null operator"@)
        } else if target.text() is None {
            step matches Err(e) && e.is(OdErrorCode::InvalidInput, "target is null or not UTF-8"@)
        } else {
            let t = target.text()->0;
            match table::decode_error(raw.start_after, "start_after"@) {
                Some(message) => step matches Err(e) && e.is(OdErrorCode::InvalidInput, message),
                None => if glob::first_wild(t) < t.len() {
                    step matches Ok(DuStep::List { path, options, pattern }) && {
                        &&& path@ == glob::static_root(t)
                        &&& options.decodes_recursive(*raw)
                        &&& text::optional_text(pattern) == Some(text::trim_start(t, '/'))
                    }
                } else {
                    step matches Ok(DuStep::Stat { target: path, options }) && path@ == t
                        && options.decodes(*raw)
                },
            }
        },
{
    if op.is_none() {
        return Err(Failure::new(OdErrorCode::InvalidInput, "null operator"));
    }
    let target: &String = match cstr(target) {
        Some(target) => target,
        None => {
            return Err(Failure::new(OdErrorCode::InvalidInput, "target is null or not UTF-8"));
        },
    };
    let options: ListOptions = match list_options(raw) {
        Ok(options) => options,
        Err(message) => {
            return Err(Failure { code: OdErrorCode::InvalidInput, message });
        },
    };
    proof {
        glob::lemma_first_wild(target@);
    }
    if has_glob(target.as_str()) {
        Ok(
            DuStep::List {
                path: glob_root(target.as_str()).to_owned(),
                options: recursive(options),
                pattern: Some(without_leading(target.as_str(), '/')),
            },
        )
    } else {
        Ok(DuStep::Stat { target: target.clone(), options })
    }
}

/// Options with recursion switched on.
pub open spec fn made_recursive(options: ListOptions) -> ListOptions {
    ListOptions { recursive: true, ..options }
}

fn recursive(options: ListOptions) -> (all: ListOptions)
    ensures
        all == made_recursive(options),
{
    ListOptions { recursive: true, ..options }
}

/// What is known of a target once it was looked at.
pub enum DuTarget {
    /// A file, which is all there is to count.
    File(Vec<(String, Metadata)>),
    /// A directory to list.
    Directory { path: String, options: ListOptions },
}

/// Go on once the target was looked at.  Whatever is not a file is listed as a
/// directory.
pub fn after_stat(
    target: String,
    options: ListOptions,
    stat: Result<Metadata, ServiceError>,
) -> (found: Result<DuTarget, Failure>)
    ensures
        match stat {
            Err(error) => found matches Err(e) && e.is(error.kind.category(), error.message@),
            Ok(metadata) => if metadata.mode == EntryMode::File {
                found matches Ok(DuTarget::File(entries)) && entries@ == seq![(target, metadata)]
            } else {
                found matches Ok(DuTarget::Directory { path, options: all }) && path@
                    == mutate::directory_path(target@) && all == made_recursive(options)
            },
        },
{
    match stat {
        Err(error) => Err(error.surface()),
        Ok(metadata) => if metadata.mode == EntryMode::File {
            let mut entries: Vec<(String, Metadata)> = Vec::new();
            entries.push((target, metadata));
            Ok(DuTarget::File(entries))
        } else {
            Ok(
                DuTarget::Directory {
                    path: as_directory(target.as_str()),
                    options: recursive(options),
                },
            )
        },
    }
}

} // verus!
