//! Disk usage.

use vstd::prelude::*;
use vstd::utf8::*;

use crate::du;
use crate::du::{OdDuCursor, OwnedDuRow};
use crate::entry::{EntryMode, Metadata};
use crate::error::{Failure, OdErrorCode};
use crate::glob;
use crate::text;
use crate::text_map;

verus! {

/// The files that rows show for a directory.
pub open spec fn files_shown(rows: Seq<OwnedDuRow>, directory: Seq<char>) -> int
    decreases rows.len(),
{
    if rows.len() == 0 {
        0
    } else {
        files_shown(rows.drop_last(), directory) + if rows.last().directory@ == directory {
            rows.last().file_count as int
        } else {
            0
        }
    }
}

/// The bytes that rows show for a directory.
pub open spec fn bytes_shown(rows: Seq<OwnedDuRow>, directory: Seq<char>) -> int
    decreases rows.len(),
{
    if rows.len() == 0 {
        0
    } else {
        bytes_shown(rows.drop_last(), directory) + if rows.last().directory@ == directory {
            rows.last().total_size as int
        } else {
            0
        }
    }
}

proof fn lemma_shown_nothing(rows: Seq<OwnedDuRow>, directory: Seq<char>)
    requires
        forall|j: int| 0 <= j < rows.len() ==> (#[trigger] rows[j]).directory@ != directory,
    ensures
        files_shown(rows, directory) == 0,
        bytes_shown(rows, directory) == 0,
    decreases rows.len(),
{
    if rows.len() > 0 {
        assert forall|j: int| 0 <= j < rows.drop_last().len() implies (
        #[trigger] rows.drop_last()[j]).directory@ != directory by {
            assert(rows.drop_last()[j] == rows[j]);
        }
        lemma_shown_nothing(rows.drop_last(), directory);
        assert(rows[rows.len() - 1].directory@ != directory);
    }
}

proof fn lemma_shown_once(rows: Seq<OwnedDuRow>, directory: Seq<char>, i: int)
    requires
        0 <= i < rows.len(),
        rows[i].directory@ == directory,
        forall|j: int|
            0 <= j < rows.len() && j != i ==> (#[trigger] rows[j]).directory@ != directory,
    ensures
        files_shown(rows, directory) == rows[i].file_count,
        bytes_shown(rows, directory) == rows[i].total_size,
    decreases rows.len(),
{
    let front = rows.drop_last();
    if i == rows.len() - 1 {
        assert forall|j: int| 0 <= j < front.len() implies (#[trigger] front[j]).directory@
            != directory by {
            assert(front[j] == rows[j]);
        }
        lemma_shown_nothing(front, directory);
    } else {
        assert(front[i] == rows[i]);
        assert forall|j: int| 0 <= j < front.len() && j != i implies (
        #[trigger] front[j]).directory@ != directory by {
            assert(front[j] == rows[j]);
        }
        lemma_shown_once(front, directory, i);
        assert(rows[rows.len() - 1].directory@ != directory);
    }
}

/// What rows show of a directory is what its entries come to.
proof fn lemma_shown(
    rows: Seq<OwnedDuRow>,
    entries: Seq<(String, Metadata)>,
    pattern: Option<Seq<char>>,
    directory: Seq<char>,
)
    requires
        du::is_usage(du::row_views(rows), entries, pattern),
    ensures
        files_shown(rows, directory) == du::files_in(entries, pattern, directory),
        bytes_shown(rows, directory) == du::bytes_in(entries, pattern, directory),
{
    let views = du::row_views(rows);
    if text_map::map_of(views).dom().contains(directory) {
        let i = choose|i: int| 0 <= i < views.len() && (#[trigger] views[i]).0 == directory;
        assert(rows[i].directory@ == directory);
        text::lemma_text_lt_irreflexive(directory);
        assert forall|j: int| 0 <= j < rows.len() && j != i implies (
        #[trigger] rows[j]).directory@ != directory by {
            assert(views[j].0 == rows[j].directory@);
            if j < i {
                assert(text::text_lt(views[j].0, views[i].0));
            } else {
                assert(text::text_lt(views[i].0, views[j].0));
            }
        }
        lemma_shown_once(rows, directory, i);
    } else {
        assert forall|j: int| 0 <= j < rows.len() implies (#[trigger] rows[j]).directory@
            != directory by {
            assert(views[j].0 == rows[j].directory@);
        }
        lemma_shown_nothing(rows, directory);
        lemma_no_bytes(entries, pattern, directory);
    }
}

proof fn lemma_no_bytes(
    entries: Seq<(String, Metadata)>,
    pattern: Option<Seq<char>>,
    directory: Seq<char>,
)
    requires
        du::files_in(entries, pattern, directory) == 0,
    ensures
        du::bytes_in(entries, pattern, directory) == 0,
    decreases entries.len(),
{
    if entries.len() > 0 {
        lemma_no_bytes(entries.drop_last(), pattern, directory);
    }
}

/// One more entry counts exactly where it should.  A file, whatever its size, adds
/// one file and its bytes to the row of its parent; with a pattern it has to match.
/// Anything else adds nothing, and no entry touches another directory.
pub proof fn law_one_more_entry(
    before: Vec<(String, Metadata)>,
    after: Vec<(String, Metadata)>,
    pattern: Option<&String>,
    path: String,
    metadata: Metadata,
    directory: Seq<char>,
    first: OdDuCursor,
    second: OdDuCursor,
)
    requires
        after@ == before@.push((path, metadata)),
        call_ensures(du::rollup, (&before, pattern), Ok::<OdDuCursor, Failure>(first)),
        call_ensures(du::rollup, (&after, pattern), Ok::<OdDuCursor, Failure>(second)),
    ensures
        ({
            let counts = metadata.mode == EntryMode::File && glob::parent_of(path@) == directory
                && (pattern matches Some(p) ==> glob::glob(
                encode_utf8(p@),
                encode_utf8(path@),
            ));
            &&& files_shown(second.rows@, directory) == files_shown(first.rows@, directory) + (
            if counts {
                1int
            } else {
                0int
            })
            &&& bytes_shown(second.rows@, directory) == bytes_shown(first.rows@, directory) + (
            if counts {
                metadata.content_length as int
            } else {
                0int
            })
        }),
{
    let p = text::optional_ref(pattern);
    lemma_shown(first.rows@, before@, p, directory);
    lemma_shown(second.rows@, after@, p, directory);
    assert(after@.drop_last() =~= before@);
}

/// Nothing to count shows nothing.
pub proof fn law_no_entries_no_rows(
    entries: Vec<(String, Metadata)>,
    pattern: Option<&String>,
    outcome: Result<OdDuCursor, Failure>,
)
    requires
        entries@.len() == 0,
        call_ensures(du::rollup, (&entries, pattern), outcome),
    ensures
        outcome matches Ok(cursor) && cursor.rows@.len() == 0,
{
    let p = text::optional_ref(pattern);
    if outcome is Ok && outcome->Ok_0.rows@.len() > 0 {
        let rows = outcome->Ok_0.rows@;
        let views = du::row_views(rows);
        text_map::lemma_entry(views, 0);
        assert(du::files_in(entries@, p, views[0].0) > 0);
    }
}

/// Rows come in the order of their directories, each directory once and with a file
/// at least, and are shown from the first on.
pub proof fn law_rows_are_directories_with_files(
    entries: Vec<(String, Metadata)>,
    pattern: Option<&String>,
    cursor: OdDuCursor,
)
    requires
        call_ensures(du::rollup, (&entries, pattern), Ok::<OdDuCursor, Failure>(cursor)),
    ensures
        cursor.next == 0,
        forall|i: int, j: int|
            0 <= i < j < cursor.rows@.len() ==> text::text_lt(
                (#[trigger] cursor.rows@[i]).directory@,
                (#[trigger] cursor.rows@[j]).directory@,
            ),
        forall|i: int|
            0 <= i < cursor.rows@.len() ==> (#[trigger] cursor.rows@[i]).file_count >= 1
                && !cursor.rows@[i].directory@.contains('\0'),
{
    let p = text::optional_ref(pattern);
    let views = du::row_views(cursor.rows@);
    assert forall|i: int, j: int| 0 <= i < j < cursor.rows@.len() implies text::text_lt(
        (#[trigger] cursor.rows@[i]).directory@,
        (#[trigger] cursor.rows@[j]).directory@,
    ) by {
        assert(text::text_lt(views[i].0, views[j].0));
    }
    assert forall|i: int| 0 <= i < cursor.rows@.len() implies (
    #[trigger] cursor.rows@[i]).file_count >= 1 && !cursor.rows@[i].directory@.contains('\0') by {
        text_map::lemma_entry(views, i);
        assert(views[i].0 == cursor.rows@[i].directory@);
        assert(du::files_in(entries@, p, views[i].0) > 0);
    }
}

/// The bytes of all entries, files or not.
pub open spec fn total(entries: Seq<(String, Metadata)>) -> nat
    decreases entries.len(),
{
    if entries.len() == 0 {
        0
    } else {
        total(entries.drop_last()) + entries.last().1.content_length as nat
    }
}

proof fn lemma_total(
    entries: Seq<(String, Metadata)>,
    pattern: Option<Seq<char>>,
    directory: Seq<char>,
)
    ensures
        du::bytes_in(entries, pattern, directory) <= total(entries),
        du::files_in(entries, pattern, directory) > 0 ==> exists|i: int|
            0 <= i < entries.len() && glob::parent_of((#[trigger] entries[i]).0@) == directory,
    decreases entries.len(),
{
    if entries.len() > 0 {
        let front = entries.drop_last();
        lemma_total(front, pattern, directory);
        if du::files_in(front, pattern, directory) > 0 {
            let i = choose|i: int|
                0 <= i < front.len() && glob::parent_of((#[trigger] front[i]).0@) == directory;
            assert(glob::parent_of(entries[i].0@) == directory);
        } else if du::files_in(entries, pattern, directory) > 0 {
            assert(glob::parent_of(entries[entries.len() - 1].0@) == directory);
        }
    }
}

/// Entries whose bytes fit 64 bits together, and whose parents can be handed over,
/// are always counted.  A refusal is never the caller's fault.
pub proof fn law_small_listings_are_counted(
    entries: Vec<(String, Metadata)>,
    pattern: Option<&String>,
    outcome: Result<OdDuCursor, Failure>,
)
    requires
        call_ensures(du::rollup, (&entries, pattern), outcome),
    ensures
        total(entries@) <= u64::MAX && (forall|i: int|
            0 <= i < entries@.len() ==> !glob::parent_of(
                (#[trigger] entries@[i]).0@,
            ).contains('\0')) ==> outcome is Ok,
        outcome matches Err(e) ==> e.code == OdErrorCode::Unexpected,
{
    let p = text::optional_ref(pattern);
    if du::overflows(entries@, p) {
        let d = choose|d: Seq<char>| #[trigger] du::bytes_in(entries@, p, d) > u64::MAX;
        lemma_total(entries@, p, d);
    }
    if du::has_nul_directory(entries@, p) {
        let d = choose|d: Seq<char>| d.contains('\0') && #[trigger] du::files_in(entries@, p, d) > 0;
        lemma_total(entries@, p, d);
    }
}

/// A directory whose bytes exceed 64 bits is refused, not cut off.
pub proof fn law_large_directories_are_refused(
    before: Vec<(String, Metadata)>,
    after: Vec<(String, Metadata)>,
    path: String,
    metadata: Metadata,
    first: OdDuCursor,
    outcome: Result<OdDuCursor, Failure>,
)
    requires
        after@ == before@.push((path, metadata)),
        metadata.mode == EntryMode::File,
        call_ensures(du::rollup, (&before, None), Ok::<OdDuCursor, Failure>(first)),
        call_ensures(du::rollup, (&after, None), outcome),
        bytes_shown(first.rows@, glob::parent_of(path@)) + metadata.content_length > u64::MAX,
    ensures
        outcome matches Err(f) && f.code is Unexpected && f.message@ == "du byte count overflow"@,
{
    let d = glob::parent_of(path@);
    lemma_shown(first.rows@, before@, None, d);
    assert(after@.drop_last() =~= before@);
    assert(du::bytes_in(after@, None, d) > u64::MAX);
}

/// The files among entries whose parent is a directory, whatever their size.
pub open spec fn files_of(entries: Seq<(String, Metadata)>, directory: Seq<char>) -> nat
    decreases entries.len(),
{
    if entries.len() == 0 {
        0
    } else {
        files_of(entries.drop_last(), directory) + if entries.last().1.mode is File
            && glob::parent_of(entries.last().0@) == directory {
            1nat
        } else {
            0nat
        }
    }
}

proof fn lemma_files_of(entries: Seq<(String, Metadata)>, directory: Seq<char>)
    ensures
        du::files_in(entries, None, directory) == files_of(entries, directory),
    decreases entries.len(),
{
    if entries.len() > 0 {
        lemma_files_of(entries.drop_last(), directory);
    }
}

/// Without a pattern the row of a directory counts all files whose parent it is, and
/// every directory that has one has its row.
pub proof fn law_rows_count_all_files(
    entries: Vec<(String, Metadata)>,
    cursor: OdDuCursor,
    directory: Seq<char>,
)
    requires
        call_ensures(du::rollup, (&entries, None), Ok::<OdDuCursor, Failure>(cursor)),
    ensures
        files_shown(cursor.rows@, directory) == files_of(entries@, directory),
        forall|i: int|
            0 <= i < cursor.rows@.len() ==> (#[trigger] cursor.rows@[i]).file_count == files_of(
                entries@,
                cursor.rows@[i].directory@,
            ),
        files_of(entries@, directory) > 0 ==> exists|i: int|
            0 <= i < cursor.rows@.len() && (#[trigger] cursor.rows@[i]).directory@ == directory,
{
    let views = du::row_views(cursor.rows@);
    lemma_shown(cursor.rows@, entries@, None, directory);
    lemma_files_of(entries@, directory);
    assert forall|i: int| 0 <= i < cursor.rows@.len() implies (
    #[trigger] cursor.rows@[i]).file_count == files_of(entries@, cursor.rows@[i].directory@) by {
        lemma_files_of(entries@, cursor.rows@[i].directory@);
        assert(views[i].1.0 == du::files_in(entries@, None, views[i].0));
        assert(views[i].0 == cursor.rows@[i].directory@);
    }
    if files_of(entries@, directory) > 0 {
        assert(text_map::map_of(views).dom().contains(directory));
        let i = choose|i: int| 0 <= i < views.len() && (#[trigger] views[i]).0 == directory;
        assert(cursor.rows@[i].directory@ == directory);
    }
}

} // verus!
