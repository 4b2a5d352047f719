//! Complaints about text entries, in the order of their keys.

use vstd::prelude::*;

use crate::text;
use crate::text_map;
use crate::text_map::TextMap;

verus! {

/// The first complaint about entries, in the order of their keys.
pub open spec fn first_error(
    rows: Seq<(Seq<char>, String)>,
    error: spec_fn(Seq<char>, Seq<char>) -> Option<Seq<char>>,
) -> Option<Seq<char>>
    decreases rows.len(),
{
    if rows.len() == 0 {
        None
    } else {
        match first_error(rows.drop_last(), error) {
            Some(message) => Some(message),
            None => error(rows.last().0, rows.last().1@),
        }
    }
}

/// A complaint about the first entries is the complaint about the section.
pub proof fn lemma_first_error_prefix(
    rows: Seq<(Seq<char>, String)>,
    n: int,
    error: spec_fn(Seq<char>, Seq<char>) -> Option<Seq<char>>,
)
    requires
        0 <= n <= rows.len(),
        first_error(rows.take(n), error) is Some,
    ensures
        first_error(rows, error) == first_error(rows.take(n), error),
    decreases rows.len(),
{
    if n == rows.len() {
        assert(rows.take(n) =~= rows);
    } else {
        assert(rows.drop_last().take(n) =~= rows.take(n));
        lemma_first_error_prefix(rows.drop_last(), n, error);
    }
}

/// Looking at one more entry.
pub proof fn lemma_first_error_step(
    rows: Seq<(Seq<char>, String)>,
    i: int,
    error: spec_fn(Seq<char>, Seq<char>) -> Option<Seq<char>>,
)
    requires
        0 <= i < rows.len(),
        first_error(rows.take(i), error) is None,
    ensures
        first_error(rows.take(i + 1), error) == error(rows[i].0, rows[i].1@),
{
    assert(rows.take(i + 1).drop_last() =~= rows.take(i));
    assert(rows.take(i + 1).last() == rows[i]);
}

/// A section without complaint has none about any of its entries.
pub proof fn lemma_no_error(
    rows: Seq<(Seq<char>, String)>,
    error: spec_fn(Seq<char>, Seq<char>) -> Option<Seq<char>>,
    i: int,
)
    requires
        first_error(rows, error) is None,
        0 <= i < rows.len(),
    ensures
        error(rows[i].0, rows[i].1@) is None,
    decreases rows.len(),
{
    if i < rows.len() - 1 {
        lemma_no_error(rows.drop_last(), error, i);
        assert(rows.drop_last()[i] == rows[i]);
    }
}

/// The keys of a section with the text given for each.
pub open spec fn entries(section: &TextMap<String>) -> Map<Seq<char>, Seq<char>> {
    section@.map_values(|text: String| text@)
}

/// Whether `key` is the least key that is complained about.
pub open spec fn is_least_error(
    section: Map<Seq<char>, Seq<char>>,
    error: spec_fn(Seq<char>, Seq<char>) -> Option<Seq<char>>,
    key: Seq<char>,
) -> bool {
    &&& section.dom().contains(key)
    &&& error(key, section[key]) is Some
    &&& forall|other: Seq<char>| #[trigger]
        section.dom().contains(other) && text::text_lt(other, key) ==> error(
            other,
            section[other],
        ) is None
}

/// What is said of a section: the complaint about the least key that gives one.
pub open spec fn complaint(
    section: Map<Seq<char>, Seq<char>>,
    error: spec_fn(Seq<char>, Seq<char>) -> Option<Seq<char>>,
) -> Option<Seq<char>> {
    if exists|key: Seq<char>| #[trigger] is_least_error(section, error, key) {
        let key = choose|key: Seq<char>| #[trigger] is_least_error(section, error, key);
        error(key, section[key])
    } else {
        None
    }
}

/// The entry where the complaint about ascending rows comes from.
proof fn lemma_first_error_at(
    rows: Seq<(Seq<char>, String)>,
    error: spec_fn(Seq<char>, Seq<char>) -> Option<Seq<char>>,
) -> (i: int)
    requires
        first_error(rows, error) is Some,
    ensures
        0 <= i < rows.len(),
        error(rows[i].0, rows[i].1@) == first_error(rows, error),
        forall|j: int| 0 <= j < i ==> error((#[trigger] rows[j]).0, rows[j].1@) is None,
    decreases rows.len(),
{
    let front = rows.drop_last();
    if first_error(front, error) is Some {
        let i = lemma_first_error_at(front, error);
        assert forall|j: int| 0 <= j < i implies error((#[trigger] rows[j]).0, rows[j].1@) is None by {
            assert(front[j] == rows[j]);
        }
        i
    } else {
        assert forall|j: int| 0 <= j < rows.len() - 1 implies error(
            (#[trigger] rows[j]).0,
            rows[j].1@,
        ) is None by {
            lemma_no_error(front, error, j);
            assert(front[j] == rows[j]);
        }
        rows.len() - 1
    }
}

/// Going through a section in the order of its keys finds its complaint.
pub proof fn lemma_complaint(
    section: &TextMap<String>,
    error: spec_fn(Seq<char>, Seq<char>) -> Option<Seq<char>>,
)
    requires
        section.wf(),
    ensures
        complaint(entries(section), error) == first_error(section.rows(), error),
{
    let rows = section.rows();
    let m = entries(section);
    if first_error(rows, error) is Some {
        let i = lemma_first_error_at(rows, error);
        text_map::lemma_entry(rows, i);
        let least = rows[i].0;
        assert(m.dom().contains(least));
        assert forall|other: Seq<char>| #[trigger]
            m.dom().contains(other) && text::text_lt(other, least) implies error(
            other,
            m[other],
        ) is None by {
            assert(section@.dom().contains(other));
            let j = choose|j: int| 0 <= j < rows.len() && (#[trigger] rows[j]).0 == other;
            text_map::lemma_entry(rows, j);
            if j > i {
                assert(text::text_lt(rows[i].0, rows[j].0));
                text::lemma_text_lt_antisymmetric(other, least);
            } else if j == i {
                text::lemma_text_lt_irreflexive(other);
            }
        }
        assert(is_least_error(m, error, least));
        let key = choose|key: Seq<char>| #[trigger] is_least_error(m, error, key);
        text::lemma_text_lt_total(key, least);
        assert(key == least);
    } else if exists|key: Seq<char>| #[trigger] is_least_error(m, error, key) {
        let key = choose|key: Seq<char>| #[trigger] is_least_error(m, error, key);
        assert(section@.dom().contains(key));
        let j = choose|j: int| 0 <= j < rows.len() && (#[trigger] rows[j]).0 == key;
        text_map::lemma_entry(rows, j);
        lemma_no_error(rows, error, j);
    }
}

/// A section without rows has no entries, and the other way round.
pub proof fn lemma_empty(section: &TextMap<String>)
    requires
        section.wf(),
    ensures
        section.rows().len() == 0 <==> entries(section) == Map::<Seq<char>, Seq<char>>::empty(),
{
    let m = entries(section);
    if section.rows().len() == 0 {
        assert(m =~= Map::<Seq<char>, Seq<char>>::empty());
    } else {
        text_map::lemma_entry(section.rows(), 0);
        assert(m.dom().contains(section.rows()[0].0));
    }
}

/// Among finitely many keys there is a least.
proof fn lemma_least_key(keys: Set<Seq<char>>) -> (least: Seq<char>)
    requires
        keys.finite(),
        keys.len() > 0,
    ensures
        keys.contains(least),
        forall|other: Seq<char>| #[trigger] keys.contains(other) ==> !text::text_lt(other, least),
    decreases keys.len(),
{
    let key = keys.choose();
    let smaller = keys.filter(|other: Seq<char>| text::text_lt(other, key));
    text::lemma_text_lt_irreflexive(key);
    if smaller.len() == 0 {
        assert forall|other: Seq<char>| #[trigger] keys.contains(other) implies !text::text_lt(
            other,
            key,
        ) by {
            if text::text_lt(other, key) {
                assert(smaller.contains(other));
            }
        }
        key
    } else {
        assert(!smaller.contains(key));
        assert(smaller.subset_of(keys.remove(key)));
        vstd::set_lib::lemma_len_subset(smaller, keys.remove(key));
        let least = lemma_least_key(smaller);
        assert forall|other: Seq<char>| #[trigger] keys.contains(other) implies !text::text_lt(
            other,
            least,
        ) by {
            if text::text_lt(other, least) {
                text::lemma_text_lt_transitive(other, least, key);
                assert(smaller.contains(other));
            }
        }
        least
    }
}

/// No complaint is passed over: one about any entry is one about the section.
pub proof fn law_complaints_are_found(
    section: Map<Seq<char>, Seq<char>>,
    error: spec_fn(Seq<char>, Seq<char>) -> Option<Seq<char>>,
    key: Seq<char>,
)
    requires
        section.dom().finite(),
        section.dom().contains(key),
        error(key, section[key]) is Some,
    ensures
        complaint(section, error) is Some,
{
    let wrong = section.dom().filter(|k: Seq<char>| error(k, section[k]) is Some);
    assert(wrong.contains(key));
    if wrong.len() == 0 {
        assert(wrong =~= Set::<Seq<char>>::empty());
    }
    let least = lemma_least_key(wrong);
    assert forall|other: Seq<char>| #[trigger]
        section.dom().contains(other) && text::text_lt(other, least) implies error(
        other,
        section[other],
    ) is None by {
        if error(other, section[other]) is Some {
            assert(wrong.contains(other));
        }
    }
    assert(is_least_error(section, error, least));
}

} // verus!
