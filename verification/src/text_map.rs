//! A map keyed by text that keeps its keys in ascending order.

use vstd::prelude::*;

use crate::text;
use crate::text::{text_eq, text_less};

verus! {

/// Entries in strictly ascending order of their keys, so no key occurs twice.
pub struct TextMap<V> {
    entries: Vec<(String, V)>,
}

/// Whether the keys of `rows` ascend strictly.
pub open spec fn ascending<V>(rows: Seq<(Seq<char>, V)>) -> bool {
    forall|i: int, j: int| 0 <= i < j < rows.len() ==> #[trigger] text::text_lt(rows[i].0, rows[j].0)
}

/// The map that `rows` spell.
pub open spec fn map_of<V>(rows: Seq<(Seq<char>, V)>) -> Map<Seq<char>, V> {
    Map::new(
        |k: Seq<char>| exists|i: int| 0 <= i < rows.len() && (#[trigger] rows[i]).0 == k,
        |k: Seq<char>| rows[choose|i: int| 0 <= i < rows.len() && (#[trigger] rows[i]).0 == k].1,
    )
}

/// Whether `after` is `before` with `value` put under `key` at `at`: in place of
/// the entry there, or between the entries around.
pub open spec fn placed<V>(
    before: Seq<(Seq<char>, V)>,
    after: Seq<(Seq<char>, V)>,
    at: int,
    key: Seq<char>,
    value: V,
) -> bool {
    ||| 0 <= at < before.len() && before[at].0 == key && after == before.update(at, (key, value))
    ||| 0 <= at <= before.len() && !map_of(before).dom().contains(key) && after == before.insert(
        at,
        (key, value),
    )
}

impl<V> View for TextMap<V> {
    type V = Map<Seq<char>, V>;

    open spec fn view(&self) -> Map<Seq<char>, V> {
        map_of(self.rows())
    }
}

impl<V> TextMap<V> {
    /// The entries, in order.
    pub closed spec fn rows(&self) -> Seq<(Seq<char>, V)> {
        Seq::new(self.entries@.len(), |i: int| (self.entries@[i].0@, self.entries@[i].1))
    }

    /// Whether the keys ascend strictly.
    pub open spec fn wf(&self) -> bool {
        ascending(self.rows())
    }

    /// An empty map.
    pub fn new() -> (map: TextMap<V>)
        ensures
            map.wf(),
            map.rows().len() == 0,
            map@ == Map::<Seq<char>, V>::empty(),
    {
        let map: TextMap<V> = TextMap { entries: Vec::new() };
        assert(map@ =~= Map::<Seq<char>, V>::empty());
        map
    }

    /// The number of entries.
    pub fn len(&self) -> (len: usize)
        ensures
            len == self.rows().len(),
    {
        self.entries.len()
    }

    /// The key of the entry at `index`.
    pub fn key(&self, index: usize) -> (key: &String)
        requires
            index < self.rows().len(),
        ensures
            key@ == self.rows()[index as int].0,
    {
        &self.entries[index].0
    }

    /// The value of the entry at `index`.
    pub fn value(&self, index: usize) -> (value: &V)
        requires
            index < self.rows().len(),
        ensures
            *value == self.rows()[index as int].1,
    {
        &self.entries[index].1
    }

    /// Where `key` stands, or would stand.
    fn position(&self, key: &str) -> (at: usize)
        requires
            self.wf(),
        ensures
            at <= self.rows().len(),
            forall|i: int| 0 <= i < at ==> text::text_lt((#[trigger] self.rows()[i]).0, key@),
            forall|i: int|
                at <= i < self.rows().len() ==> !text::text_lt((#[trigger] self.rows()[i]).0, key@),
    {
        let mut at: usize = 0;
        while at < self.entries.len() && text_less(self.entries[at].0.as_str(), key)
            invariant
                at <= self.entries@.len(),
                forall|i: int| 0 <= i < at ==> text::text_lt((#[trigger] self.rows()[i]).0, key@),
            decreases self.entries@.len() - at,
        {
            assert(self.rows()[at as int].0 == self.entries@[at as int].0@);
            at += 1;
        }
        assert forall|i: int| at <= i < self.rows().len() implies !text::text_lt(
            (#[trigger] self.rows()[i]).0,
            key@,
        ) by {
            assert(self.rows()[at as int].0 == self.entries@[at as int].0@);
            if text::text_lt(self.rows()[i].0, key@) && i > at {
                assert(text::text_lt(self.rows()[at as int].0, self.rows()[i].0));
                text::lemma_text_lt_transitive(self.rows()[at as int].0, self.rows()[i].0, key@);
            }
        }
        at
    }

    /// The value under `key`.
    pub fn get(&self, key: &str) -> (value: Option<&V>)
        requires
            self.wf(),
        ensures
            value is Some <==> self@.dom().contains(key@),
            value matches Some(v) ==> *v == self@[key@],
    {
        let at: usize = self.position(key);
        if at < self.entries.len() && text_eq(self.entries[at].0.as_str(), key) {
            proof {
                assert(self.rows()[at as int].0 == key@);
                lemma_entry(self.rows(), at as int);
            }
            Some(&self.entries[at].1)
        } else {
            proof {
                lemma_absent(self.rows(), key@, at as int);
            }
            None
        }
    }

    /// Put `value` under `key`, in place of what was there.
    pub fn insert(&mut self, key: String, value: V)
        requires
            old(self).wf(),
        ensures
            final(self).wf(),
            final(self)@ == old(self)@.insert(key@, value),
            exists|at: int| #[trigger]
                placed(old(self).rows(), final(self).rows(), at, key@, value),
    {
        let at: usize = self.position(key.as_str());
        let ghost before = self.rows();
        let ghost k = key@;
        if at < self.entries.len() && text_eq(self.entries[at].0.as_str(), key.as_str()) {
            assert(before[at as int].0 == k);
            self.entries.set(at, (key, value));
            let ghost after = self.rows();
            assert(after =~= before.update(at as int, (k, value)));
            proof {
                assert forall|i: int, j: int| 0 <= i < j < after.len() implies
                    #[trigger] text::text_lt(after[i].0, after[j].0) by {
                    assert(text::text_lt(before[i].0, before[j].0));
                }
                lemma_replaced(before, at as int, value);
                assert(placed(before, after, at as int, k, value));
            }
        } else {
            self.entries.insert(at, (key, value));
            let ghost after = self.rows();
            assert(after =~= before.insert(at as int, (k, value)));
            proof {
                if at < before.len() {
                    assert(before[at as int].0 != k);
                }
                lemma_inserted(before, at as int, k, value);
                lemma_absent(before, k, at as int);
                assert(placed(before, after, at as int, k, value));
            }
        }
    }
}

/// In ascending rows an entry is what the map holds under its key.
pub proof fn lemma_entry<V>(rows: Seq<(Seq<char>, V)>, i: int)
    requires
        ascending(rows),
        0 <= i < rows.len(),
    ensures
        map_of(rows).dom().contains(rows[i].0),
        map_of(rows)[rows[i].0] == rows[i].1,
{
    let k = rows[i].0;
    assert(rows[i].0 == k);
    let j = choose|j: int| 0 <= j < rows.len() && (#[trigger] rows[j]).0 == k;
    text::lemma_text_lt_irreflexive(k);
    if i < j {
        assert(text::text_lt(rows[i].0, rows[j].0));
    } else if j < i {
        assert(text::text_lt(rows[j].0, rows[i].0));
    }
}

/// A key that differs from the entry at its place is not in the map.
proof fn lemma_absent<V>(rows: Seq<(Seq<char>, V)>, k: Seq<char>, at: int)
    requires
        ascending(rows),
        0 <= at <= rows.len(),
        forall|i: int| 0 <= i < at ==> text::text_lt((#[trigger] rows[i]).0, k),
        forall|i: int| at <= i < rows.len() ==> !text::text_lt((#[trigger] rows[i]).0, k),
        at < rows.len() ==> rows[at].0 != k,
    ensures
        !map_of(rows).dom().contains(k),
{
    if map_of(rows).dom().contains(k) {
        let i = choose|i: int| 0 <= i < rows.len() && (#[trigger] rows[i]).0 == k;
        text::lemma_text_lt_irreflexive(k);
        if i > at {
            assert(text::text_lt(rows[at].0, rows[i].0));
        }
    }
}

proof fn lemma_replaced<V>(rows: Seq<(Seq<char>, V)>, at: int, value: V)
    requires
        ascending(rows),
        0 <= at < rows.len(),
        ascending(rows.update(at, (rows[at].0, value))),
    ensures
        map_of(rows.update(at, (rows[at].0, value))) == map_of(rows).insert(rows[at].0, value),
{
    let k = rows[at].0;
    let after = rows.update(at, (k, value));
    let m = map_of(after);
    let n = map_of(rows).insert(k, value);
    assert forall|x: Seq<char>| m.dom().contains(x) <==> n.dom().contains(x) by {
        if m.dom().contains(x) {
            let i = choose|i: int| 0 <= i < after.len() && (#[trigger] after[i]).0 == x;
            assert(rows[i].0 == x);
        }
        if n.dom().contains(x) && x != k {
            let i = choose|i: int| 0 <= i < rows.len() && (#[trigger] rows[i]).0 == x;
            assert(after[i].0 == x);
        }
        if x == k {
            assert(after[at].0 == k);
        }
    }
    assert forall|x: Seq<char>| m.dom().contains(x) implies m[x] == n[x] by {
        let i = choose|i: int| 0 <= i < after.len() && (#[trigger] after[i]).0 == x;
        lemma_entry(after, i);
        if x == k {
            lemma_entry(after, at);
        } else {
            assert(rows[i] == after[i]);
            lemma_entry(rows, i);
        }
    }
    assert(m =~= n);
}

proof fn lemma_inserted<V>(rows: Seq<(Seq<char>, V)>, at: int, k: Seq<char>, value: V)
    requires
        ascending(rows),
        0 <= at <= rows.len(),
        forall|i: int| 0 <= i < at ==> text::text_lt((#[trigger] rows[i]).0, k),
        forall|i: int| at <= i < rows.len() ==> !text::text_lt((#[trigger] rows[i]).0, k),
        at < rows.len() ==> rows[at].0 != k,
    ensures
        ascending(rows.insert(at, (k, value))),
        map_of(rows.insert(at, (k, value))) == map_of(rows).insert(k, value),
{
    let after = rows.insert(at, (k, value));
    assert forall|i: int| at <= i < rows.len() implies text::text_lt(k, #[trigger] rows[i].0) by {
        if at < i {
            assert(text::text_lt(rows[at].0, rows[i].0));
        }
        text::lemma_text_lt_total(rows[at].0, k);
        if at < i {
            text::lemma_text_lt_transitive(k, rows[at].0, rows[i].0);
        }
    }
    assert forall|i: int, j: int| 0 <= i < j < after.len() implies #[trigger] text::text_lt(
        after[i].0,
        after[j].0,
    ) by {
        let a = if i < at {
            i
        } else {
            i - 1
        };
        let b = if j < at {
            j
        } else {
            j - 1
        };
        if i != at {
            assert(after[i] == rows[a]);
        }
        if j != at {
            assert(after[j] == rows[b]);
        }
        if i != at && j != at {
            assert(text::text_lt(rows[a].0, rows[b].0));
        }
    }
    let m = map_of(after);
    let n = map_of(rows).insert(k, value);
    assert(after[at].0 == k);
    assert forall|x: Seq<char>| m.dom().contains(x) <==> n.dom().contains(x) by {
        if m.dom().contains(x) && x != k {
            let i = choose|i: int| 0 <= i < after.len() && (#[trigger] after[i]).0 == x;
            let a = if i < at {
                i
            } else {
                i - 1
            };
            assert(rows[a].0 == x);
        }
        if n.dom().contains(x) && x != k {
            let i = choose|i: int| 0 <= i < rows.len() && (#[trigger] rows[i]).0 == x;
            let a = if i < at {
                i
            } else {
                i + 1
            };
            assert(after[a].0 == x);
        }
    }
    assert forall|x: Seq<char>| m.dom().contains(x) implies m[x] == n[x] by {
        let i = choose|i: int| 0 <= i < after.len() && (#[trigger] after[i]).0 == x;
        lemma_entry(after, i);
        lemma_entry(after, at);
        if x != k {
            let a = if i < at {
                i
            } else {
                i - 1
            };
            assert(rows[a] == after[i]);
            lemma_entry(rows, a);
        }
    }
    assert(m =~= n);
}

} // verus!
