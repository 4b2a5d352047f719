//! Full-path globs.
//!
//! A pattern is matched against the bytes of a whole operator-relative path.
//! `?` stands for one byte and `*` for any run of bytes, neither of them a `/`;
//! `**` stands for any run of bytes at all and swallows one `/` behind it;
//! `[...]` stands for one byte of a class, again no `/`.

use std::collections::HashMap;

use vstd::prelude::*;
use vstd::utf8::*;

use crate::text::{self, chars_of, rfind_char, trimmed_end};
use crate::utf8;

verus! {

broadcast use vstd::std_specs::hash::group_hash_axioms;

pub const SLASH: u8 = 47;

pub const STAR: u8 = 42;

pub const QUESTION: u8 = 63;

pub const OPEN: u8 = 91;

pub const CLOSE: u8 = 93;

pub const DASH: u8 = 45;

pub const BANG: u8 = 33;

pub const CARET: u8 = 94;

/// Whether a byte opens a wildcard.
pub open spec fn is_wild(b: u8) -> bool {
    b == STAR || b == QUESTION || b == OPEN
}

/// Whether one of the items of a class holds `b`: each item is a range `x-y` or
/// a single byte, read from the left.
pub open spec fn items_hold(items: Seq<u8>, b: u8) -> bool
    decreases items.len(),
{
    if items.len() == 0 {
        false
    } else if items.len() > 2 && items[1] == DASH {
        items[0] <= b <= items[2] || items_hold(items.skip(3), b)
    } else {
        items[0] == b || items_hold(items.skip(1), b)
    }
}

/// Whether a class begins with a negation sign.
pub open spec fn is_negated(class: Seq<u8>) -> bool {
    class.len() > 0 && (class[0] == BANG || class[0] == CARET)
}

/// Whether the class between `[` and `]` admits `b`.
pub open spec fn class_admits(class: Seq<u8>, b: u8) -> bool {
    if is_negated(class) {
        !items_hold(class.skip(1), b)
    } else {
        items_hold(class, b)
    }
}

/// The position of the first `]`.
pub open spec fn closing(p: Seq<u8>) -> Option<int>
    decreases p.len(),
{
    if p.len() == 0 {
        None
    } else if p[0] == CLOSE {
        Some(0)
    } else {
        match closing(p.skip(1)) {
            Some(i) => Some(i + 1),
            None => None,
        }
    }
}

/// Whether the pattern begins with `**`.
pub open spec fn starts_double(p: Seq<u8>) -> bool {
    p.len() >= 2 && p[0] == STAR && p[1] == STAR
}

/// Whether the pattern `p` matches the whole of `v`.
pub open spec fn glob(p: Seq<u8>, v: Seq<u8>) -> bool
    decreases p.len(),
{
    if p.len() == 0 {
        v.len() == 0
    } else if starts_double(p) {
        exists|k: int|
            0 <= k <= v.len() && (glob(p.skip(2), #[trigger] v.skip(k)) || (p.len() > 2 && p[2]
                == SLASH && glob(p.skip(3), v.skip(k))))
    } else if p[0] == STAR {
        exists|k: int|
            0 <= k <= v.len() && !v.take(k).contains(SLASH) && glob(
                p.skip(1),
                #[trigger] v.skip(k),
            )
    } else if p[0] == QUESTION {
        v.len() > 0 && v[0] != SLASH && glob(p.skip(1), v.skip(1))
    } else if p[0] == OPEN {
        closing(p) matches Some(end) && 0 < end < p.len() && v.len() > 0 && v[0] != SLASH
            && class_admits(p.subrange(1, end), v[0]) && glob(p.skip(end + 1), v.skip(1))
    } else {
        v.len() > 0 && p[0] == v[0] && glob(p.skip(1), v.skip(1))
    }
}

/// One step of a `**`: it ends here, or it takes one more byte.
proof fn lemma_double_step(p: Seq<u8>, v: Seq<u8>)
    requires
        starts_double(p),
    ensures
        glob(p, v) == (glob(p.skip(2), v) || (p.len() > 2 && p[2] == SLASH && glob(p.skip(3), v))
            || (v.len() > 0 && glob(p, v.skip(1)))),
{
    assert(v.skip(0) =~= v);
    if glob(p, v) {
        let k = choose|k: int|
            0 <= k <= v.len() && (glob(p.skip(2), #[trigger] v.skip(k)) || (p.len() > 2 && p[2]
                == SLASH && glob(p.skip(3), v.skip(k))));
        if k > 0 {
            assert(v.skip(1).skip(k - 1) =~= v.skip(k));
        }
    }
    if v.len() > 0 && glob(p, v.skip(1)) {
        let w = v.skip(1);
        let k = choose|k: int|
            0 <= k <= w.len() && (glob(p.skip(2), #[trigger] w.skip(k)) || (p.len() > 2 && p[2]
                == SLASH && glob(p.skip(3), w.skip(k))));
        assert(w.skip(k) =~= v.skip(k + 1));
    }
}

/// One step of a `*`: it ends here, or it takes one more byte that is no `/`.
proof fn lemma_star_step(p: Seq<u8>, v: Seq<u8>)
    requires
        p.len() > 0,
        p[0] == STAR,
        !starts_double(p),
    ensures
        glob(p, v) == (glob(p.skip(1), v) || (v.len() > 0 && v[0] != SLASH && glob(p, v.skip(1)))),
{
    assert(v.skip(0) =~= v);
    assert(!v.take(0).contains(SLASH));
    if glob(p, v) {
        let k = choose|k: int|
            0 <= k <= v.len() && !v.take(k).contains(SLASH) && glob(
                p.skip(1),
                #[trigger] v.skip(k),
            );
        if k > 0 {
            assert(v.take(k)[0] == v[0]);
            assert(v.skip(1).skip(k - 1) =~= v.skip(k));
            assert forall|b: u8| v.skip(1).take(k - 1).contains(b) implies v.take(k).contains(b) by {
                let w = v.skip(1).take(k - 1);
                let i = choose|i: int| 0 <= i < w.len() && w[i] == b;
                assert(v.take(k)[i + 1] == b);
            }
        }
    }
    if v.len() > 0 && v[0] != SLASH && glob(p, v.skip(1)) {
        let w = v.skip(1);
        let k = choose|k: int|
            0 <= k <= w.len() && !w.take(k).contains(SLASH) && glob(
                p.skip(1),
                #[trigger] w.skip(k),
            );
        assert(w.skip(k) =~= v.skip(k + 1));
        let taken = v.take(k + 1);
        assert forall|i: int| 0 <= i < taken.len() implies taken[i] != SLASH by {
            if i > 0 {
                assert(w.take(k)[i - 1] == taken[i]);
            }
        }
    }
}

/// The first `]` is the only one up to its position.
proof fn lemma_closing(p: Seq<u8>, end: int)
    requires
        0 <= end < p.len(),
        p[end] == CLOSE,
        forall|i: int| 0 <= i < end ==> p[i] != CLOSE,
    ensures
        closing(p) == Some(end),
    decreases end,
{
    if end > 0 {
        lemma_closing(p.skip(1), end - 1);
    }
}

/// Without a `]` no class closes.
proof fn lemma_no_closing(p: Seq<u8>)
    requires
        forall|i: int| 0 <= i < p.len() ==> p[i] != CLOSE,
    ensures
        closing(p) is None,
    decreases p.len(),
{
    if p.len() > 0 {
        lemma_no_closing(p.skip(1));
    }
}

/// Whether the class that stands at `from..to` of the pattern admits `b`.
fn class_matches(pattern: &[u8], from: usize, to: usize, b: u8) -> (admits: bool)
    requires
        from <= to <= pattern@.len(),
    ensures
        admits == class_admits(pattern@.subrange(from as int, to as int), b),
{
    let ghost class = pattern@.subrange(from as int, to as int);
    let negated: bool = from < to && (pattern[from] == BANG || pattern[from] == CARET);
    let start: usize = if negated {
        from + 1
    } else {
        from
    };
    let ghost items = pattern@.subrange(start as int, to as int);
    assert(negated ==> items =~= class.skip(1));
    assert(items.skip(0) =~= items);
    let mut matched: bool = false;
    let mut index: usize = start;
    while index < to
        invariant
            start <= index <= to <= pattern@.len(),
            items == pattern@.subrange(start as int, to as int),
            items_hold(items, b) == (matched || items_hold(items.skip(index - start), b)),
        decreases to - index,
    {
        let ghost rest = items.skip(index - start);
        if to - index > 2 && pattern[index + 1] == DASH {
            assert(rest.skip(3) =~= items.skip(index - start + 3));
            if pattern[index] <= b && b <= pattern[index + 2] {
                matched = true;
            }
            index += 3;
        } else {
            assert(rest.skip(1) =~= items.skip(index - start + 1));
            if pattern[index] == b {
                matched = true;
            }
            index += 1;
        }
    }
    matched != negated
}

/// A table key for the suffixes at `i` and `j`.
pub open spec fn memo_key(i: usize, j: usize) -> u128 {
    (i as u128 * 0x1_0000_0000_0000_0000u128 + j as u128) as u128
}

/// Every entry of the table is the match of the two suffixes it is filed under.
pub open spec fn memo_sound(memo: Map<u128, bool>, p: Seq<u8>, v: Seq<u8>) -> bool {
    forall|i: usize, j: usize|
        i <= p.len() && j <= v.len() && #[trigger] memo.contains_key(memo_key(i, j))
            ==> memo[memo_key(i, j)] == glob(p.skip(i as int), v.skip(j as int))
}

/// Matches the suffix of the pattern at `i` against the suffix of the value at
/// `j`, each pair of suffixes once.
fn run(pattern: &[u8], i: usize, value: &[u8], j: usize, memo: &mut HashMap<u128, bool>) -> (result:
    bool)
    requires
        i <= pattern@.len(),
        j <= value@.len(),
        memo_sound(old(memo)@, pattern@, value@),
    ensures
        result == glob(pattern@.skip(i as int), value@.skip(j as int)),
        memo_sound(final(memo)@, pattern@, value@),
    decreases pattern@.len() - i, value@.len() - j,
{
    let key: u128 = i as u128 * 0x1_0000_0000_0000_0000u128 + j as u128;
    assert(key == memo_key(i, j));
    if let Some(known) = memo.get(&key) {
        return *known;
    }
    let ghost p = pattern@.skip(i as int);
    let ghost v = value@.skip(j as int);
    let more: bool = j < value.len();
    let result: bool = if i == pattern.len() {
        !more
    } else if pattern.len() - i >= 2 && pattern[i] == STAR && pattern[i + 1] == STAR {
        proof {
            lemma_double_step(p, v);
            assert(p.skip(2) =~= pattern@.skip(i + 2));
            if more {
                assert(v.skip(1) =~= value@.skip(j + 1));
            }
            if p.len() > 2 {
                assert(p.skip(3) =~= pattern@.skip(i + 3));
            }
        }
        (pattern.len() - i > 2 && pattern[i + 2] == SLASH && run(pattern, i + 3, value, j, memo))
            || run(pattern, i + 2, value, j, memo) || (more && run(pattern, i, value, j + 1, memo))
    } else if pattern[i] == STAR {
        proof {
            lemma_star_step(p, v);
            assert(p.skip(1) =~= pattern@.skip(i + 1));
            if more {
                assert(v.skip(1) =~= value@.skip(j + 1));
            }
        }
        run(pattern, i + 1, value, j, memo) || (more && value[j] != SLASH && run(
            pattern,
            i,
            value,
            j + 1,
            memo,
        ))
    } else if pattern[i] == QUESTION {
        proof {
            assert(p.skip(1) =~= pattern@.skip(i + 1));
            if more {
                assert(v.skip(1) =~= value@.skip(j + 1));
            }
        }
        more && value[j] != SLASH && run(pattern, i + 1, value, j + 1, memo)
    } else if pattern[i] == OPEN {
        let mut end: usize = i;
        while end < pattern.len() && pattern[end] != CLOSE
            invariant
                i <= end <= pattern@.len(),
                forall|n: int| i <= n < end ==> pattern@[n] != CLOSE,
            decreases pattern@.len() - end,
        {
            end += 1;
        }
        if end == pattern.len() {
            proof {
                lemma_no_closing(p);
            }
            return false;
        }
        proof {
            lemma_closing(p, end - i);
            assert(p.skip(end - i + 1) =~= pattern@.skip(end + 1));
            assert(p.subrange(1, end - i) =~= pattern@.subrange(i + 1, end as int));
            if more {
                assert(v.skip(1) =~= value@.skip(j + 1));
            }
        }
        more && value[j] != SLASH && class_matches(pattern, i + 1, end, value[j]) && run(
            pattern,
            end + 1,
            value,
            j + 1,
            memo,
        )
    } else {
        proof {
            assert(p.skip(1) =~= pattern@.skip(i + 1));
            if more {
                assert(v.skip(1) =~= value@.skip(j + 1));
            }
        }
        more && pattern[i] == value[j] && run(pattern, i + 1, value, j + 1, memo)
    };
    memo.insert(key, result);
    result
}

/// Whether the glob `pattern` matches the whole of `value`.
pub fn glob_matches(pattern: &[u8], value: &[u8]) -> (result: bool)
    ensures
        result == glob(pattern@, value@),
{
    let mut memo: HashMap<u128, bool> = HashMap::new();
    assert(pattern@.skip(0) =~= pattern@);
    assert(value@.skip(0) =~= value@);
    run(pattern, 0, value, 0, &mut memo)
}

/// Whether a character opens a wildcard.
pub open spec fn is_wild_char(c: char) -> bool {
    c == '*' || c == '?' || c == '['
}

/// The position of the first wildcard, or the end.
pub open spec fn first_wild(p: Seq<char>) -> int
    decreases p.len(),
{
    if p.len() == 0 || is_wild_char(p[0]) {
        0
    } else {
        1 + first_wild(p.drop_first())
    }
}

/// No character before the first wildcard opens one.
pub proof fn lemma_first_wild(p: Seq<char>)
    ensures
        0 <= first_wild(p) <= p.len(),
        forall|i: int| 0 <= i < first_wild(p) ==> !is_wild_char(#[trigger] p[i]),
        first_wild(p) < p.len() ==> is_wild_char(p[first_wild(p)]),
    decreases p.len(),
{
    if p.len() > 0 && !is_wild_char(p[0]) {
        lemma_first_wild(p.drop_first());
        assert forall|i: int| 0 <= i < first_wild(p) implies !is_wild_char(#[trigger] p[i]) by {
            if i > 0 {
                assert(p.drop_first()[i - 1] == p[i]);
            }
        }
    }
}

/// The first wildcard is where the characters before it are none and it is one.
proof fn lemma_first_wild_at(p: Seq<char>, n: int)
    requires
        0 <= n <= p.len(),
        forall|i: int| 0 <= i < n ==> !is_wild_char(#[trigger] p[i]),
        n < p.len() ==> is_wild_char(p[n]),
    ensures
        first_wild(p) == n,
{
    lemma_first_wild(p);
    let m = first_wild(p);
    if m < n {
        assert(!is_wild_char(p[m]));
    } else if n < m {
        assert(!is_wild_char(p[n]));
    }
}

/// The position of the first wildcard among the characters, or their number.
fn find_wild(chars: &Vec<char>) -> (at: usize)
    ensures
        at == first_wild(chars@),
        at <= chars@.len(),
{
    let mut i: usize = 0;
    while i < chars.len() && !(chars[i] == '*' || chars[i] == '?' || chars[i] == '[')
        invariant
            i <= chars@.len(),
            forall|j: int| 0 <= j < i ==> !is_wild_char(#[trigger] chars@[j]),
        decreases chars@.len() - i,
    {
        i += 1;
    }
    proof {
        lemma_first_wild_at(chars@, i as int);
    }
    i
}

/// Whether a path holds a wildcard.
pub fn has_glob(path: &str) -> (found: bool)
    ensures
        found == (exists|i: int| 0 <= i < path@.len() && is_wild_char(#[trigger] path@[i])),
        found == (first_wild(path@) < path@.len()),
{
    let chars: Vec<char> = chars_of(path);
    let at: usize = find_wild(&chars);
    proof {
        lemma_first_wild(path@);
    }
    at < chars.len()
}

/// The static prefix of a pattern: all of it up to the last `/` before the first
/// wildcard.
pub open spec fn static_root(p: Seq<char>) -> Seq<char> {
    match text::last_index(p.take(first_wild(p)), '/') {
        Some(slash) => p.take(slash + 1),
        None => Seq::empty(),
    }
}

/// The directory from which the matches of a pattern are listed.
pub fn glob_root(pattern: &str) -> (root: &str)
    ensures
        root@ == static_root(pattern@),
{
    let chars: Vec<char> = chars_of(pattern);
    let at: usize = find_wild(&chars);
    let to: usize = match rfind_char(&chars, at, '/') {
        Some(slash) => slash + 1,
        None => 0,
    };
    assert(pattern@.subrange(0, to as int) =~= pattern@.take(to as int));
    pattern.substring_char(0, to)
}

/// The directory that holds a path: all before the `/` that precedes its last
/// name, or nothing.
pub open spec fn parent_of(p: Seq<char>) -> Seq<char> {
    match text::last_index(text::trim_end(p, '/'), '/') {
        Some(slash) => p.take(slash),
        None => Seq::empty(),
    }
}

/// The directory that holds `path`.
pub fn parent(path: &str) -> (directory: &str)
    ensures
        directory@ == parent_of(path@),
{
    let chars: Vec<char> = chars_of(path);
    let end: usize = trimmed_end(&chars, '/');
    let to: usize = match rfind_char(&chars, end, '/') {
        Some(slash) => slash,
        None => 0,
    };
    assert(path@.subrange(0, to as int) =~= path@.take(to as int));
    path.substring_char(0, to)
}

/// A run of bytes without wildcards matches itself and nothing else, and leaves
/// the rest of the value to the rest of the pattern.
pub proof fn law_literal_prefix(literal: Seq<u8>, rest: Seq<u8>, v: Seq<u8>)
    requires
        forall|i: int| 0 <= i < literal.len() ==> !is_wild(#[trigger] literal[i]),
    ensures
        glob(literal + rest, v) == (literal.len() <= v.len() && v.take(literal.len() as int)
            == literal && glob(rest, v.skip(literal.len() as int))),
    decreases literal.len(),
{
    let p = literal + rest;
    if literal.len() == 0 {
        assert(p =~= rest);
        assert(v.skip(0) =~= v);
        assert(v.take(0) =~= literal);
    } else {
        let tail = literal.drop_first();
        assert(p[0] == literal[0]);
        assert(!is_wild(literal[0]));
        assert(p.skip(1) =~= tail + rest);
        assert forall|i: int| 0 <= i < tail.len() implies !is_wild(#[trigger] tail[i]) by {
            assert(tail[i] == literal[i + 1]);
        }
        if v.len() > 0 {
            law_literal_prefix(tail, rest, v.skip(1));
            if literal.len() <= v.len() {
                assert(v.skip(1).skip(tail.len() as int) =~= v.skip(literal.len() as int));
                let a = v.take(literal.len() as int);
                let b = v.skip(1).take(tail.len() as int);
                assert(b =~= a.drop_first());
                if a == literal {
                    assert(b == tail);
                }
                if b == tail && v[0] == literal[0] {
                    assert forall|i: int| 0 <= i < literal.len() implies a[i] == literal[i] by {
                        if i > 0 {
                            assert(a.drop_first()[i - 1] == a[i]);
                            assert(tail[i - 1] == literal[i]);
                        }
                    }
                    assert(a =~= literal);
                }
                assert(a == literal ==> a[0] == v[0]);
            }
        }
    }
}

/// A pattern without wildcards matches exactly itself.
pub proof fn law_literal(p: Seq<u8>, v: Seq<u8>)
    requires
        forall|i: int| 0 <= i < p.len() ==> !is_wild(#[trigger] p[i]),
    ensures
        glob(p, v) == (p == v),
{
    law_literal_prefix(p, Seq::empty(), v);
    assert(p + Seq::<u8>::empty() =~= p);
    if p.len() <= v.len() {
        if v.skip(p.len() as int).len() == 0 {
            assert(v.take(p.len() as int) =~= v);
        }
    }
    if p == v {
        assert(v.take(p.len() as int) =~= v);
    }
}

/// `**` alone matches every path, across any number of directories.
pub proof fn law_double_star_matches_all(v: Seq<u8>)
    ensures
        glob(seq![STAR, STAR], v),
{
    let p = seq![STAR, STAR];
    assert(p.skip(2) =~= Seq::<u8>::empty());
    assert(v.skip(v.len() as int) =~= Seq::<u8>::empty());
    assert(glob(p.skip(2), v.skip(v.len() as int)));
}

/// `**/` also stands for no directory at all.
pub proof fn law_double_star_may_be_empty(rest: Seq<u8>, v: Seq<u8>)
    requires
        glob(rest, v),
    ensures
        glob(seq![STAR, STAR, SLASH] + rest, v),
{
    let p = seq![STAR, STAR, SLASH] + rest;
    assert(p.skip(3) =~= rest);
    lemma_double_step(p, v);
}

/// The number of `/` in `v`.
pub open spec fn slashes(v: Seq<u8>) -> nat
    decreases v.len(),
{
    if v.len() == 0 {
        0
    } else {
        (if v[0] == SLASH {
            1nat
        } else {
            0nat
        }) + slashes(v.skip(1))
    }
}

/// The number of `/` that a pattern asks for outside its classes.
pub open spec fn literal_slashes(p: Seq<u8>) -> nat
    decreases p.len(),
{
    if p.len() == 0 {
        0
    } else if p[0] == OPEN {
        match closing(p) {
            Some(end) if 0 < end < p.len() => literal_slashes(p.skip(end + 1)),
            _ => 0,
        }
    } else {
        (if p[0] == SLASH {
            1nat
        } else {
            0nat
        }) + literal_slashes(p.skip(1))
    }
}

/// Whether a pattern uses `**` outside its classes.
pub open spec fn uses_double(p: Seq<u8>) -> bool
    decreases p.len(),
{
    if p.len() == 0 {
        false
    } else if p[0] == OPEN {
        match closing(p) {
            Some(end) if 0 < end < p.len() => uses_double(p.skip(end + 1)),
            _ => false,
        }
    } else {
        starts_double(p) || uses_double(p.skip(1))
    }
}

proof fn lemma_slashes_split(v: Seq<u8>, k: int)
    requires
        0 <= k <= v.len(),
        !v.take(k).contains(SLASH),
    ensures
        slashes(v) == slashes(v.skip(k)),
    decreases k,
{
    if k == 0 {
        assert(v.skip(0) =~= v);
    } else {
        assert(v.take(k)[0] == v[0]);
        assert(v.take(k).contains(v[0]));
        let w = v.skip(1);
        let x = w.take(k - 1);
        assert forall|i: int| 0 <= i < x.len() implies x[i] != SLASH by {
            assert(v.take(k)[i + 1] == x[i]);
            assert(v.take(k).contains(v.take(k)[i + 1]));
        }
        lemma_slashes_split(w, k - 1);
        assert(w.skip(k - 1) =~= v.skip(k));
    }
}

/// `*`, `?` and classes do not cross a `/`: without `**`, a match has exactly
/// the `/` that the pattern spells out.
pub proof fn law_single_wildcards_stay_in_a_directory(p: Seq<u8>, v: Seq<u8>)
    requires
        glob(p, v),
        !uses_double(p),
    ensures
        slashes(v) == literal_slashes(p),
    decreases p.len(),
{
    if p.len() == 0 {
    } else if p[0] == STAR {
        let k = choose|k: int|
            0 <= k <= v.len() && !v.take(k).contains(SLASH) && glob(
                p.skip(1),
                #[trigger] v.skip(k),
            );
        lemma_slashes_split(v, k);
        law_single_wildcards_stay_in_a_directory(p.skip(1), v.skip(k));
    } else if p[0] == OPEN {
        let end = closing(p)->0;
        law_single_wildcards_stay_in_a_directory(p.skip(end + 1), v.skip(1));
    } else {
        law_single_wildcards_stay_in_a_directory(p.skip(1), v.skip(1));
    }
}

/// The static prefix holds no wildcard.
proof fn lemma_static_root(p: Seq<char>)
    ensures
        static_root(p).len() <= p.len(),
        static_root(p) == p.take(static_root(p).len() as int),
        forall|i: int| 0 <= i < static_root(p).len() ==> !is_wild_char(#[trigger] static_root(p)[i]),
{
    lemma_first_wild(p);
    let lead = p.take(first_wild(p));
    text::lemma_last_index(lead, '/');
    match text::last_index(lead, '/') {
        Some(slash) => {
            assert forall|i: int| 0 <= i < static_root(p).len() implies !is_wild_char(
                #[trigger] static_root(p)[i],
            ) by {
                assert(static_root(p)[i] == p[i]);
            }
        },
        None => {
            assert(static_root(p) =~= p.take(0));
        },
    }
}

/// The matches of a pattern all lie under its static prefix, so listing that
/// prefix misses none of them.
pub proof fn law_matches_lie_under_static_root(p: Seq<char>, v: Seq<char>)
    requires
        glob(encode_utf8(p), encode_utf8(v)),
    ensures
        static_root(p).len() <= v.len(),
        v.take(static_root(p).len() as int) == static_root(p),
{
    lemma_static_root(p);
    let root = static_root(p);
    let rest = p.skip(root.len() as int);
    assert(p =~= root + rest);
    utf8::lemma_encode_concat(root, rest);
    let literal = encode_utf8(root);
    assert forall|i: int| 0 <= i < literal.len() implies !is_wild(#[trigger] literal[i]) by {
        assert(literal.contains(literal[i]));
        assert('*' == STAR as char && '?' == QUESTION as char && '[' == OPEN as char);
        utf8::lemma_encode_ascii_bytes(root, STAR);
        utf8::lemma_encode_ascii_bytes(root, QUESTION);
        utf8::lemma_encode_ascii_bytes(root, OPEN);
    }
    law_literal_prefix(literal, encode_utf8(rest), encode_utf8(v));
    utf8::lemma_encode_prefix(root, v);
}

/// A pattern that has its leading `/` stripped keeps its static prefix, stripped
/// alike.
pub proof fn law_static_root_of_stripped_pattern(p: Seq<char>)
    ensures
        static_root(text::trim_start(p, '/')) == text::trim_start(static_root(p), '/'),
    decreases p.len(),
{
    lemma_static_root(p);
    if p.len() > 0 && p[0] == '/' {
        let q = p.drop_first();
        law_static_root_of_stripped_pattern(q);
        lemma_first_wild(q);
        let lead_p = p.take(first_wild(p));
        let lead_q = q.take(first_wild(q));
        assert(lead_q =~= lead_p.drop_first());
        text::lemma_last_index(lead_p, '/');
        text::lemma_last_index(lead_q, '/');
        assert(lead_p[0] == '/');
        assert(lead_p.contains('/'));
        let s = text::last_index(lead_p, '/')->0;
        match text::last_index(lead_q, '/') {
            Some(t) => {
                assert(lead_p[t + 1] == lead_q[t]);
                if s > t + 1 {
                    assert(lead_q[s - 1] == lead_p[s]);
                }
                assert(s == t + 1);
                assert(static_root(p).drop_first() =~= static_root(q));
            },
            None => {
                if s > 0 {
                    assert(lead_q[s - 1] == lead_p[s]);
                    assert(lead_q.contains('/'));
                }
                assert(static_root(p) =~= seq!['/']);
                assert(static_root(p).drop_first() =~= static_root(q));
            },
        }
    } else {
        let root = static_root(p);
        if root.len() > 0 {
            assert(root[0] == p[0]);
        }
    }
}

} // verus!
