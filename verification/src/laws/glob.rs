//! Globs.

use vstd::prelude::*;

use crate::glob;
use crate::laws::text::lemma_trim_end;
use crate::text;

verus! {

/// An item of a class as it is meant: one byte, or all from one to another.
pub enum ClassItem {
    Single(u8),
    Range(u8, u8),
}

/// A class as it is written: a range as its ends with a `-` between them.
pub open spec fn class_text(items: Seq<ClassItem>) -> Seq<u8>
    decreases items.len(),
{
    if items.len() == 0 {
        Seq::empty()
    } else {
        (match items[0] {
            ClassItem::Single(b) => seq![b],
            ClassItem::Range(x, y) => seq![x, '-' as u8, y],
        }) + class_text(items.drop_first())
    }
}

/// Whether an item begins with a byte.
pub open spec fn begins_with(item: ClassItem, b: u8) -> bool {
    match item {
        ClassItem::Single(x) => x == b,
        ClassItem::Range(x, _) => x == b,
    }
}

/// Whether items are read as they are meant: no byte that stands for itself is followed
/// by a `-` with another byte behind it, which would make the three a range.
pub open spec fn are_apart(items: Seq<ClassItem>) -> bool
    decreases items.len(),
{
    items.len() > 0 ==> {
        let rest = class_text(items.drop_first());
        &&& items[0] is Single ==> !(rest.len() >= 2 && rest[0] == '-' as u8)
        &&& are_apart(items.drop_first())
    }
}

/// Whether one of the items is meant to hold `b`: a range holds both its ends and all
/// between them.
pub open spec fn some_item_holds(items: Seq<ClassItem>, b: u8) -> bool {
    exists|i: int|
        0 <= i < items.len() && (match #[trigger] items[i] {
            ClassItem::Single(x) => b == x,
            ClassItem::Range(x, y) => x <= b && b <= y,
        })
}

proof fn lemma_class_text(items: Seq<ClassItem>, b: u8)
    requires
        are_apart(items),
    ensures
        glob::items_hold(class_text(items), b) <==> some_item_holds(items, b),
        items.len() > 0 ==> class_text(items).len() > 0 && begins_with(
            items[0],
            class_text(items)[0],
        ),
    decreases items.len(),
{
    if items.len() > 0 {
        let rest = items.drop_first();
        lemma_class_text(rest, b);
        let tail = class_text(rest);
        let all = class_text(items);
        match items[0] {
            ClassItem::Single(x) => {
                assert(all.skip(1) =~= tail);
                if all.len() > 2 {
                    assert(all[1] == tail[0]);
                    assert(tail[0] != '-' as u8);
                }
                assert(glob::items_hold(all, b) <==> (x == b || glob::items_hold(tail, b)));
            },
            ClassItem::Range(x, y) => {
                assert(all.skip(3) =~= tail);
                assert(all[0] == x && all[1] == '-' as u8 && all[2] == y);
                assert(glob::items_hold(all, b) <==> ((x <= b && b <= y) || glob::items_hold(
                    tail,
                    b,
                )));
            },
        }
        if some_item_holds(rest, b) {
            let i = choose|i: int|
                0 <= i < rest.len() && (match #[trigger] rest[i] {
                    ClassItem::Single(x) => b == x,
                    ClassItem::Range(x, y) => x <= b && b <= y,
                });
            assert(items[i + 1] == rest[i]);
        }
        if some_item_holds(items, b) {
            let i = choose|i: int|
                0 <= i < items.len() && (match #[trigger] items[i] {
                    ClassItem::Single(x) => b == x,
                    ClassItem::Range(x, y) => x <= b && b <= y,
                });
            if i > 0 {
                assert(rest[i - 1] == items[i]);
            }
        } else {
            let first = items[0];
            assert(!(match items[0] {
                ClassItem::Single(x) => b == x,
                ClassItem::Range(x, y) => x <= b && b <= y,
            }));
        }
    }
}

/// The first `]` of a pattern that opens with a class closes it.
proof fn lemma_closes(class: Seq<u8>, rest: Seq<u8>)
    requires
        !class.contains(']' as u8),
    ensures
        ({
            let p = seq!['[' as u8] + class + seq![']' as u8] + rest;
            &&& glob::closing(p) == Some(class.len() as int + 1)
            &&& p.subrange(1, class.len() as int + 1) == class
            &&& p.skip(class.len() as int + 2) == rest
        }),
{
    let p = seq!['[' as u8] + class + seq![']' as u8] + rest;
    let end = class.len() as int + 1;
    assert(p[end] == ']' as u8);
    assert forall|i: int| 0 <= i < end implies p[i] != ']' as u8 by {
        if i > 0 {
            assert(p[i] == class[i - 1]);
            assert(class.contains(class[i - 1]));
        }
    }
    lemma_first_closing(p, end);
    assert(p.subrange(1, class.len() as int + 1) =~= class);
    assert(p.skip(class.len() as int + 2) =~= rest);
}

proof fn lemma_first_closing(p: Seq<u8>, end: int)
    requires
        0 <= end < p.len(),
        p[end] == ']' as u8,
        forall|i: int| 0 <= i < end ==> p[i] != ']' as u8,
    ensures
        glob::closing(p) == Some(end),
    decreases end,
{
    if end > 0 {
        lemma_first_closing(p.skip(1), end - 1);
    }
}

/// A class admits exactly the bytes of its items, both ends of a range included, and
/// never a `/`; a `!` or `^` in front turns that round.  The rest of the pattern is
/// matched against what follows the one byte.
pub proof fn law_classes_admit_their_items(
    pattern: &[u8],
    value: &[u8],
    matched: bool,
    items: Seq<ClassItem>,
    negation: Option<u8>,
    rest: Seq<u8>,
)
    requires
        call_ensures(glob::glob_matches, (pattern, value), matched),
        are_apart(items),
        !class_text(items).contains(']' as u8),
        negation matches Some(sign) ==> sign == '!' as u8 || sign == '^' as u8,
        negation is None && items.len() > 0 ==> !begins_with(items[0], '!' as u8) && !begins_with(
            items[0],
            '^' as u8,
        ),
        pattern@ == seq!['[' as u8] + (match negation {
            Some(sign) => seq![sign],
            None => Seq::empty(),
        }) + class_text(items) + seq![']' as u8] + rest,
    ensures
        matched <==> value@.len() > 0 && value@[0] != '/' as u8 && (some_item_holds(
            items,
            value@[0],
        ) <==> negation is None) && glob::glob(rest, value@.skip(1)),
{
    let written = class_text(items);
    let class = (match negation {
        Some(sign) => seq![sign],
        None => Seq::empty(),
    }) + written;
    assert forall|i: int| 0 <= i < class.len() implies class[i] != ']' as u8 by {
        match negation {
            Some(sign) => {
                if i > 0 {
                    assert(class[i] == written[i - 1]);
                    assert(written.contains(written[i - 1]));
                }
            },
            None => {
                assert(class[i] == written[i]);
                assert(written.contains(written[i]));
            },
        }
    }
    lemma_closes(class, rest);
    let p = seq!['[' as u8] + class + seq![']' as u8] + rest;
    assert(pattern@ =~= p);
    assert(p[0] == '[' as u8);
    if value@.len() > 0 {
        let b = value@[0];
        lemma_class_text(items, b);
        match negation {
            Some(sign) => {
                assert(class[0] == sign);
                assert(class.skip(1) =~= written);
            },
            None => {
                assert(class =~= written);
            },
        }
    }
}

/// `[x-y]` matches a path of one byte exactly where that byte lies from `x` to `y`,
/// both included, and is no `/`.
pub proof fn law_ranges_hold_both_ends(
    pattern: &[u8],
    value: &[u8],
    matched: bool,
    x: u8,
    y: u8,
    b: u8,
)
    requires
        call_ensures(glob::glob_matches, (pattern, value), matched),
        x != ']' as u8 && x != '!' as u8 && x != '^' as u8 && y != ']' as u8,
        pattern@ == seq!['[' as u8, x, '-' as u8, y, ']' as u8],
        value@ == seq![b],
    ensures
        matched <==> x <= b && b <= y && b != '/' as u8,
{
    let items = seq![ClassItem::Range(x, y)];
    let none = Seq::<ClassItem>::empty();
    assert(items.drop_first() =~= none);
    assert(class_text(none) =~= Seq::<u8>::empty());
    assert(class_text(items) =~= seq![x, '-' as u8, y]);
    assert(are_apart(none));
    assert(are_apart(items));
    assert(pattern@ =~= seq!['[' as u8] + Seq::<u8>::empty() + class_text(items) + seq![
        ']' as u8,
    ] + Seq::<u8>::empty());
    law_classes_admit_their_items(pattern, value, matched, items, None, Seq::empty());
    assert(value@.skip(1) =~= Seq::<u8>::empty());
    assert(items[0] == ClassItem::Range(x, y));
    assert(glob::glob(Seq::<u8>::empty(), value@.skip(1)));
}

/// A class that is never closed matches nothing.
pub proof fn law_open_classes_match_nothing(pattern: &[u8], value: &[u8], matched: bool)
    requires
        call_ensures(glob::glob_matches, (pattern, value), matched),
        pattern@.len() > 0,
        pattern@[0] == '[' as u8,
        !pattern@.contains(']' as u8),
    ensures
        !matched,
{
    lemma_never_closes(pattern@);
}

proof fn lemma_never_closes(p: Seq<u8>)
    requires
        !p.contains(']' as u8),
    ensures
        glob::closing(p) is None,
    decreases p.len(),
{
    if p.len() > 0 {
        assert(p.contains(p[0]));
        assert forall|i: int| 0 <= i < p.skip(1).len() implies p.skip(1)[i] != ']' as u8 by {
            assert(p.contains(p[i + 1]));
        }
        lemma_never_closes(p.skip(1));
    }
}

/// A pattern and a path end together.
pub proof fn law_empty_patterns_match_empty_paths(pattern: &[u8], value: &[u8], matched: bool)
    requires
        call_ensures(glob::glob_matches, (pattern, value), matched),
        pattern@.len() == 0,
    ensures
        matched <==> value@.len() == 0,
{
}

/// `?` stands for exactly one byte that is no `/`.
pub proof fn law_question_marks_take_one_byte(
    pattern: &[u8],
    value: &[u8],
    matched: bool,
    rest: Seq<u8>,
)
    requires
        call_ensures(glob::glob_matches, (pattern, value), matched),
        pattern@ == seq!['?' as u8] + rest,
    ensures
        matched <==> value@.len() > 0 && value@[0] != '/' as u8 && glob::glob(
            rest,
            value@.skip(1),
        ),
{
    assert(pattern@.skip(1) =~= rest);
}

/// Any other byte stands for itself.
pub proof fn law_plain_bytes_stand_for_themselves(
    pattern: &[u8],
    value: &[u8],
    matched: bool,
    b: u8,
    rest: Seq<u8>,
)
    requires
        call_ensures(glob::glob_matches, (pattern, value), matched),
        b != '*' as u8 && b != '?' as u8 && b != '[' as u8,
        pattern@ == seq![b] + rest,
    ensures
        matched <==> value@.len() > 0 && value@[0] == b && glob::glob(rest, value@.skip(1)),
{
    assert(pattern@.skip(1) =~= rest);
}

/// `*` stands for any bytes, none among them, up to the next `/`.
pub proof fn law_stars_take_any_bytes_of_a_name(
    pattern: &[u8],
    value: &[u8],
    matched: bool,
    rest: Seq<u8>,
)
    requires
        call_ensures(glob::glob_matches, (pattern, value), matched),
        pattern@ == seq!['*' as u8] + rest,
        rest.len() > 0 ==> rest[0] != '*' as u8,
    ensures
        matched <==> exists|k: int|
            0 <= k <= value@.len() && !(#[trigger] value@.take(k)).contains('/' as u8)
                && glob::glob(rest, value@.skip(k)),
{
    assert(pattern@.skip(1) =~= rest);
    if matched {
        let k = choose|k: int|
            0 <= k <= value@.len() && !value@.take(k).contains('/' as u8) && glob::glob(
                rest,
                #[trigger] value@.skip(k),
            );
        assert(!value@.take(k).contains('/' as u8));
    }
    if exists|k: int|
        0 <= k <= value@.len() && !(#[trigger] value@.take(k)).contains('/' as u8) && glob::glob(
            rest,
            value@.skip(k),
        ) {
        let k = choose|k: int|
            0 <= k <= value@.len() && !(#[trigger] value@.take(k)).contains('/' as u8)
                && glob::glob(rest, value@.skip(k));
        let tail = value@.skip(k);
        assert(glob::glob(pattern@.skip(1), tail));
    }
}

/// A lone `*` matches exactly the paths without a `/`.
pub proof fn law_lone_stars_match_names(pattern: &[u8], value: &[u8], matched: bool)
    requires
        call_ensures(glob::glob_matches, (pattern, value), matched),
        pattern@ == seq!['*' as u8],
    ensures
        matched <==> !value@.contains('/' as u8),
{
    let none = Seq::<u8>::empty();
    assert(pattern@ =~= seq!['*' as u8] + none);
    law_stars_take_any_bytes_of_a_name(pattern, value, matched, none);
    let n = value@.len() as int;
    assert(value@.take(n) =~= value@);
    if !value@.contains('/' as u8) {
        assert(value@.skip(n).len() == 0);
        assert(glob::glob(none, value@.skip(n)));
        assert(!value@.take(n).contains('/' as u8));
    }
    if matched {
        let k = choose|k: int|
            0 <= k <= value@.len() && !(#[trigger] value@.take(k)).contains('/' as u8)
                && glob::glob(none, value@.skip(k));
        assert(value@.skip(k).len() == 0);
        assert(k == n);
    }
}

/// `**` stands for any bytes at all, and a `/` behind it may be left out.
pub proof fn law_double_stars_take_any_bytes(
    pattern: &[u8],
    value: &[u8],
    matched: bool,
    rest: Seq<u8>,
)
    requires
        call_ensures(glob::glob_matches, (pattern, value), matched),
        pattern@ == seq!['*' as u8, '*' as u8] + rest,
    ensures
        matched <==> exists|k: int|
            0 <= k <= value@.len() && (glob::glob(rest, #[trigger] value@.skip(k)) || (rest.len()
                > 0 && rest[0] == '/' as u8 && glob::glob(rest.skip(1), value@.skip(k)))),
{
    assert(pattern@.skip(2) =~= rest);
    if rest.len() > 0 {
        assert(pattern@.skip(3) =~= rest.skip(1));
        assert(pattern@[2] == rest[0]);
    }
}

/// A path has a wildcard exactly where it holds a `*`, a `?` or a `[`.
pub proof fn law_wildcards_are_found(path: &str, found: bool)
    requires
        call_ensures(glob::has_glob, (path,), found),
    ensures
        found <==> path@.contains('*') || path@.contains('?') || path@.contains('['),
{
    glob::lemma_first_wild(path@);
    let at = glob::first_wild(path@);
    if found {
        assert(path@.contains(path@[at]));
    } else {
        assert forall|i: int| 0 <= i < path@.len() implies !glob::is_wild_char(path@[i]) by {}
    }
}

/// Whether text holds no wildcard.
pub open spec fn is_static(s: Seq<char>) -> bool {
    !s.contains('*') && !s.contains('?') && !s.contains('[')
}

/// The root of a pattern is the longest of its beginnings that ends in a `/` and holds
/// no wildcard; it is empty where there is none.
pub proof fn law_roots_are_the_longest_static_directories(
    pattern: &str,
    root: &str,
    n: int,
)
    requires
        call_ensures(glob::glob_root, (pattern,), root),
        0 < n <= pattern@.len(),
        pattern@[n - 1] == '/',
        is_static(pattern@.take(n)),
    ensures
        root@.len() <= pattern@.len(),
        root@ == pattern@.take(root@.len() as int),
        is_static(root@),
        root@.len() > 0 ==> root@.last() == '/',
        n <= root@.len(),
{
    let p = pattern@;
    let wild = glob::first_wild(p);
    glob::lemma_first_wild(p);
    let head = p.take(wild);
    text::lemma_last_index(head, '/');
    if n > wild {
        assert(p.take(n)[wild] == p[wild]);
        assert(p.take(n).contains(p[wild]));
    }
    assert(head[n - 1] == '/');
    assert(head.contains('/'));
    let slash = text::last_index(head, '/')->0;
    assert(root@ == p.take(slash + 1));
    assert(root@.last() == head[slash]);
    assert forall|i: int| 0 <= i < root@.len() implies !glob::is_wild_char(root@[i]) by {
        assert(root@[i] == p[i]);
    }
}

/// The same where there is none.
pub proof fn law_roots_may_be_empty(pattern: &str, root: &str)
    requires
        call_ensures(glob::glob_root, (pattern,), root),
        forall|n: int|
            0 < n <= pattern@.len() && #[trigger] pattern@[n - 1] == '/' ==> !is_static(
                pattern@.take(n),
            ),
    ensures
        root@.len() == 0,
{
    let p = pattern@;
    let wild = glob::first_wild(p);
    glob::lemma_first_wild(p);
    let head = p.take(wild);
    text::lemma_last_index(head, '/');
    if text::last_index(head, '/') is Some {
        let slash = text::last_index(head, '/')->0;
        let n = slash + 1;
        assert(p[n - 1] == head[slash]);
        let root = p.take(n);
        assert forall|i: int| 0 <= i < root.len() implies !glob::is_wild_char(root[i]) by {
            assert(root[i] == p[i]);
        }
        assert(is_static(root));
    }
}

/// The parent of a name in a directory is that directory, with any number of `/` behind
/// the name.
pub proof fn law_parents_hold_their_names(
    path: &str,
    parent: &str,
    directory: Seq<char>,
    name: Seq<char>,
    end: Seq<char>,
)
    requires
        call_ensures(glob::parent, (path,), parent),
        name.len() > 0,
        !name.contains('/'),
        forall|i: int| 0 <= i < end.len() ==> end[i] == '/',
        path@ == directory + seq!['/'] + name + end,
    ensures
        parent@ == directory,
{
    let p = path@;
    let trimmed = text::trim_end(p, '/');
    lemma_trim_end(p, '/');
    let n = directory.len() as int;
    let last = n + name.len();
    assert(p[last] == name[name.len() - 1]);
    assert(name.contains(name[name.len() - 1]));
    assert(p[last] != '/');
    assert forall|i: int| last < i < p.len() implies p[i] == '/' by {
        assert(p[i] == end[i - last - 1]);
    }
    if trimmed.len() > last + 1 {
        assert(trimmed.last() == p[trimmed.len() - 1]);
    }
    if trimmed.len() <= last {
        assert(p[last] == '/');
    }
    assert(trimmed.len() == last + 1);
    text::lemma_last_index(trimmed, '/');
    assert(p[n] == '/');
    assert(trimmed[n] == '/');
    assert(trimmed.contains('/'));
    let i = text::last_index(trimmed, '/')->0;
    if i > n {
        assert(trimmed[i] == p[i]);
        assert(p[i] == name[i - n - 1]);
        assert(name.contains(name[i - n - 1]));
    }
    assert(i == n);
    assert(p.take(n) =~= directory);
}

/// A name that is in no directory, and nothing at all, have no parent.
pub proof fn law_names_alone_have_no_parent(
    path: &str,
    parent: &str,
    name: Seq<char>,
    end: Seq<char>,
)
    requires
        call_ensures(glob::parent, (path,), parent),
        !name.contains('/'),
        forall|i: int| 0 <= i < end.len() ==> end[i] == '/',
        path@ == name + end,
    ensures
        parent@.len() == 0,
{
    let p = path@;
    let trimmed = text::trim_end(p, '/');
    lemma_trim_end(p, '/');
    if trimmed.len() > name.len() {
        assert(trimmed.last() == p[trimmed.len() - 1]);
        assert(p[trimmed.len() - 1] == end[trimmed.len() - 1 - name.len()]);
    }
    text::lemma_last_index(trimmed, '/');
    if text::last_index(trimmed, '/') is Some {
        let i = text::last_index(trimmed, '/')->0;
        assert(trimmed[i] == p[i]);
        assert(p[i] == name[i]);
        assert(name.contains(name[i]));
    }
}

} // verus!
