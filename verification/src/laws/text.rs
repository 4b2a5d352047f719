//! Texts and numbers.

use vstd::prelude::*;

use crate::text;
use crate::text_map::TextMap;

verus! {

/// Texts are the same exactly where they hold the same characters.
pub proof fn law_texts_are_told_apart(a: &str, b: &str, same: bool)
    requires
        call_ensures(text::text_eq, (a, b), same),
    ensures
        same <==> a@ == b@,
{
}

/// Whether texts agree on the first `k` characters and the first then comes before
/// the second: it ends there, or has the lesser character there.
pub open spec fn differs_at(a: Seq<char>, b: Seq<char>, k: int) -> bool {
    &&& 0 <= k <= a.len()
    &&& k < b.len()
    &&& a.take(k) == b.take(k)
    &&& k == a.len() || a[k] < b[k]
}

proof fn lemma_order(a: Seq<char>, b: Seq<char>)
    ensures
        text::text_lt(a, b) <==> exists|k: int| #[trigger] differs_at(a, b, k),
    decreases b.len(),
{
    if b.len() > 0 {
        if a.len() == 0 {
            assert(a.take(0) =~= b.take(0));
            assert(differs_at(a, b, 0));
        } else if a[0] != b[0] {
            assert(a.take(0) =~= b.take(0));
            if a[0] < b[0] {
                assert(differs_at(a, b, 0));
            }
            assert forall|k: int| #[trigger] differs_at(a, b, k) implies k == 0 by {
                if k > 0 {
                    assert(a.take(k)[0] == b.take(k)[0]);
                }
            }
        } else {
            let x = a.drop_first();
            let y = b.drop_first();
            lemma_order(x, y);
            if text::text_lt(x, y) {
                let k = choose|k: int| #[trigger] differs_at(x, y, k);
                assert(a.take(k + 1) =~= seq![a[0]] + x.take(k));
                assert(b.take(k + 1) =~= seq![b[0]] + y.take(k));
                assert(differs_at(a, b, k + 1));
            }
            if exists|k: int| #[trigger] differs_at(a, b, k) {
                let k = choose|k: int| #[trigger] differs_at(a, b, k);
                assert(k > 0);
                assert(x.take(k - 1) =~= a.take(k).drop_first());
                assert(y.take(k - 1) =~= b.take(k).drop_first());
                assert(differs_at(x, y, k - 1));
            }
        }
    }
}

/// Texts are ordered by the first character in which they differ; a text comes
/// before every longer one that it begins.
pub proof fn law_texts_are_ordered_by_their_first_difference(a: &str, b: &str, less: bool)
    requires
        call_ensures(text::text_less, (a, b), less),
    ensures
        less <==> exists|k: int| #[trigger] differs_at(a@, b@, k),
        less == text::text_lt(a@, b@),
{
    lemma_order(a@, b@);
}

/// Capital letters of the ASCII range become the small letters 32 places further on;
/// every other character stays.
pub proof fn law_capitals_become_small(chars: Vec<char>, small: Vec<char>, i: int)
    requires
        call_ensures(text::lower_chars, (&chars,), small),
        0 <= i < chars@.len(),
    ensures
        small@.len() == chars@.len(),
        65 <= chars@[i] as u32 && chars@[i] as u32 <= 90 ==> small@[i] as u32 == chars@[i] as u32
            + 32,
        !(65 <= chars@[i] as u32 && chars@[i] as u32 <= 90) ==> small@[i] == chars@[i],
{
}

/// Text loses the characters at its beginning that are to go, all of them and no
/// other.
pub proof fn law_leading_characters_go(text: &str, c: char, rest: String)
    requires
        call_ensures(text::without_leading, (text, c), rest),
    ensures
        rest@.len() <= text@.len(),
        rest@ == text@.skip(text@.len() - rest@.len()),
        forall|i: int| 0 <= i < text@.len() - rest@.len() ==> text@[i] == c,
        rest@.len() > 0 ==> rest@[0] != c,
{
    lemma_trim_start(text@, c);
}

/// What is left once the characters at the beginning are gone.
pub proof fn lemma_trim_start(s: Seq<char>, c: char)
    ensures
        ({
            let t = text::trim_start(s, c);
            &&& t.len() <= s.len()
            &&& t == s.skip(s.len() - t.len())
            &&& forall|i: int| 0 <= i < s.len() - t.len() ==> s[i] == c
            &&& t.len() > 0 ==> t[0] != c
        }),
    decreases s.len(),
{
    let t = text::trim_start(s, c);
    if s.len() > 0 && s[0] == c {
        let rest = s.drop_first();
        lemma_trim_start(rest, c);
        assert(t =~= s.skip(s.len() - t.len()));
        assert forall|i: int| 0 <= i < s.len() - t.len() implies s[i] == c by {
            if i > 0 {
                assert(rest[i - 1] == s[i]);
            }
        }
    } else {
        assert(s.skip(0) =~= s);
    }
}

/// What is left once the characters at the end are gone.
pub proof fn lemma_trim_end(s: Seq<char>, c: char)
    ensures
        ({
            let t = text::trim_end(s, c);
            &&& t.len() <= s.len()
            &&& t == s.take(t.len() as int)
            &&& forall|i: int| t.len() <= i < s.len() ==> s[i] == c
            &&& t.len() > 0 ==> t.last() != c
        }),
    decreases s.len(),
{
    let t = text::trim_end(s, c);
    if s.len() > 0 && s.last() == c {
        lemma_trim_end(s.drop_last(), c);
        assert(t =~= s.take(t.len() as int));
        assert forall|i: int| t.len() <= i < s.len() implies s[i] == c by {
            if i < s.len() - 1 {
                assert(s.drop_last()[i] == s[i]);
            }
        }
    } else {
        assert(s.take(s.len() as int) =~= s);
    }
}

/// Characters are trimmed at either end up to the first that is to stay.
pub proof fn law_trimming_stops_at_other_characters(
    chars: Vec<char>,
    c: char,
    from: usize,
    to: usize,
)
    requires
        call_ensures(text::trimmed_start, (&chars, c), from),
        call_ensures(text::trimmed_end, (&chars, c), to),
    ensures
        from <= chars@.len() && to <= chars@.len(),
        forall|i: int| 0 <= i < from ==> chars@[i] == c,
        from < chars@.len() ==> chars@[from as int] != c,
        forall|i: int| to <= i < chars@.len() ==> chars@[i] == c,
        to > 0 ==> chars@[to - 1] != c,
{
    lemma_trim_start(chars@, c);
    lemma_trim_end(chars@, c);
    assert(chars@.skip(from as int).len() == chars@.len() - from);
    assert(chars@.take(to as int).len() == to);
    if from < chars@.len() {
        assert(chars@.skip(from as int)[0] == chars@[from as int]);
    }
    if to > 0 {
        assert(chars@.take(to as int).last() == chars@[to - 1]);
    }
}

/// A character is found where it occurs for the last time before a position.
pub proof fn law_last_occurrences_are_found(
    chars: Vec<char>,
    to: usize,
    c: char,
    found: Option<usize>,
)
    requires
        to <= chars@.len(),
        call_ensures(text::rfind_char, (&chars, to, c), found),
    ensures
        found matches Some(i) ==> i < to && chars@[i as int] == c && forall|j: int|
            i < j < to ==> chars@[j] != c,
        found is None ==> forall|j: int| 0 <= j < to ==> chars@[j] != c,
{
    let s = chars@.take(to as int);
    text::lemma_last_index(s, c);
    match found {
        Some(i) => {
            assert(s[i as int] == chars@[i as int]);
            assert forall|j: int| i < j < to implies chars@[j] != c by {
                assert(s[j] == chars@[j]);
            }
        },
        None => {
            assert forall|j: int| 0 <= j < to implies chars@[j] != c by {
                assert(s[j] == chars@[j]);
                assert(s.contains(s[j]));
            }
        },
    }
}

/// A text is found where it occurs for the first time.
pub proof fn law_first_occurrences_are_found(
    chars: Vec<char>,
    pattern: Vec<char>,
    found: Option<usize>,
)
    requires
        pattern@.len() > 0,
        call_ensures(text::find_text, (&chars, &pattern), found),
    ensures
        found matches Some(i) ==> i + pattern@.len() <= chars@.len() && chars@.subrange(
            i as int,
            i + pattern@.len(),
        ) == pattern@,
        forall|j: int|
            0 <= j && j + pattern@.len() <= chars@.len() && (found matches Some(i) ==> j < i)
                ==> #[trigger] chars@.subrange(j, j + pattern@.len()) != pattern@,
{
    text::lemma_first_index_of(chars@, pattern@);
    assert forall|j: int|
        0 <= j && j + pattern@.len() <= chars@.len() && (found matches Some(i) ==> j < i) implies
        #[trigger] chars@.subrange(j, j + pattern@.len()) != pattern@ by {
        assert(!text::occurs_at(chars@, pattern@, j));
    }
}

/// A text holds a character exactly where one of its characters is that.
pub proof fn law_characters_are_found(text: &str, c: char, found: bool)
    requires
        call_ensures(text::has_char, (text, c), found),
    ensures
        found <==> exists|i: int| 0 <= i < text@.len() && text@[i] == c,
{
}

/// A digit more makes a number ten times as large, and larger by the digit.
pub proof fn law_digits_are_decimal(
    text: &str,
    longer: &str,
    max: u64,
    number: u64,
    outcome: Option<u64>,
    digit: char,
)
    requires
        call_ensures(text::parse_unsigned, (text, max), Some(number)),
        call_ensures(text::parse_unsigned, (longer, max), outcome),
        '0' <= digit && digit <= '9',
        longer@ == text@.push(digit),
    ensures
        ({
            let value = 10 * number + (digit as int - 48);
            &&& value <= max ==> outcome == Some(value as u64)
            &&& value > max ==> outcome is None
        }),
{
    let a = text::without_plus(text@);
    let b = text::without_plus(longer@);
    assert(b =~= a.push(digit));
    assert(b.drop_last() =~= a);
    assert forall|i: int| 0 <= i < b.len() implies text::is_digit(#[trigger] b[i]) by {
        if i < a.len() {
            assert(text::is_digit(a[i]));
        }
    }
}

/// A single digit is a number, with a `+` in front or without.
pub proof fn law_single_digits_are_numbers(
    text: &str,
    max: u64,
    outcome: Option<u64>,
    digit: char,
)
    requires
        call_ensures(text::parse_unsigned, (text, max), outcome),
        '0' <= digit && digit <= '9',
        text@ == seq![digit] || text@ == seq!['+', digit],
    ensures
        digit as int - 48 <= max ==> outcome == Some((digit as int - 48) as u64),
        digit as int - 48 > max ==> outcome is None,
{
    let s = text::without_plus(text@);
    assert(s =~= seq![digit]);
    assert(s.drop_last() =~= Seq::<char>::empty());
    assert(text::digits_value(Seq::<char>::empty()) == 0);
    assert(text::digits_value(s) == digit as int - 48);
}

/// Nothing but digits, behind at most one `+`, makes a number.
pub proof fn law_numbers_are_digits(text: &str, max: u64, outcome: Option<u64>)
    requires
        call_ensures(text::parse_unsigned, (text, max), outcome),
    ensures
        outcome is Some ==> text@.len() > 0 && outcome->0 <= max,
        outcome is Some ==> forall|i: int|
            0 <= i < text@.len() ==> ('0' <= #[trigger] text@[i] && text@[i] <= '9') || (i == 0
                && text@[i] == '+' && text@.len() > 1),
{
    let s = text::without_plus(text@);
    if outcome is Some {
        assert forall|i: int| 0 <= i < text@.len() implies ('0' <= #[trigger] text@[i] && text@[i]
            <= '9') || (i == 0 && text@[i] == '+' && text@.len() > 1) by {
            if text@[0] == '+' {
                if i > 0 {
                    assert(text::is_digit(s[i - 1]));
                }
            } else {
                assert(text::is_digit(s[i]));
            }
        }
    }
}

/// A number is written so that it reads back, in digits and without a needless zero.
pub proof fn law_written_numbers_read_back(
    n: u64,
    text: String,
    read: &str,
    max: u64,
    outcome: Option<u64>,
)
    requires
        call_ensures(text::decimal_text, (n,), text),
        call_ensures(text::parse_unsigned, (read, max), outcome),
        read@ == text@,
    ensures
        n <= max ==> outcome == Some(n),
        n > max ==> outcome is None,
        text@.len() > 0,
        text@[0] == '0' ==> n == 0 && text@.len() == 1,
{
    text::law_decimal_reads_back(n as nat);
    lemma_no_leading_zero(n as nat);
}

proof fn lemma_no_leading_zero(n: nat)
    ensures
        text::decimal(n).len() > 0,
        text::decimal(n)[0] == '0' ==> n == 0 && text::decimal(n).len() == 1,
    decreases n,
{
    if n >= 10 {
        lemma_no_leading_zero(n / 10);
    }
}

/// Characters taken from a text and put together again are that text, or the part of it
/// that was asked for.
pub proof fn law_characters_make_their_text(
    text: &str,
    chars: Vec<char>,
    from: usize,
    to: usize,
    part: String,
)
    requires
        call_ensures(text::chars_of, (text,), chars),
        from <= to <= chars@.len(),
        call_ensures(text::text_of, (&chars, from, to), part),
    ensures
        part@ == text@.subrange(from as int, to as int),
        from == 0 && to == text@.len() ==> part@ == text@,
{
    assert(text@.subrange(0, text@.len() as int) =~= text@);
}

/// A map gives back the last value that was put under a key, and under every other key
/// what it gave before.
pub proof fn law_maps_give_back_the_last_value(
    map: &mut TextMap<String>,
    key: String,
    value: String,
    after: TextMap<String>,
    other: &str,
    was: Option<&String>,
    got: Option<&String>,
)
    requires
        old(map).wf(),
        call_ensures(TextMap::<String>::get, (old(map), other), was),
        call_ensures(TextMap::<String>::insert, (map, key, value), ()),
        after == *final(map),
        call_ensures(TextMap::<String>::get, (&after, other), got),
    ensures
        after.wf(),
        other@ == key@ ==> got is Some && *(got->0) == value,
        other@ != key@ ==> (got is Some <==> was is Some) && (got is Some ==> *(got->0) == *(
        was->0)),
{
}

/// A fresh map gives nothing.
pub proof fn law_fresh_maps_are_empty(
    map: TextMap<String>,
    len: usize,
    key: &str,
    got: Option<&String>,
)
    requires
        call_ensures(TextMap::<String>::new, (), map),
        call_ensures(TextMap::<String>::len, (&map,), len),
        call_ensures(TextMap::<String>::get, (&map, key), got),
    ensures
        map.wf(),
        len == 0,
        got is None,
{
}

} // verus!
