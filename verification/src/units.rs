//! Quantities with units: durations and sizes.
//!
//! A quantity is a number and a unit with optional white space around either.
//! Plain text, which is made of ASCII characters and the `μ` of microseconds,
//! is modelled exactly.

use vstd::prelude::*;

use crate::text;
use crate::text::{chars_of, parse_unsigned, text_eq, text_of};

verus! {

/// Whether a character is ASCII or the `μ` of microseconds.
pub open spec fn is_plain_char(c: char) -> bool {
    c as u32 <= 0x7f || c == '\u{3bc}'
}

/// Whether text is made of such characters.
pub open spec fn is_plain(s: Seq<char>) -> bool {
    forall|i: int| 0 <= i < s.len() ==> is_plain_char(#[trigger] s[i])
}

/// White space of the ASCII range.
pub open spec fn is_space(c: char) -> bool {
    c == ' ' || ('\u{9}' <= c && c <= '\u{d}')
}

/// Text without leading white space.
pub open spec fn strip_start(s: Seq<char>) -> Seq<char>
    decreases s.len(),
{
    if s.len() > 0 && is_space(s[0]) {
        strip_start(s.drop_first())
    } else {
        s
    }
}

/// Text without trailing white space.
pub open spec fn strip_end(s: Seq<char>) -> Seq<char>
    decreases s.len(),
{
    if s.len() > 0 && is_space(s.last()) {
        strip_end(s.drop_last())
    } else {
        s
    }
}

/// Text without white space around it.
pub open spec fn strip(s: Seq<char>) -> Seq<char> {
    strip_end(strip_start(s))
}

/// The position of the last decimal digit.
pub open spec fn last_digit(s: Seq<char>) -> Option<int>
    decreases s.len(),
{
    if s.len() == 0 {
        None
    } else if text::is_digit(s.last()) {
        Some(s.len() - 1)
    } else {
        last_digit(s.drop_last())
    }
}

/// The number and the unit of a quantity, where the number is at most `max`.
/// The number ends at the last digit.
pub open spec fn quantity(s: Seq<char>, max: nat) -> Option<(nat, Seq<char>)> {
    let t = strip(s);
    match last_digit(t) {
        Some(i) => match text::unsigned(t.take(i + 1), max) {
            Some(value) => Some((value, strip(t.skip(i + 1)))),
            None => None,
        },
        None => None,
    }
}

/// The nanoseconds of a duration's unit.
pub open spec fn duration_factor(unit: Seq<char>) -> Option<nat> {
    if unit == "ns"@ {
        Some(1)
    } else if unit == seq!['\u{3bc}', 's'] {
        Some(1_000)
    } else if unit == "ms"@ {
        Some(1_000_000)
    } else if unit == "s"@ || unit.len() == 0 {
        Some(1_000_000_000)
    } else if unit == "m"@ {
        Some(60_000_000_000)
    } else if unit == "h"@ {
        Some(3_600_000_000_000)
    } else if unit == "d"@ {
        Some(86_400_000_000_000)
    } else {
        None
    }
}

/// The nanoseconds that plain text stands for, where their seconds fit 64 bits.
pub open spec fn plain_duration(s: Seq<char>) -> Option<u128> {
    match quantity(s, u128::MAX as nat) {
        Some((value, unit)) => match duration_factor(unit) {
            Some(factor) => if value * factor / 1_000_000_000 <= u64::MAX {
                Some((value * factor) as u128)
            } else {
                None
            },
            None => None,
        },
        None => None,
    }
}

/// Whether a character counts as numeric in Unicode, as `char::is_numeric` says.
pub uninterp spec fn is_numeric(c: char) -> bool;

/// `char::is_numeric` tells whether a character is numeric in Unicode.
pub assume_specification[ char::is_numeric ](c: char) -> (numeric: bool)
    ensures
        numeric == is_numeric(c),
;

/// Whether a number written outside ASCII occurs in `s`.
pub open spec fn has_wide_number(s: Seq<char>) -> bool {
    exists|i: int| 0 <= i < s.len() && (#[trigger] s[i]) as u32 > 0x7f && is_numeric(s[i])
}

/// What `human_units::Duration` makes of text, in nanoseconds.
pub uninterp spec fn human_duration(s: Seq<char>) -> Option<u128>;

/// `human_units::Duration` parsed from text, in nanoseconds.  The outcome depends
/// on the text alone; of plain text it is the number times its unit.  The parser
/// splits text behind its last numeric character and must not be handed one that
/// is wider than a byte.
#[verifier::external_body]
fn parse_human_duration(text: &str) -> (nanos: Option<u128>)
    requires
        is_plain(text@) || !has_wide_number(text@),
    ensures
        nanos == human_duration(text@),
        is_plain(text@) ==> nanos == plain_duration(text@),
{
    text.parse::<human_units::Duration>().ok().map(|duration| duration.0.as_nanos())
}

/// The nanoseconds that text stands for.  Numbers written outside ASCII make
/// none.
pub open spec fn duration_of(s: Seq<char>) -> Option<u128> {
    if is_plain(s) {
        plain_duration(s)
    } else if has_wide_number(s) {
        None
    } else {
        human_duration(s)
    }
}

/// Whether text is plain.
fn plain(chars: &Vec<char>) -> (all: bool)
    ensures
        all == is_plain(chars@),
{
    let mut i: usize = 0;
    while i < chars.len()
        invariant
            i <= chars@.len(),
            forall|j: int| 0 <= j < i ==> is_plain_char(#[trigger] chars@[j]),
        decreases chars@.len() - i,
    {
        if !(chars[i] as u32 <= 0x7f || chars[i] == '\u{3bc}') {
            assert(!is_plain_char(chars@[i as int]));
            return false;
        }
        i += 1;
    }
    true
}

/// Whether a number written outside ASCII occurs.
fn wide_number(chars: &Vec<char>) -> (found: bool)
    ensures
        found == has_wide_number(chars@),
{
    let mut i: usize = 0;
    while i < chars.len()
        invariant
            i <= chars@.len(),
            forall|j: int|
                0 <= j < i ==> !((#[trigger] chars@[j]) as u32 > 0x7f && is_numeric(chars@[j])),
        decreases chars@.len() - i,
    {
        let c: char = chars[i];
        if c as u32 > 0x7f && c.is_numeric() {
            assert(chars@[i as int] == c);
            return true;
        }
        i += 1;
    }
    false
}

/// The nanoseconds that text stands for.
pub fn parse_duration(text: &str) -> (nanos: Option<u128>)
    ensures
        nanos == duration_of(text@),
{
    let chars: Vec<char> = chars_of(text);
    if !plain(&chars) && wide_number(&chars) {
        None
    } else {
        parse_human_duration(text)
    }
}

/// The bytes of an IEC unit of information.
pub open spec fn iec_factor(unit: Seq<char>) -> Option<nat> {
    if unit == "B"@ {
        Some(1)
    } else if unit == "KiB"@ {
        Some(0x400)
    } else if unit == "MiB"@ {
        Some(0x10_0000)
    } else if unit == "GiB"@ {
        Some(0x4000_0000)
    } else if unit == "TiB"@ {
        Some(0x100_0000_0000)
    } else if unit == "PiB"@ {
        Some(0x4_0000_0000_0000)
    } else if unit == "EiB"@ {
        Some(0x1000_0000_0000_0000)
    } else {
        None
    }
}

/// The bytes that plain text stands for in IEC units, where they fit 64 bits.
pub open spec fn plain_iec(s: Seq<char>) -> Option<u64> {
    match quantity(s, u64::MAX as nat) {
        Some((value, unit)) => match iec_factor(unit) {
            Some(factor) => if value * factor <= u64::MAX {
                Some((value * factor) as u64)
            } else {
                None
            },
            None => None,
        },
        None => None,
    }
}

/// What `human_units::iec::Byte` makes of text, in bytes.
pub uninterp spec fn human_bytes(s: Seq<char>) -> Option<u64>;

/// `human_units::iec::Byte` parsed from text.  The outcome depends on the text
/// alone; of plain text it is the number times its unit.  The parser splits text
/// behind its last numeric character and must not be handed one that is wider
/// than a byte.
#[verifier::external_body]
fn parse_human_bytes(text: &str) -> (bytes: Option<u64>)
    requires
        is_plain(text@) || !has_wide_number(text@),
    ensures
        bytes == human_bytes(text@),
        is_plain(text@) ==> bytes == plain_iec(text@),
{
    text.parse::<human_units::iec::Byte>().ok().map(|bytes| bytes.0)
}

/// The bytes that text stands for in IEC units.
pub open spec fn iec_of(s: Seq<char>) -> Option<u64> {
    if is_plain(s) {
        plain_iec(s)
    } else if has_wide_number(s) {
        None
    } else {
        human_bytes(s)
    }
}

/// The bits of the SI units of information and of the IEC units of bits.
pub open spec fn bits_factor(unit: Seq<char>) -> Option<nat> {
    if unit == "KB"@ {
        Some(8_000)
    } else if unit == "MB"@ {
        Some(8_000_000)
    } else if unit == "GB"@ {
        Some(8_000_000_000)
    } else if unit == "TB"@ {
        Some(8_000_000_000_000)
    } else if unit == "kb"@ {
        Some(1_000)
    } else if unit == "Mb"@ {
        Some(1_000_000)
    } else if unit == "Gb"@ {
        Some(1_000_000_000)
    } else if unit == "Tb"@ {
        Some(1_000_000_000_000)
    } else if unit == "Kib"@ {
        Some(0x400)
    } else if unit == "Mib"@ {
        Some(0x10_0000)
    } else if unit == "Gib"@ {
        Some(0x4000_0000)
    } else if unit == "Tib"@ {
        Some(0x100_0000_0000)
    } else {
        None
    }
}

/// The bytes that text stands for in SI units or in bits, where they are whole
/// and fit 64 bits.
pub open spec fn bits_of(s: Seq<char>) -> Option<u64> {
    match quantity(s, u64::MAX as nat) {
        Some((value, unit)) => match bits_factor(unit) {
            Some(factor) => if value * factor % 8 == 0 && value * factor / 8 <= u64::MAX {
                Some((value * factor / 8) as u64)
            } else {
                None
            },
            None => None,
        },
        None => None,
    }
}

/// The bytes that text stands for: bare bytes, or a number with a unit.
pub open spec fn size_of_text(s: Seq<char>) -> Option<u64> {
    match text::unsigned(s, u64::MAX as nat) {
        Some(value) => Some(value as u64),
        None => match iec_of(s) {
            Some(bytes) => Some(bytes),
            None => bits_of(s),
        },
    }
}

/// Where text starts and ends once the white space around it is left out.
fn stripped(chars: &Vec<char>, from: usize) -> (range: (usize, usize))
    requires
        from <= chars@.len(),
    ensures
        from <= range.0 <= range.1 <= chars@.len(),
        chars@.subrange(range.0 as int, range.1 as int) == strip(chars@.skip(from as int)),
{
    let mut start: usize = from;
    assert(chars@.skip(from as int) =~= chars@.subrange(from as int, chars@.len() as int));
    while start < chars.len() && (chars[start] == ' ' || ('\u{9}' <= chars[start] && chars[start]
        <= '\u{d}'))
        invariant
            from <= start <= chars@.len(),
            strip_start(chars@.skip(from as int)) == strip_start(chars@.skip(start as int)),
        decreases chars@.len() - start,
    {
        assert(chars@.skip(start as int).drop_first() =~= chars@.skip(start + 1));
        start += 1;
    }
    let mut end: usize = chars.len();
    assert(chars@.skip(start as int) =~= chars@.subrange(start as int, end as int));
    while end > start && (chars[end - 1] == ' ' || ('\u{9}' <= chars[end - 1] && chars[end - 1]
        <= '\u{d}'))
        invariant
            from <= start <= end <= chars@.len(),
            strip_end(chars@.skip(start as int)) == strip_end(
                chars@.subrange(start as int, end as int),
            ),
        decreases end,
    {
        assert(chars@.subrange(start as int, end as int).drop_last() =~= chars@.subrange(
            start as int,
            end - 1,
        ));
        end -= 1;
    }
    (start, end)
}

/// The number and the unit of a quantity whose number fits 64 bits.
fn split_quantity(text: &str) -> (parts: Option<(u64, String)>)
    ensures
        match quantity(text@, u64::MAX as nat) {
            Some((value, unit)) => parts matches Some(p) && p.0 == value && p.1@ == unit,
            None => parts is None,
        },
{
    let chars: Vec<char> = chars_of(text);
    let (start, end): (usize, usize) = stripped(&chars, 0);
    assert(chars@.skip(0) =~= chars@);
    let body: Vec<char> = chars_of(text_of(&chars, start, end).as_str());
    assert(body@ =~= strip(text@));
    let mut i: usize = body.len();
    assert(body@.take(i as int) =~= body@);
    while i > 0 && !('0' <= body[i - 1] && body[i - 1] <= '9')
        invariant
            i <= body@.len(),
            last_digit(body@) == last_digit(body@.take(i as int)),
        decreases i,
    {
        assert(body@.take(i as int).drop_last() =~= body@.take(i - 1));
        i -= 1;
    }
    if i == 0 {
        return None;
    }
    let number: String = text_of(&body, 0, i);
    assert(number@ =~= body@.take(i as int));
    match parse_unsigned(number.as_str(), u64::MAX) {
        Some(value) => {
            let (from, to): (usize, usize) = stripped(&body, i);
            Some((value, text_of(&body, from, to)))
        },
        None => None,
    }
}

/// The bits of a unit.
fn unit_bits(unit: &str) -> (bits: Option<u64>)
    ensures
        match bits_factor(unit@) {
            Some(factor) => bits matches Some(b) && b == factor && b > 0,
            None => bits is None,
        },
{
    if text_eq(unit, "KB") {
        Some(8_000)
    } else if text_eq(unit, "MB") {
        Some(8_000_000)
    } else if text_eq(unit, "GB") {
        Some(8_000_000_000)
    } else if text_eq(unit, "TB") {
        Some(8_000_000_000_000)
    } else if text_eq(unit, "kb") {
        Some(1_000)
    } else if text_eq(unit, "Mb") {
        Some(1_000_000)
    } else if text_eq(unit, "Gb") {
        Some(1_000_000_000)
    } else if text_eq(unit, "Tb") {
        Some(1_000_000_000_000)
    } else if text_eq(unit, "Kib") {
        Some(0x400)
    } else if text_eq(unit, "Mib") {
        Some(0x10_0000)
    } else if text_eq(unit, "Gib") {
        Some(0x4000_0000)
    } else if text_eq(unit, "Tib") {
        Some(0x100_0000_0000)
    } else {
        None
    }
}

/// The bytes that text stands for in SI units or in bits.
fn parse_bits(text: &str) -> (bytes: Option<u64>)
    ensures
        bytes == bits_of(text@),
{
    let (value, unit): (u64, String) = match split_quantity(text) {
        Some((value, unit)) => (value, unit),
        None => {
            return None;
        },
    };
    let factor: u64 = match unit_bits(unit.as_str()) {
        Some(factor) => factor,
        None => {
            return None;
        },
    };
    assert(0 <= value * factor <= u64::MAX * u64::MAX) by (nonlinear_arith)
        requires
            0 <= value <= u64::MAX,
            0 <= factor <= u64::MAX,
    ;
    let bits: u128 = value as u128 * factor as u128;
    if bits % 8 == 0 && bits / 8 <= u64::MAX as u128 {
        Some((bits / 8) as u64)
    } else {
        None
    }
}

/// The bytes that text stands for.
pub fn parse_size(text: &str) -> (bytes: Option<u64>)
    ensures
        bytes == size_of_text(text@),
{
    match parse_unsigned(text, u64::MAX) {
        Some(value) => Some(value),
        None => {
            let chars: Vec<char> = chars_of(text);
            let iec: Option<u64> = if !plain(&chars) && wide_number(&chars) {
                None
            } else {
                parse_human_bytes(text)
            };
            match iec {
                Some(bytes) => Some(bytes),
                None => parse_bits(text),
            }
        },
    }
}

/// White space in front of text is no part of it.
proof fn lemma_strip_start_spaces(spaces: Seq<char>, s: Seq<char>)
    requires
        forall|i: int| 0 <= i < spaces.len() ==> is_space(#[trigger] spaces[i]),
    ensures
        strip_start(spaces + s) == strip_start(s),
    decreases spaces.len(),
{
    if spaces.len() == 0 {
        assert(spaces + s =~= s);
    } else {
        let rest = spaces.drop_first();
        assert forall|i: int| 0 <= i < rest.len() implies is_space(#[trigger] rest[i]) by {
            assert(rest[i] == spaces[i + 1]);
        }
        lemma_strip_start_spaces(rest, s);
        assert((spaces + s)[0] == spaces[0]);
        assert((spaces + s).drop_first() =~= rest + s);
    }
}

/// White space behind text is no part of it.
proof fn lemma_strip_end_spaces(s: Seq<char>, spaces: Seq<char>)
    requires
        forall|i: int| 0 <= i < spaces.len() ==> is_space(#[trigger] spaces[i]),
    ensures
        strip_end(s + spaces) == strip_end(s),
    decreases spaces.len(),
{
    if spaces.len() == 0 {
        assert(s + spaces =~= s);
    } else {
        let rest = spaces.drop_last();
        lemma_strip_end_spaces(s, rest);
        assert((s + spaces).last() == spaces[spaces.len() - 1]);
        assert((s + spaces).drop_last() =~= s + rest);
    }
}

/// The last digit of text that ends in none stands in what precedes its end.
proof fn lemma_last_digit_before(s: Seq<char>, tail: Seq<char>)
    requires
        forall|i: int| 0 <= i < tail.len() ==> !text::is_digit(#[trigger] tail[i]),
    ensures
        last_digit(s + tail) == last_digit(s),
    decreases tail.len(),
{
    if tail.len() == 0 {
        assert(s + tail =~= s);
    } else {
        let rest = tail.drop_last();
        lemma_last_digit_before(s, rest);
        assert((s + tail).last() == tail.last());
        assert((s + tail).drop_last() =~= s + rest);
        assert(!text::is_digit(tail[tail.len() - 1]));
    }
}

/// Digits, white space and a unit spell that number of that unit.
pub proof fn law_quantities_are_spelled(
    digits: Seq<char>,
    spaces: Seq<char>,
    unit: Seq<char>,
    max: nat,
)
    requires
        text::is_digits(digits),
        text::digits_value(digits) <= max,
        forall|i: int| 0 <= i < spaces.len() ==> is_space(#[trigger] spaces[i]),
        forall|i: int|
            0 <= i < unit.len() ==> !text::is_digit(#[trigger] unit[i]) && !is_space(unit[i]),
    ensures
        quantity(digits + spaces + unit, max) == Some((text::digits_value(digits), unit)),
{
    let s = digits + spaces + unit;
    let tail = spaces + unit;
    let n = digits.len() as int;
    assert(s =~= digits + tail);
    assert(s[0] == digits[0]);
    assert(text::is_digit(digits[0]));
    assert(strip_start(s) == s);
    assert(text::is_digit(digits[n - 1]));
    assert(strip_end(digits) == digits);
    assert(last_digit(digits) == Some(n - 1));
    assert(text::without_plus(digits) == digits);
    if unit.len() == 0 {
        assert(tail =~= spaces);
        lemma_strip_end_spaces(digits, spaces);
        assert(strip(s) == digits);
        assert(digits.take(n) =~= digits);
        assert(digits.skip(n) =~= unit);
        assert(strip(unit) == unit);
    } else {
        assert(s.last() == unit[unit.len() - 1]);
        assert(strip(s) == s);
        assert forall|i: int| 0 <= i < tail.len() implies !text::is_digit(#[trigger] tail[i]) by {
            if i < spaces.len() {
                assert(is_space(spaces[i]));
            } else {
                assert(tail[i] == unit[i - spaces.len()]);
            }
        }
        lemma_last_digit_before(digits, tail);
        assert(s.take(n) =~= digits);
        assert(s.skip(n) =~= tail);
        lemma_strip_start_spaces(spaces, unit);
        assert(strip_start(unit) == unit);
        assert(strip_end(unit) == unit);
        assert(strip(tail) == unit);
    }
}

/// A bare number is a size in bytes.
pub proof fn law_bare_numbers_are_bytes(n: u64)
    ensures
        size_of_text(text::decimal(n as nat)) == Some(n),
{
    text::law_decimal_reads_back(n as nat);
}

/// A bare number is a duration in seconds.
pub proof fn law_bare_numbers_are_seconds(n: u64)
    ensures
        duration_of(text::decimal(n as nat)) == Some((n * 1_000_000_000) as u128),
{
    let s = text::decimal(n as nat);
    let none = Seq::<char>::empty();
    text::law_decimal_reads_back(n as nat);
    law_quantities_are_spelled(s, none, none, u128::MAX as nat);
    assert(s + none + none =~= s);
    assert forall|i: int| 0 <= i < s.len() implies is_plain_char(#[trigger] s[i]) by {
        assert(text::is_digit(s[i]));
    }
    reveal_strlit("ns");
    reveal_strlit("ms");
}

} // verus!
