//! Durations and sizes.

use vstd::prelude::*;

use crate::text;
use crate::units;

verus! {

/// Whether a character is white space of the ASCII range.
pub open spec fn is_blank_char(c: char) -> bool {
    c == ' ' || c == '\t' || c == '\n' || c == '\u{b}' || c == '\u{c}' || c == '\r'
}

/// Whether text is white space of the ASCII range.
pub open spec fn is_blank(s: Seq<char>) -> bool {
    forall|i: int| 0 <= i < s.len() ==> is_blank_char(#[trigger] s[i])
}

/// Whether a unit of time has so many nanoseconds.
pub open spec fn is_time_unit(unit: Seq<char>, nanos: nat) -> bool {
    ||| unit == seq!['n', 's'] && nanos == 1
    ||| unit == seq!['\u{3bc}', 's'] && nanos == 1_000
    ||| unit == seq!['m', 's'] && nanos == 1_000_000
    ||| unit == seq!['s'] && nanos == 1_000_000_000
    ||| unit.len() == 0 && nanos == 1_000_000_000
    ||| unit == seq!['m'] && nanos == 60_000_000_000
    ||| unit == seq!['h'] && nanos == 3_600_000_000_000
    ||| unit == seq!['d'] && nanos == 86_400_000_000_000
}

proof fn lemma_time_units()
    ensures
        "ns"@ == seq!['n', 's'],
        "ms"@ == seq!['m', 's'],
        "s"@ == seq!['s'],
        "m"@ == seq!['m'],
        "h"@ == seq!['h'],
        "d"@ == seq!['d'],
{
    reveal_strlit("ns");
    reveal_strlit("ms");
    reveal_strlit("s");
    reveal_strlit("m");
    reveal_strlit("h");
    reveal_strlit("d");
    assert("ns"@ =~= seq!['n', 's']);
    assert("ms"@ =~= seq!['m', 's']);
    assert("s"@ =~= seq!['s']);
    assert("m"@ =~= seq!['m']);
    assert("h"@ =~= seq!['h']);
    assert("d"@ =~= seq!['d']);
}

/// A number with a unit of time behind it, and white space between them or none, is so
/// many of that unit, where their seconds fit 64 bits.  A bare number is seconds.
pub proof fn law_durations_are_spelled(
    text: &str,
    outcome: Option<u128>,
    digits: Seq<char>,
    blank: Seq<char>,
    unit: Seq<char>,
    nanos: nat,
)
    requires
        call_ensures(units::parse_duration, (text,), outcome),
        text::is_digits(digits),
        text::digits_value(digits) <= u128::MAX,
        is_blank(blank),
        is_time_unit(unit, nanos),
        text@ == digits + blank + unit,
    ensures
        ({
            let all = text::digits_value(digits) * nanos;
            &&& all / 1_000_000_000 <= u64::MAX ==> outcome is Some && outcome->0 == all
            &&& all / 1_000_000_000 > u64::MAX ==> outcome is None
        }),
{
    lemma_time_units();
    let s = text@;
    assert(seq!['m', 's'][0] == 'm' && seq!['n', 's'][0] == 'n' && seq!['\u{3bc}', 's'][0]
        == '\u{3bc}');
    assert(seq!['s'][0] == 's' && seq!['m'][0] == 'm' && seq!['h'][0] == 'h' && seq!['d'][0]
        == 'd');
    assert(seq!['m', 's'][1] == 's');
    assert forall|i: int| 0 <= i < unit.len() implies !text::is_digit(#[trigger] unit[i])
        && !units::is_space(unit[i]) && units::is_plain_char(unit[i]) by {}
    assert forall|i: int| 0 <= i < blank.len() implies units::is_space(#[trigger] blank[i]) by {
        assert(is_blank_char(blank[i]));
    }
    units::law_quantities_are_spelled(digits, blank, unit, u128::MAX as nat);
    assert forall|i: int| 0 <= i < s.len() implies units::is_plain_char(#[trigger] s[i]) by {
        if i < digits.len() {
            assert(text::is_digit(digits[i]));
            assert(s[i] == digits[i]);
        } else if i < digits.len() + blank.len() {
            assert(is_blank_char(blank[i - digits.len()]));
            assert(s[i] == blank[i - digits.len()]);
        } else {
            assert(s[i] == unit[i - digits.len() - blank.len()]);
        }
    }
    assert(units::duration_factor(unit) == Some(nanos));
    let all = text::digits_value(digits) * nanos;
    if all / 1_000_000_000 <= u64::MAX {
        assert(all <= u128::MAX);
    }
}

/// Any other unit makes no duration.
pub proof fn law_other_units_are_no_durations(
    text: &str,
    outcome: Option<u128>,
    digits: Seq<char>,
    blank: Seq<char>,
    unit: Seq<char>,
)
    requires
        call_ensures(units::parse_duration, (text,), outcome),
        text::is_digits(digits),
        text::digits_value(digits) <= u128::MAX,
        is_blank(blank),
        forall|i: int|
            0 <= i < unit.len() ==> 32 < (#[trigger] unit[i]) as u32 && (unit[i] as u32) < 127
                && !text::is_digit(unit[i]),
        forall|nanos: nat| !is_time_unit(unit, nanos),
        text@ == digits + blank + unit,
    ensures
        outcome is None,
{
    lemma_time_units();
    let s = text@;
    assert forall|i: int| 0 <= i < blank.len() implies units::is_space(#[trigger] blank[i]) by {
        assert(is_blank_char(blank[i]));
    }
    units::law_quantities_are_spelled(digits, blank, unit, u128::MAX as nat);
    assert forall|i: int| 0 <= i < s.len() implies units::is_plain_char(#[trigger] s[i]) by {
        if i < digits.len() {
            assert(text::is_digit(digits[i]));
            assert(s[i] == digits[i]);
        } else if i < digits.len() + blank.len() {
            assert(is_blank_char(blank[i - digits.len()]));
            assert(s[i] == blank[i - digits.len()]);
        } else {
            assert(s[i] == unit[i - digits.len() - blank.len()]);
        }
    }
    assert(!is_time_unit(unit, 1));
    assert(!is_time_unit(unit, 1_000));
    assert(!is_time_unit(unit, 1_000_000));
    assert(!is_time_unit(unit, 1_000_000_000));
    assert(!is_time_unit(unit, 60_000_000_000));
    assert(!is_time_unit(unit, 3_600_000_000_000));
    assert(!is_time_unit(unit, 86_400_000_000_000));
    assert(units::duration_factor(unit) is None);
}

/// Whether a unit of information has so many bits.
pub open spec fn is_size_unit(unit: Seq<char>, bits: nat) -> bool {
    ||| unit == "B"@ && bits == 8
    ||| unit == "KiB"@ && bits == 8 * 0x400
    ||| unit == "MiB"@ && bits == 8 * 0x10_0000
    ||| unit == "GiB"@ && bits == 8 * 0x4000_0000
    ||| unit == "TiB"@ && bits == 8 * 0x100_0000_0000
    ||| unit == "PiB"@ && bits == 8 * 0x4_0000_0000_0000
    ||| unit == "EiB"@ && bits == 8 * 0x1000_0000_0000_0000
    ||| unit == "KB"@ && bits == 8 * 1_000
    ||| unit == "MB"@ && bits == 8 * 1_000_000
    ||| unit == "GB"@ && bits == 8 * 1_000_000_000
    ||| unit == "TB"@ && bits == 8 * 1_000_000_000_000
    ||| unit == "kb"@ && bits == 1_000
    ||| unit == "Mb"@ && bits == 1_000_000
    ||| unit == "Gb"@ && bits == 1_000_000_000
    ||| unit == "Tb"@ && bits == 1_000_000_000_000
    ||| unit == "Kib"@ && bits == 0x400
    ||| unit == "Mib"@ && bits == 0x10_0000
    ||| unit == "Gib"@ && bits == 0x4000_0000
    ||| unit == "Tib"@ && bits == 0x100_0000_0000
}

proof fn lemma_size_units()
    ensures
        "B"@ == seq!['B'],
        "KiB"@ == seq!['K', 'i', 'B'],
        "MiB"@ == seq!['M', 'i', 'B'],
        "GiB"@ == seq!['G', 'i', 'B'],
        "TiB"@ == seq!['T', 'i', 'B'],
        "PiB"@ == seq!['P', 'i', 'B'],
        "EiB"@ == seq!['E', 'i', 'B'],
        "KB"@ == seq!['K', 'B'],
        "MB"@ == seq!['M', 'B'],
        "GB"@ == seq!['G', 'B'],
        "TB"@ == seq!['T', 'B'],
        "kb"@ == seq!['k', 'b'],
        "Mb"@ == seq!['M', 'b'],
        "Gb"@ == seq!['G', 'b'],
        "Tb"@ == seq!['T', 'b'],
        "Kib"@ == seq!['K', 'i', 'b'],
        "Mib"@ == seq!['M', 'i', 'b'],
        "Gib"@ == seq!['G', 'i', 'b'],
        "Tib"@ == seq!['T', 'i', 'b'],
{
    reveal_strlit("B");
    reveal_strlit("KiB");
    reveal_strlit("MiB");
    reveal_strlit("GiB");
    reveal_strlit("TiB");
    reveal_strlit("PiB");
    reveal_strlit("EiB");
    reveal_strlit("KB");
    reveal_strlit("MB");
    reveal_strlit("GB");
    reveal_strlit("TB");
    reveal_strlit("kb");
    reveal_strlit("Mb");
    reveal_strlit("Gb");
    reveal_strlit("Tb");
    reveal_strlit("Kib");
    reveal_strlit("Mib");
    reveal_strlit("Gib");
    reveal_strlit("Tib");
    assert("B"@ =~= seq!['B']);
    assert("KiB"@ =~= seq!['K', 'i', 'B']);
    assert("MiB"@ =~= seq!['M', 'i', 'B']);
    assert("GiB"@ =~= seq!['G', 'i', 'B']);
    assert("TiB"@ =~= seq!['T', 'i', 'B']);
    assert("PiB"@ =~= seq!['P', 'i', 'B']);
    assert("EiB"@ =~= seq!['E', 'i', 'B']);
    assert("KB"@ =~= seq!['K', 'B']);
    assert("MB"@ =~= seq!['M', 'B']);
    assert("GB"@ =~= seq!['G', 'B']);
    assert("TB"@ =~= seq!['T', 'B']);
    assert("kb"@ =~= seq!['k', 'b']);
    assert("Mb"@ =~= seq!['M', 'b']);
    assert("Gb"@ =~= seq!['G', 'b']);
    assert("Tb"@ =~= seq!['T', 'b']);
    assert("Kib"@ =~= seq!['K', 'i', 'b']);
    assert("Mib"@ =~= seq!['M', 'i', 'b']);
    assert("Gib"@ =~= seq!['G', 'i', 'b']);
    assert("Tib"@ =~= seq!['T', 'i', 'b']);
}

/// A unit is made of letters, and is no number.
proof fn lemma_size_unit_letters(unit: Seq<char>, bits: nat)
    requires
        is_size_unit(unit, bits),
    ensures
        0 < unit.len() <= 3,
        forall|i: int|
            0 <= i < unit.len() ==> !text::is_digit(#[trigger] unit[i]) && !units::is_space(unit[i])
                && units::is_plain_char(unit[i]),
{
    lemma_size_units();
}

/// The tables of units hold what the units are.
proof fn lemma_size_factors(unit: Seq<char>, bits: nat)
    requires
        is_size_unit(unit, bits),
    ensures
        units::iec_factor(unit) matches Some(bytes) ==> bits == 8 * bytes,
        units::iec_factor(unit) is None ==> units::bits_factor(unit) == Some(bits),
        units::iec_factor(unit) is Some ==> units::bits_factor(unit) is None,
{
    lemma_size_units();
    let first = unit[0];
    let last = unit[unit.len() - 1];
}

/// A number with a unit of information behind it, and white space between them or
/// none, is so many of that unit in bytes, where those are whole and fit 64 bits.
pub proof fn law_sizes_are_spelled(
    text: &str,
    outcome: Option<u64>,
    digits: Seq<char>,
    blank: Seq<char>,
    unit: Seq<char>,
    bits: nat,
)
    requires
        call_ensures(units::parse_size, (text,), outcome),
        text::is_digits(digits),
        text::digits_value(digits) <= u64::MAX,
        is_blank(blank),
        is_size_unit(unit, bits),
        text@ == digits + blank + unit,
    ensures
        ({
            let all = text::digits_value(digits) * bits;
            let fits = all % 8 == 0 && all / 8 <= u64::MAX;
            &&& fits ==> outcome is Some && outcome->0 == all / 8
            &&& !fits ==> outcome is None
        }),
{
    let s = text@;
    let value = text::digits_value(digits);
    lemma_size_unit_letters(unit, bits);
    lemma_size_factors(unit, bits);
    assert forall|i: int| 0 <= i < blank.len() implies units::is_space(#[trigger] blank[i]) by {
        assert(is_blank_char(blank[i]));
    }
    units::law_quantities_are_spelled(digits, blank, unit, u64::MAX as nat);
    assert(text::is_digit(digits[0]));
    assert(s[0] == digits[0]);
    let whole = text::without_plus(s);
    assert(whole == s);
    assert(s[s.len() - 1] == unit[unit.len() - 1]);
    assert(!text::is_digit(s[s.len() - 1]));
    assert(text::unsigned(s, u64::MAX as nat) is None);
    assert forall|i: int| 0 <= i < s.len() implies units::is_plain_char(#[trigger] s[i]) by {
        if i < digits.len() {
            assert(text::is_digit(digits[i]));
            assert(s[i] == digits[i]);
        } else if i < digits.len() + blank.len() {
            assert(is_blank_char(blank[i - digits.len()]));
            assert(s[i] == blank[i - digits.len()]);
        } else {
            assert(s[i] == unit[i - digits.len() - blank.len()]);
        }
    }
    match units::iec_factor(unit) {
        Some(bytes) => {
            assert(value * bits == 8 * (value * bytes)) by (nonlinear_arith)
                requires
                    bits == 8 * bytes,
            ;
            assert(units::bits_of(s) is None);
        },
        None => {},
    }
}

/// A bare number is bytes.
pub proof fn law_bare_sizes_are_bytes(text: &str, outcome: Option<u64>)
    requires
        call_ensures(units::parse_size, (text,), outcome),
        text::is_digits(text@),
        text::digits_value(text@) <= u64::MAX,
    ensures
        outcome is Some && outcome->0 == text::digits_value(text@),
{
    assert(text::is_digit(text@[0]));
}

/// White space in front falls away.
proof fn lemma_strip_front(blank: Seq<char>, s: Seq<char>)
    requires
        is_blank(blank),
    ensures
        units::strip_start(blank + s) == units::strip_start(s),
    decreases blank.len(),
{
    if blank.len() == 0 {
        assert(blank + s =~= s);
    } else {
        let rest = blank.drop_first();
        assert forall|i: int| 0 <= i < rest.len() implies is_blank_char(#[trigger] rest[i]) by {
            assert(rest[i] == blank[i + 1]);
        }
        assert(is_blank_char(blank[0]));
        assert((blank + s)[0] == blank[0]);
        assert((blank + s).drop_first() =~= rest + s);
        lemma_strip_front(rest, s);
    }
}

/// White space behind falls away.
proof fn lemma_strip_back(s: Seq<char>, blank: Seq<char>)
    requires
        is_blank(blank),
    ensures
        units::strip_end(s + blank) == units::strip_end(s),
    decreases blank.len(),
{
    if blank.len() == 0 {
        assert(s + blank =~= s);
    } else {
        let rest = blank.drop_last();
        assert forall|i: int| 0 <= i < rest.len() implies is_blank_char(#[trigger] rest[i]) by {
            assert(rest[i] == blank[i]);
        }
        assert(is_blank_char(blank[blank.len() - 1]));
        assert((s + blank).last() == blank.last());
        assert((s + blank).drop_last() =~= s + rest);
        lemma_strip_back(s, rest);
    }
}

/// White space behind stays where it is while that in front falls away.
proof fn lemma_strip_start_keeps(s: Seq<char>, blank: Seq<char>)
    requires
        is_blank(blank),
    ensures
        units::strip_end(units::strip_start(s + blank)) == units::strip_end(
            units::strip_start(s),
        ),
    decreases s.len(),
{
    if s.len() == 0 {
        assert(s + blank =~= blank + s);
        lemma_strip_front(blank, s);
    } else if units::is_space(s[0]) {
        assert((s + blank)[0] == s[0]);
        assert((s + blank).drop_first() =~= s.drop_first() + blank);
        lemma_strip_start_keeps(s.drop_first(), blank);
    } else {
        assert((s + blank)[0] == s[0]);
        lemma_strip_back(s, blank);
    }
}

/// White space around a duration means nothing.
pub proof fn law_durations_may_be_padded(
    text: &str,
    padded: &str,
    before: Seq<char>,
    after: Seq<char>,
    outcome: Option<u128>,
    same: Option<u128>,
)
    requires
        call_ensures(units::parse_duration, (text,), outcome),
        call_ensures(units::parse_duration, (padded,), same),
        is_blank(before),
        is_blank(after),
        forall|i: int| 0 <= i < text@.len() ==> (#[trigger] text@[i]) as u32 <= 0x7f,
        padded@ == before + text@ + after,
    ensures
        same == outcome,
{
    let s = text@;
    assert(padded@ =~= before + (s + after));
    lemma_strip_front(before, s + after);
    lemma_strip_start_keeps(s, after);
    assert(units::strip(padded@) == units::strip(s));
    let p = padded@;
    assert forall|i: int| 0 <= i < p.len() implies units::is_plain_char(#[trigger] p[i]) by {
        if i < before.len() {
            assert(is_blank_char(before[i]));
            assert(p[i] == before[i]);
        } else if i < before.len() + s.len() {
            assert(p[i] == s[i - before.len()]);
        } else {
            assert(is_blank_char(after[i - before.len() - s.len()]));
            assert(p[i] == after[i - before.len() - s.len()]);
        }
    }
}

/// Any other unit makes no size.
pub proof fn law_other_units_are_no_sizes(
    text: &str,
    outcome: Option<u64>,
    digits: Seq<char>,
    blank: Seq<char>,
    unit: Seq<char>,
)
    requires
        call_ensures(units::parse_size, (text,), outcome),
        text::is_digits(digits),
        text::digits_value(digits) <= u64::MAX,
        is_blank(blank),
        unit.len() > 0,
        forall|i: int|
            0 <= i < unit.len() ==> !text::is_digit(#[trigger] unit[i]) && !units::is_space(unit[i])
                && units::is_plain_char(unit[i]),
        forall|bits: nat| !is_size_unit(unit, bits),
        text@ == digits + blank + unit,
    ensures
        outcome is None,
{
    let s = text@;
    assert forall|i: int| 0 <= i < blank.len() implies units::is_space(#[trigger] blank[i]) by {
        assert(is_blank_char(blank[i]));
    }
    units::law_quantities_are_spelled(digits, blank, unit, u64::MAX as nat);
    assert(text::is_digit(digits[0]));
    assert(s[0] == digits[0]);
    assert(text::without_plus(s) == s);
    assert(s[s.len() - 1] == unit[unit.len() - 1]);
    assert(!text::is_digit(s[s.len() - 1]));
    assert(text::unsigned(s, u64::MAX as nat) is None);
    assert forall|i: int| 0 <= i < s.len() implies units::is_plain_char(#[trigger] s[i]) by {
        if i < digits.len() {
            assert(text::is_digit(digits[i]));
            assert(s[i] == digits[i]);
        } else if i < digits.len() + blank.len() {
            assert(is_blank_char(blank[i - digits.len()]));
            assert(s[i] == blank[i - digits.len()]);
        } else {
            assert(s[i] == unit[i - digits.len() - blank.len()]);
        }
    }
    match units::iec_factor(unit) {
        Some(bytes) => {
            assert(!is_size_unit(unit, 8 * bytes));
        },
        None => {},
    }
    match units::bits_factor(unit) {
        Some(bits) => {
            assert(!is_size_unit(unit, bits));
        },
        None => {},
    }
}

/// A number that is written outside ASCII makes no duration.
pub proof fn law_wide_numbers_are_no_durations(text: &str, outcome: Option<u128>, i: int)
    requires
        call_ensures(units::parse_duration, (text,), outcome),
        0 <= i < text@.len(),
        text@[i] as u32 > 0x7f,
        text@[i] != '\u{3bc}',
        units::is_numeric(text@[i]),
    ensures
        outcome is None,
{
    assert(!units::is_plain_char(text@[i]));
    assert(units::has_wide_number(text@));
}

/// Numbers that are too large make neither a duration nor a size.
pub proof fn law_huge_numbers_are_refused(
    text: &str,
    duration: Option<u128>,
    size: Option<u64>,
    digits: Seq<char>,
    blank: Seq<char>,
    unit: Seq<char>,
)
    requires
        call_ensures(units::parse_duration, (text,), duration),
        call_ensures(units::parse_size, (text,), size),
        text::is_digits(digits),
        is_blank(blank),
        unit.len() > 0,
        forall|i: int|
            0 <= i < unit.len() ==> !text::is_digit(#[trigger] unit[i]) && !units::is_space(unit[i])
                && units::is_plain_char(unit[i]),
        text@ == digits + blank + unit,
    ensures
        text::digits_value(digits) > u128::MAX ==> duration is None,
        text::digits_value(digits) > u64::MAX ==> size is None,
{
    let s = text@;
    assert forall|i: int| 0 <= i < blank.len() implies units::is_space(#[trigger] blank[i]) by {
        assert(is_blank_char(blank[i]));
    }
    units::law_quantities_are_spelled(digits, blank, unit, text::digits_value(digits));
    assert(text::is_digit(digits[0]));
    assert(s[0] == digits[0]);
    assert(text::without_plus(s) == s);
    assert(s[s.len() - 1] == unit[unit.len() - 1]);
    assert(!text::is_digit(s[s.len() - 1]));
    assert(text::unsigned(s, u64::MAX as nat) is None);
    assert forall|i: int| 0 <= i < s.len() implies units::is_plain_char(#[trigger] s[i]) by {
        if i < digits.len() {
            assert(text::is_digit(digits[i]));
            assert(s[i] == digits[i]);
        } else if i < digits.len() + blank.len() {
            assert(is_blank_char(blank[i - digits.len()]));
            assert(s[i] == blank[i - digits.len()]);
        } else {
            assert(s[i] == unit[i - digits.len() - blank.len()]);
        }
    }
    if text::digits_value(digits) > u128::MAX {
        assert(units::quantity(s, u128::MAX as nat) is None);
    }
    if text::digits_value(digits) > u64::MAX {
        assert(units::quantity(s, u64::MAX as nat) is None);
    }
}

} // verus!
