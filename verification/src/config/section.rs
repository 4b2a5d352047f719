//! Sections of options: keys in ascending order with the text given for each.

use vstd::prelude::*;

use crate::complaint;
use crate::config::value;
use crate::config::value::{truth, ByteSize, HumanDuration, Positive};
use crate::text::parse_unsigned;
use crate::text_map::TextMap;
use crate::units::{parse_duration, parse_size};

verus! {

/// The text given for a key.
pub open spec fn given(section: Map<Seq<char>, Seq<char>>, key: Seq<char>) -> Option<Seq<char>> {
    if section.dom().contains(key) {
        Some(section[key])
    } else {
        None
    }
}

/// The positive number given for a key.
pub open spec fn positive_given(section: Map<Seq<char>, Seq<char>>, key: Seq<char>) -> Option<nat> {
    match given(section, key) {
        Some(text) => match value::usize_of(text) {
            Some(n) if n > 0 => Some(n),
            _ => None,
        },
        None => None,
    }
}

/// The number given for a key.
pub open spec fn usize_given(section: Map<Seq<char>, Seq<char>>, key: Seq<char>) -> Option<nat> {
    match given(section, key) {
        Some(text) => value::usize_of(text),
        None => None,
    }
}

/// The truth value given for a key.
pub open spec fn boolean_given(section: Map<Seq<char>, Seq<char>>, key: Seq<char>) -> Option<bool> {
    match given(section, key) {
        Some(text) => value::boolean_of(text),
        None => None,
    }
}

/// The size given for a key.
pub open spec fn size_given(section: Map<Seq<char>, Seq<char>>, key: Seq<char>) -> Option<nat> {
    match given(section, key) {
        Some(text) => match value::size_of_value(text) {
            Some(bytes) if bytes <= usize::MAX => Some(bytes),
            _ => None,
        },
        None => None,
    }
}

/// The duration given for a key.
pub open spec fn duration_given(section: Map<Seq<char>, Seq<char>>, key: Seq<char>) -> Option<nat> {
    match given(section, key) {
        Some(text) => value::duration_of_value(text),
        None => None,
    }
}

/// The positive number given for a key.
pub fn positive_at(section: &TextMap<String>, key: &str) -> (number: Option<Positive>)
    requires
        section.wf(),
    ensures
        value::positive_view(number) == positive_given(complaint::entries(section), key@),
{
    match section.get(key) {
        Some(text) => match parse_unsigned(text.as_str(), usize::MAX as u64) {
            Some(number) => Positive::new(number as usize),
            None => None,
        },
        None => None,
    }
}

/// The number given for a key.
pub fn usize_at(section: &TextMap<String>, key: &str) -> (number: Option<usize>)
    requires
        section.wf(),
    ensures
        match number {
            Some(n) => usize_given(complaint::entries(section), key@) == Some(n as nat),
            None => usize_given(complaint::entries(section), key@) is None,
        },
{
    match section.get(key) {
        Some(text) => match parse_unsigned(text.as_str(), usize::MAX as u64) {
            Some(number) => Some(number as usize),
            None => None,
        },
        None => None,
    }
}

/// The truth value given for a key.
pub fn boolean_at(section: &TextMap<String>, key: &str) -> (flag: Option<bool>)
    requires
        section.wf(),
    ensures
        flag == boolean_given(complaint::entries(section), key@),
{
    match section.get(key) {
        Some(text) => truth(text.as_str()),
        None => None,
    }
}

/// The size given for a key.
pub fn size_at(section: &TextMap<String>, key: &str) -> (size: Option<ByteSize>)
    requires
        section.wf(),
    ensures
        value::size_view(size) == size_given(complaint::entries(section), key@),
{
    match section.get(key) {
        Some(text) => match parse_size(text.as_str()) {
            Some(bytes) => if bytes <= usize::MAX as u64 {
                Some(ByteSize::of(bytes as usize))
            } else {
                None
            },
            None => None,
        },
        None => None,
    }
}

/// The duration given for a key.
pub fn duration_at(section: &TextMap<String>, key: &str) -> (duration: Option<HumanDuration>)
    requires
        section.wf(),
    ensures
        value::duration_view(duration) == duration_given(complaint::entries(section), key@),
{
    match section.get(key) {
        Some(text) => match parse_duration(text.as_str()) {
            Some(nanos) => Some(HumanDuration::of(nanos)),
            None => None,
        },
        None => None,
    }
}

} // verus!
