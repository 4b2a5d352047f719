//! Typed option values.

use vstd::prelude::*;

use crate::text;
use crate::text::{parse_unsigned, text_eq};
use crate::units;
use crate::units::{parse_duration, parse_size};

verus! {

/// What is said of a key that no section knows.
pub open spec fn unknown_message(section: Seq<char>, key: Seq<char>) -> Seq<char> {
    "unknown OpenDAL option '"@ + section + "."@ + key + "'"@
}

/// What is said of a value that its key does not admit.
pub open spec fn invalid_message(
    section: Seq<char>,
    key: Seq<char>,
    value: Seq<char>,
    expected: Seq<char>,
) -> Seq<char> {
    "invalid "@ + section + "."@ + key + "='"@ + value + "': "@ + expected
}

/// The message for an unknown key.
pub fn unknown(section: &str, key: &str) -> (message: String)
    ensures
        message@ == unknown_message(section@, key@),
{
    let mut message: String = "unknown OpenDAL option '".to_owned();
    message.append(section);
    message.append(".");
    message.append(key);
    message.append("'");
    message
}

/// The message for a value that its key does not admit.
pub fn invalid(section: &str, key: &str, value: &str, expected: &str) -> (message: String)
    ensures
        message@ == invalid_message(section@, key@, value@, expected@),
{
    let mut message: String = "invalid ".to_owned();
    message.append(section);
    message.append(".");
    message.append(key);
    message.append("='");
    message.append(value);
    message.append("': ");
    message.append(expected);
    message
}

/// A machine-sized number that is not zero.
#[derive(Clone, Copy, Debug, PartialEq, Eq)]
pub struct Positive {
    value: usize,
}

impl View for Positive {
    type V = nat;

    closed spec fn view(&self) -> nat {
        self.value as nat
    }
}

impl Positive {
    #[verifier::type_invariant]
    spec fn is_positive(self) -> bool {
        self.value > 0
    }

    /// The number, unless it is zero.
    pub fn new(value: usize) -> (positive: Option<Positive>)
        ensures
            positive is Some <==> value > 0,
            positive matches Some(p) ==> p@ == value,
    {
        if value > 0 {
            Some(Positive { value })
        } else {
            None
        }
    }

    /// The number.
    pub fn get(self) -> (value: usize)
        ensures
            value == self@,
            value > 0,
    {
        proof {
            use_type_invariant(&self);
        }
        self.value
    }
}

/// The number of a positive value, where there is one.
pub open spec fn positive_view(p: Option<Positive>) -> Option<nat> {
    match p {
        Some(p) => Some(p@),
        None => None,
    }
}

/// The number of an optional value.
pub open spec fn number_view(n: Option<usize>) -> Option<nat> {
    match n {
        Some(n) => Some(n as nat),
        None => None,
    }
}

/// The machine-sized number that a value spells.
pub open spec fn usize_of(value: Seq<char>) -> Option<nat> {
    text::unsigned(value, usize::MAX as nat)
}

/// What is wrong with a value that has to be a positive integer.
pub open spec fn positive_error(section: Seq<char>, key: Seq<char>, value: Seq<char>) -> Option<
    Seq<char>,
> {
    match usize_of(value) {
        Some(n) if n > 0 => None,
        _ => Some(invalid_message(section, key, value, "expected a positive integer"@)),
    }
}

/// A positive integer.
pub fn positive_usize(section: &str, key: &str, value: &str) -> (number: Result<Positive, String>)
    ensures
        match positive_error(section@, key@, value@) {
            None => number matches Ok(p) && Some(p@) == usize_of(value@),
            Some(message) => number matches Err(e) && e@ == message,
        },
{
    let parsed: Option<Positive> = match parse_unsigned(value, usize::MAX as u64) {
        Some(number) => Positive::new(number as usize),
        None => None,
    };
    match parsed {
        Some(positive) => Ok(positive),
        None => Err(invalid(section, key, value, "expected a positive integer")),
    }
}

/// What is wrong with a value that has to be a non-negative integer.
pub open spec fn usize_error(section: Seq<char>, key: Seq<char>, value: Seq<char>) -> Option<
    Seq<char>,
> {
    match usize_of(value) {
        Some(_) => None,
        None => Some(invalid_message(section, key, value, "expected a non-negative integer"@)),
    }
}

/// A non-negative integer.
pub fn usize_value(section: &str, key: &str, value: &str) -> (number: Result<usize, String>)
    ensures
        match usize_error(section@, key@, value@) {
            None => number matches Ok(n) && Some(n as nat) == usize_of(value@),
            Some(message) => number matches Err(e) && e@ == message,
        },
{
    match parse_unsigned(value, usize::MAX as u64) {
        Some(number) => Ok(number as usize),
        None => Err(invalid(section, key, value, "expected a non-negative integer")),
    }
}

/// What is wrong with a value that has to be a number.  The number is given as
/// its single-precision bits, or not at all where the value spells none.
pub open spec fn float_error(
    section: Seq<char>,
    key: Seq<char>,
    value: Seq<char>,
    bits: Option<u32>,
) -> Option<Seq<char>> {
    match bits {
        Some(_) => None,
        None => Some(invalid_message(section, key, value, "expected a number"@)),
    }
}

/// A number, as its single-precision bits.
pub fn float(section: &str, key: &str, value: &str, bits: Option<u32>) -> (number: Result<
    u32,
    String,
>)
    ensures
        match float_error(section@, key@, value@, bits) {
            None => number matches Ok(b) && bits == Some(b),
            Some(message) => number matches Err(e) && e@ == message,
        },
{
    match bits {
        Some(bits) => Ok(bits),
        None => Err(invalid(section, key, value, "expected a number")),
    }
}

/// The truth value that a value spells.
pub fn truth(value: &str) -> (flag: Option<bool>)
    ensures
        flag == boolean_of(value@),
{
    if text_eq(value, "true") || text_eq(value, "1") {
        Some(true)
    } else if text_eq(value, "false") || text_eq(value, "0") {
        Some(false)
    } else {
        None
    }
}

/// The truth value that a value spells.
pub open spec fn boolean_of(value: Seq<char>) -> Option<bool> {
    if value == "true"@ || value == "1"@ {
        Some(true)
    } else if value == "false"@ || value == "0"@ {
        Some(false)
    } else {
        None
    }
}

/// What is wrong with a value that has to be a truth value.
pub open spec fn boolean_error(section: Seq<char>, key: Seq<char>, value: Seq<char>) -> Option<
    Seq<char>,
> {
    match boolean_of(value) {
        Some(_) => None,
        None => Some(invalid_message(section, key, value, "expected true, false, 1, or 0"@)),
    }
}

/// A truth value.
pub fn boolean(section: &str, key: &str, value: &str) -> (flag: Result<bool, String>)
    ensures
        match boolean_error(section@, key@, value@) {
            None => flag matches Ok(b) && Some(b) == boolean_of(value@),
            Some(message) => flag matches Err(e) && e@ == message,
        },
{
    match truth(value) {
        Some(truth) => Ok(truth),
        None => Err(invalid(section, key, value, "expected true, false, 1, or 0")),
    }
}

/// A number of bytes that fits the machine.
#[derive(Clone, Copy, Debug, PartialEq, Eq)]
pub struct ByteSize {
    bytes: usize,
}

impl View for ByteSize {
    type V = nat;

    closed spec fn view(&self) -> nat {
        self.bytes as nat
    }
}

/// The bytes of a size, where there is one.
pub open spec fn size_view(size: Option<ByteSize>) -> Option<nat> {
    match size {
        Some(size) => Some(size@),
        None => None,
    }
}

/// What is wrong with a value that has to be a size and spells so many bytes.
pub open spec fn parsed_size_error(
    section: Seq<char>,
    key: Seq<char>,
    value: Seq<char>,
    bytes: Option<u64>,
) -> Option<Seq<char>> {
    match bytes {
        None => Some(
            invalid_message(section, key, value, "expected bytes or an IEC size such as '8 MiB'"@),
        ),
        Some(bytes) => if bytes <= usize::MAX {
            None
        } else {
            Some(section + "."@ + key + " exceeds the platform size limit"@)
        },
    }
}

/// What is wrong with a value that has to be a size.
pub open spec fn size_error(section: Seq<char>, key: Seq<char>, value: Seq<char>) -> Option<
    Seq<char>,
> {
    parsed_size_error(section, key, value, units::size_of_text(value))
}

/// The bytes that a value spells.
pub open spec fn size_of_value(value: Seq<char>) -> Option<nat> {
    match units::size_of_text(value) {
        Some(bytes) => Some(bytes as nat),
        None => None,
    }
}

impl ByteSize {
    /// A size of so many bytes.
    pub fn of(bytes: usize) -> (size: ByteSize)
        ensures
            size@ == bytes,
    {
        ByteSize { bytes }
    }

    /// The size that a value spells, once it is known how many bytes that is.
    pub fn parsed(section: &str, key: &str, value: &str, bytes: Option<u64>) -> (size: Result<
        ByteSize,
        String,
    >)
        ensures
            match parsed_size_error(section@, key@, value@, bytes) {
                None => size matches Ok(s) && bytes matches Some(b) && s@ == b,
                Some(message) => size matches Err(e) && e@ == message,
            },
    {
        match bytes {
            None => Err(
                invalid(section, key, value, "expected bytes or an IEC size such as '8 MiB'"),
            ),
            Some(bytes) => if bytes <= usize::MAX as u64 {
                Ok(ByteSize { bytes: bytes as usize })
            } else {
                let mut message: String = section.to_owned();
                message.append(".");
                message.append(key);
                message.append(" exceeds the platform size limit");
                Err(message)
            },
        }
    }

    /// The size that a value spells.
    pub fn parse(section: &str, key: &str, value: &str) -> (size: Result<ByteSize, String>)
        ensures
            match size_error(section@, key@, value@) {
                None => size matches Ok(s) && Some(s@) == size_of_value(value@),
                Some(message) => size matches Err(e) && e@ == message,
            },
    {
        ByteSize::parsed(section, key, value, parse_size(value))
    }

    /// The number of bytes.
    pub fn get(self) -> (bytes: usize)
        ensures
            bytes == self@,
    {
        self.bytes
    }
}

/// A span of time, in nanoseconds.
#[derive(Clone, Copy, Debug, PartialEq, Eq)]
pub struct HumanDuration {
    nanos: u128,
}

impl View for HumanDuration {
    type V = nat;

    closed spec fn view(&self) -> nat {
        self.nanos as nat
    }
}

/// The nanoseconds of a duration, where there is one.
pub open spec fn duration_view(duration: Option<HumanDuration>) -> Option<nat> {
    match duration {
        Some(duration) => Some(duration@),
        None => None,
    }
}

/// What is wrong with a value that has to be a duration and spells so many
/// nanoseconds.
pub open spec fn parsed_duration_error(
    section: Seq<char>,
    key: Seq<char>,
    value: Seq<char>,
    nanos: Option<u128>,
) -> Option<Seq<char>> {
    match nanos {
        Some(_) => None,
        None => Some(
            invalid_message(section, key, value, "expected seconds or a duration such as '500ms'"@),
        ),
    }
}

/// What is wrong with a value that has to be a duration.
pub open spec fn duration_error(section: Seq<char>, key: Seq<char>, value: Seq<char>) -> Option<
    Seq<char>,
> {
    parsed_duration_error(section, key, value, units::duration_of(value))
}

/// The nanoseconds that a value spells.
pub open spec fn duration_of_value(value: Seq<char>) -> Option<nat> {
    match units::duration_of(value) {
        Some(nanos) => Some(nanos as nat),
        None => None,
    }
}

impl HumanDuration {
    /// A duration of so many nanoseconds.
    pub fn of(nanos: u128) -> (duration: HumanDuration)
        ensures
            duration@ == nanos,
    {
        HumanDuration { nanos }
    }

    /// The duration that a value spells, once it is known how many nanoseconds that
    /// is.
    pub fn parsed(section: &str, key: &str, value: &str, nanos: Option<u128>) -> (duration: Result<
        HumanDuration,
        String,
    >)
        ensures
            match parsed_duration_error(section@, key@, value@, nanos) {
                None => duration matches Ok(d) && nanos matches Some(n) && d@ == n,
                Some(message) => duration matches Err(e) && e@ == message,
            },
    {
        match nanos {
            Some(nanos) => Ok(HumanDuration { nanos }),
            None => Err(
                invalid(section, key, value, "expected seconds or a duration such as '500ms'"),
            ),
        }
    }

    /// The duration that a value spells.
    pub fn parse(section: &str, key: &str, value: &str) -> (duration: Result<HumanDuration, String>)
        ensures
            match duration_error(section@, key@, value@) {
                None => duration matches Ok(d) && Some(d@) == duration_of_value(value@),
                Some(message) => duration matches Err(e) && e@ == message,
            },
    {
        HumanDuration::parsed(section, key, value, parse_duration(value))
    }

    /// The number of nanoseconds.
    pub fn get(self) -> (nanos: u128)
        ensures
            nanos == self@,
    {
        self.nanos
    }

    /// Whether no time passes.
    pub fn is_zero(self) -> (zero: bool)
        ensures
            zero == (self@ == 0),
    {
        self.nanos == 0
    }
}

/// What is wrong with a value that has to be a path.
pub open spec fn path_error(section: Seq<char>, key: Seq<char>, value: Seq<char>) -> Option<
    Seq<char>,
> {
    if value.len() == 0 {
        Some(invalid_message(section, key, value, "path must not be empty"@))
    } else {
        None
    }
}

/// A path that is not empty.
pub fn non_empty_path(section: &str, key: &str, value: &str) -> (path: Result<String, String>)
    ensures
        match path_error(section@, key@, value@) {
            None => path matches Ok(p) && p@ == value@,
            Some(message) => path matches Err(e) && e@ == message,
        },
{
    if value.unicode_len() == 0 {
        Err(invalid(section, key, value, "path must not be empty"))
    } else {
        Ok(value.to_owned())
    }
}

} // verus!
