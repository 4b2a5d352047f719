//! The `retry` section: how failed operations are tried again.

use vstd::prelude::*;

use crate::complaint;
use crate::config::layer::Layer;
use crate::config::section;
use crate::config::section::{boolean_at, duration_at, usize_at};
use crate::config::value;
use crate::config::value::{boolean, float, unknown, usize_value, HumanDuration};
use crate::text::text_eq;
use crate::text_map::TextMap;

verus! {

/// The `retry` section.
#[derive(Clone, Copy, Debug)]
pub struct RetryConfig {
    /// Maximum retries after the initial attempt.
    pub max_times: Option<usize>,
    /// Backoff multiplier (finite and at least 1), as single-precision bits.
    pub factor: Option<u32>,
    /// Add random delay before each retry.
    pub jitter: bool,
    /// Lower bound for retry delay.
    pub min_delay: Option<HumanDuration>,
    /// Upper bound for retry delay.
    pub max_delay: Option<HumanDuration>,
}

/// Whether single-precision bits denote a finite number of at least 1: the sign
/// bit is clear, and the exponent lies between those of 1 and of infinity.
pub open spec fn admits_factor(bits: u32) -> bool {
    bits < 0x8000_0000 && 127 <= bits as int / 0x80_0000 < 255
}

/// What is wrong with a multiplier.
pub open spec fn factor_error(value: Seq<char>, bits: Option<u32>) -> Option<Seq<char>> {
    match value::float_error("retry"@, "factor"@, value, bits) {
        Some(message) => Some(message),
        None => if admits_factor(bits->0) {
            None
        } else {
            Some("invalid retry.factor='"@ + value + "': expected a finite number >= 1"@)
        },
    }
}

/// What is wrong with an entry of the section.  `bits` is the number that the
/// value of `factor` spells.
pub open spec fn retry_error(key: Seq<char>, value: Seq<char>, bits: Option<u32>) -> Option<
    Seq<char>,
> {
    if key == "max_times"@ {
        value::usize_error("retry"@, key, value)
    } else if key == "factor"@ {
        factor_error(value, bits)
    } else if key == "jitter"@ {
        value::boolean_error("retry"@, key, value)
    } else if key == "min_delay"@ || key == "max_delay"@ {
        value::duration_error("retry"@, key, value)
    } else {
        Some(value::unknown_message("retry"@, key))
    }
}

/// The complaints of the section.
pub open spec fn retry_errors(bits: Option<u32>) -> spec_fn(Seq<char>, Seq<char>) -> Option<
    Seq<char>,
> {
    |key: Seq<char>, value: Seq<char>| retry_error(key, value, bits)
}

fn check_factor(value: &str, bits: Option<u32>) -> (message: Option<String>)
    ensures
        match factor_error(value@, bits) {
            Some(text) => message matches Some(m) && m@ == text,
            None => message is None,
        },
{
    match float("retry", "factor", value, bits) {
        Err(message) => Some(message),
        Ok(bits) => if bits < 0x8000_0000 && 127 <= bits / 0x80_0000 && bits / 0x80_0000 < 255 {
            None
        } else {
            let mut message: String = "invalid retry.factor='".to_owned();
            message.append(value);
            message.append("': expected a finite number >= 1");
            Some(message)
        },
    }
}

fn check_entry(key: &str, value: &str, bits: Option<u32>) -> (message: Option<String>)
    ensures
        match retry_error(key@, value@, bits) {
            Some(text) => message matches Some(m) && m@ == text,
            None => message is None,
        },
{
    if text_eq(key, "max_times") {
        usize_value("retry", key, value).err()
    } else if text_eq(key, "factor") {
        check_factor(value, bits)
    } else if text_eq(key, "jitter") {
        boolean("retry", key, value).err()
    } else if text_eq(key, "min_delay") || text_eq(key, "max_delay") {
        HumanDuration::parse("retry", key, value).err()
    } else {
        Some(unknown("retry", key))
    }
}

/// Whether the delays of a section are the wrong way round.
pub open spec fn delays_cross(section: Map<Seq<char>, Seq<char>>) -> bool {
    match (
        section::duration_given(section, "min_delay"@),
        section::duration_given(section, "max_delay"@),
    ) {
        (Some(min), Some(max)) => min > max,
        _ => false,
    }
}

impl RetryConfig {
    /// Whether this is what a section without complaint configures.
    pub open spec fn reads(self, section: Map<Seq<char>, Seq<char>>, bits: Option<u32>) -> bool {
        &&& value::number_view(self.max_times) == section::usize_given(section, "max_times"@)
        &&& self.factor == (if section.dom().contains("factor"@) {
            bits
        } else {
            None
        })
        &&& self.jitter == (section::boolean_given(section, "jitter"@) == Some(true))
        &&& value::duration_view(self.min_delay) == section::duration_given(section, "min_delay"@)
        &&& value::duration_view(self.max_delay) == section::duration_given(section, "max_delay"@)
    }

    /// The configuration of a section; none where the section is empty.  `bits`
    /// is the number that the value of `factor` spells, if any.
    pub fn parse(values: &TextMap<String>, bits: Option<u32>) -> (config: Result<
        Option<RetryConfig>,
        String,
    >)
        requires
            values.wf(),
        ensures
            match complaint::complaint(complaint::entries(values), retry_errors(bits)) {
                Some(message) => config matches Err(e) && e@ == message,
                None => if complaint::entries(values) == Map::<Seq<char>, Seq<char>>::empty() {
                    config matches Ok(c) && c is None
                } else if delays_cross(complaint::entries(values)) {
                    config matches Err(e) && e@
                        == "retry.min_delay must not exceed retry.max_delay"@
                } else {
                    config matches Ok(c) && (c matches Some(retry) && retry.reads(
                        complaint::entries(values),
                        bits,
                    ))
                },
            },
    {
        proof {
            complaint::lemma_empty(values);
            complaint::lemma_complaint(values, retry_errors(bits));
        }
        if values.len() == 0 {
            return Ok(None);
        }
        let ghost rows = values.rows();
        let mut i: usize = 0;
        while i < values.len()
            invariant
                rows == values.rows(),
                values.wf(),
                i <= rows.len(),
                complaint::first_error(rows.take(i as int), retry_errors(bits)) is None,
            decreases rows.len() - i,
        {
            proof {
                complaint::lemma_first_error_step(rows, i as int, retry_errors(bits));
            }
            match check_entry(values.key(i).as_str(), values.value(i).as_str(), bits) {
                Some(message) => {
                    proof {
                        complaint::lemma_first_error_prefix(rows, i + 1, retry_errors(bits));
                        complaint::lemma_complaint(values, retry_errors(bits));
                    }
                    return Err(message);
                },
                None => {},
            }
            i += 1;
        }
        assert(rows.take(i as int) =~= rows);
        let config: RetryConfig = RetryConfig {
            max_times: usize_at(values, "max_times"),
            factor: if values.get("factor").is_some() {
                bits
            } else {
                None
            },
            jitter: matches!(boolean_at(values, "jitter"), Some(true)),
            min_delay: duration_at(values, "min_delay"),
            max_delay: duration_at(values, "max_delay"),
        };
        match (config.min_delay, config.max_delay) {
            (Some(min), Some(max)) => if min.get() > max.get() {
                return Err("retry.min_delay must not exceed retry.max_delay".to_owned());
            },
            _ => {},
        }
        Ok(Some(config))
    }

    /// The layer that this configures.
    pub open spec fn layer(self) -> Layer {
        Layer::Retry {
            max_times: self.max_times,
            factor: self.factor,
            jitter: self.jitter,
            min_delay: nanos_view(self.min_delay),
            max_delay: nanos_view(self.max_delay),
        }
    }

    /// The layer that this configures.
    pub fn apply(&self) -> (layer: Layer)
        ensures
            layer == self.layer(),
    {
        Layer::Retry {
            max_times: self.max_times,
            factor: self.factor,
            jitter: self.jitter,
            min_delay: nanos(self.min_delay),
            max_delay: nanos(self.max_delay),
        }
    }
}

/// The nanoseconds of an optional duration.
pub open spec fn nanos_view(duration: Option<HumanDuration>) -> Option<u128> {
    match duration {
        Some(duration) => Some(duration@ as u128),
        None => None,
    }
}

/// The nanoseconds of an optional duration.
pub fn nanos(duration: Option<HumanDuration>) -> (nanos: Option<u128>)
    ensures
        nanos == nanos_view(duration),
{
    match duration {
        Some(duration) => Some(duration.get()),
        None => None,
    }
}

} // verus!
