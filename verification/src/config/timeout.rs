//! The `timeout` section: when operations are given up.

use vstd::prelude::*;

use crate::complaint;
use crate::config::layer::Layer;
use crate::config::retry;
use crate::config::retry::nanos;
use crate::config::section;
use crate::config::section::duration_at;
use crate::config::value;
use crate::config::value::{unknown, HumanDuration};
use crate::text::text_eq;
use crate::text_map::TextMap;

verus! {

/// The `timeout` section.
#[derive(Clone, Copy, Debug)]
pub struct TimeoutConfig {
    /// Timeout for control operations such as stat and delete.
    pub operation_timeout: Option<HumanDuration>,
    /// Timeout for I/O operations and body methods.
    pub io_timeout: Option<HumanDuration>,
}

/// What is wrong with an entry of the section.  A value is looked at before its
/// key is.
pub open spec fn timeout_error(key: Seq<char>, value: Seq<char>) -> Option<Seq<char>> {
    match value::duration_error("timeout"@, key, value) {
        Some(message) => Some(message),
        None => if value::duration_of_value(value) == Some(0nat) {
            Some(
                "invalid timeout."@ + key + "='"@ + value + "': duration must be positive"@,
            )
        } else if key == "operation_timeout"@ || key == "io_timeout"@ {
            None
        } else {
            Some(value::unknown_message("timeout"@, key))
        },
    }
}

/// The complaints of the section.
pub open spec fn timeout_errors() -> spec_fn(Seq<char>, Seq<char>) -> Option<Seq<char>> {
    |key: Seq<char>, value: Seq<char>| timeout_error(key, value)
}

fn check_entry(key: &str, value: &str) -> (message: Option<String>)
    ensures
        match timeout_error(key@, value@) {
            Some(text) => message matches Some(m) && m@ == text,
            None => message is None,
        },
{
    match HumanDuration::parse("timeout", key, value) {
        Err(message) => Some(message),
        Ok(duration) => if duration.is_zero() {
            let mut message: String = "invalid timeout.".to_owned();
            message.append(key);
            message.append("='");
            message.append(value);
            message.append("': duration must be positive");
            Some(message)
        } else if text_eq(key, "operation_timeout") || text_eq(key, "io_timeout") {
            None
        } else {
            Some(unknown("timeout", key))
        },
    }
}

impl TimeoutConfig {
    /// Whether this is what a section without complaint configures.
    pub open spec fn reads(self, section: Map<Seq<char>, Seq<char>>) -> bool {
        &&& value::duration_view(self.operation_timeout) == section::duration_given(
            section,
            "operation_timeout"@,
        )
        &&& value::duration_view(self.io_timeout) == section::duration_given(
            section,
            "io_timeout"@,
        )
    }

    /// The configuration of a section; none where the section is empty.
    pub fn parse(values: &TextMap<String>) -> (config: Result<Option<TimeoutConfig>, String>)
        requires
            values.wf(),
        ensures
            match complaint::complaint(complaint::entries(values), timeout_errors()) {
                Some(message) => config matches Err(e) && e@ == message,
                None => if complaint::entries(values) == Map::<Seq<char>, Seq<char>>::empty() {
                    config matches Ok(c) && c is None
                } else {
                    config matches Ok(c) && (c matches Some(timeout) && timeout.reads(
                        complaint::entries(values),
                    ))
                },
            },
    {
        proof {
            complaint::lemma_empty(values);
            complaint::lemma_complaint(values, timeout_errors());
        }
        if values.len() == 0 {
            return Ok(None);
        }
        let ghost rows = values.rows();
        let mut i: usize = 0;
        while i < values.len()
            invariant
                rows == values.rows(),
                values.wf(),
                i <= rows.len(),
                complaint::first_error(rows.take(i as int), timeout_errors()) is None,
            decreases rows.len() - i,
        {
            proof {
                complaint::lemma_first_error_step(rows, i as int, timeout_errors());
            }
            match check_entry(values.key(i).as_str(), values.value(i).as_str()) {
                Some(message) => {
                    proof {
                        complaint::lemma_first_error_prefix(rows, i + 1, timeout_errors());
                        complaint::lemma_complaint(values, timeout_errors());
                    }
                    return Err(message);
                },
                None => {},
            }
            i += 1;
        }
        assert(rows.take(i as int) =~= rows);
        Ok(
            Some(
                TimeoutConfig {
                    operation_timeout: duration_at(values, "operation_timeout"),
                    io_timeout: duration_at(values, "io_timeout"),
                },
            ),
        )
    }

    /// The layer that this configures.
    pub open spec fn layer(self) -> Layer {
        Layer::Timeout {
            operation: retry::nanos_view(self.operation_timeout),
            io: retry::nanos_view(self.io_timeout),
        }
    }

    /// The layer that this configures.
    pub fn apply(&self) -> (layer: Layer)
        ensures
            layer == self.layer(),
    {
        Layer::Timeout { operation: nanos(self.operation_timeout), io: nanos(self.io_timeout) }
    }
}

} // verus!
