//! The `io` section: request fan-out, chunk sizes and the concurrency ceiling.

use vstd::prelude::*;

use crate::complaint;
use crate::config::layer::Layer;
use crate::config::section;
use crate::config::section::{positive_at, size_at};
use crate::config::value;
use crate::config::value::{positive_usize, unknown, ByteSize, Positive};
use crate::text::text_eq;
use crate::text_map::TextMap;

verus! {

/// Tuning of one direction.
#[derive(Clone, Copy, Debug)]
pub struct DirectionConfig {
    /// Per-operation request fan-out.
    pub concurrent: Option<Positive>,
    /// Per-request chunk size in bytes.
    pub chunk_size: Option<ByteSize>,
}

/// The `io` section.
#[derive(Clone, Copy, Debug)]
pub struct IoConfig {
    pub read: DirectionConfig,
    pub write: DirectionConfig,
    /// Shared ceiling across all operations of an operator.
    pub concurrent_limit: Option<Positive>,
}

/// What is wrong with a chunk size.
pub open spec fn chunk_error(key: Seq<char>, value: Seq<char>) -> Option<Seq<char>> {
    match value::size_error("io"@, key, value) {
        Some(message) => Some(message),
        None => if value::size_of_value(value) == Some(0nat) {
            Some("invalid io."@ + key + "='0': expected a positive size"@)
        } else {
            None
        },
    }
}

/// What is wrong with an entry of the section.
pub open spec fn io_error(key: Seq<char>, value: Seq<char>) -> Option<Seq<char>> {
    if key == "read.concurrent"@ || key == "write.concurrent"@ || key == "concurrent_limit"@ {
        value::positive_error("io"@, key, value)
    } else if key == "read.chunk_size"@ || key == "write.chunk_size"@ {
        chunk_error(key, value)
    } else {
        Some(value::unknown_message("io"@, key))
    }
}

/// The complaints of the section.
pub open spec fn io_errors() -> spec_fn(Seq<char>, Seq<char>) -> Option<Seq<char>> {
    |key: Seq<char>, value: Seq<char>| io_error(key, value)
}

fn check_chunk(key: &str, value: &str) -> (message: Option<String>)
    ensures
        match chunk_error(key@, value@) {
            Some(text) => message matches Some(m) && m@ == text,
            None => message is None,
        },
{
    match ByteSize::parse("io", key, value) {
        Err(message) => Some(message),
        Ok(size) => if size.get() == 0 {
            let mut message: String = "invalid io.".to_owned();
            message.append(key);
            message.append("='0': expected a positive size");
            Some(message)
        } else {
            None
        },
    }
}

fn check_entry(key: &str, value: &str) -> (message: Option<String>)
    ensures
        match io_error(key@, value@) {
            Some(text) => message matches Some(m) && m@ == text,
            None => message is None,
        },
{
    if text_eq(key, "read.concurrent") || text_eq(key, "write.concurrent") || text_eq(
        key,
        "concurrent_limit",
    ) {
        positive_usize("io", key, value).err()
    } else if text_eq(key, "read.chunk_size") || text_eq(key, "write.chunk_size") {
        check_chunk(key, value)
    } else {
        Some(unknown("io", key))
    }
}

impl IoConfig {
    /// Whether this is what a section without complaint configures.
    pub open spec fn reads(self, section: Map<Seq<char>, Seq<char>>) -> bool {
        &&& value::positive_view(self.read.concurrent) == section::positive_given(
            section,
            "read.concurrent"@,
        )
        &&& value::size_view(self.read.chunk_size) == section::size_given(
            section,
            "read.chunk_size"@,
        )
        &&& value::positive_view(self.write.concurrent) == section::positive_given(
            section,
            "write.concurrent"@,
        )
        &&& value::size_view(self.write.chunk_size) == section::size_given(
            section,
            "write.chunk_size"@,
        )
        &&& value::positive_view(self.concurrent_limit) == section::positive_given(
            section,
            "concurrent_limit"@,
        )
    }

    /// The configuration of a section.
    pub fn parse(values: &TextMap<String>) -> (config: Result<IoConfig, String>)
        requires
            values.wf(),
        ensures
            match complaint::complaint(complaint::entries(values), io_errors()) {
                Some(message) => config matches Err(e) && e@ == message,
                None => config matches Ok(c) && c.reads(complaint::entries(values)),
            },
    {
        let ghost rows = values.rows();
        proof {
            complaint::lemma_complaint(values, io_errors());
        }
        let mut i: usize = 0;
        while i < values.len()
            invariant
                rows == values.rows(),
                values.wf(),
                i <= rows.len(),
                complaint::first_error(rows.take(i as int), io_errors()) is None,
            decreases rows.len() - i,
        {
            proof {
                complaint::lemma_first_error_step(rows, i as int, io_errors());
            }
            match check_entry(values.key(i).as_str(), values.value(i).as_str()) {
                Some(message) => {
                    proof {
                        complaint::lemma_first_error_prefix(rows, i + 1, io_errors());
                        complaint::lemma_complaint(values, io_errors());
                    }
                    return Err(message);
                },
                None => {},
            }
            i += 1;
        }
        assert(rows.take(i as int) =~= rows);
        Ok(
            IoConfig {
                read: DirectionConfig {
                    concurrent: positive_at(values, "read.concurrent"),
                    chunk_size: size_at(values, "read.chunk_size"),
                },
                write: DirectionConfig {
                    concurrent: positive_at(values, "write.concurrent"),
                    chunk_size: size_at(values, "write.chunk_size"),
                },
                concurrent_limit: positive_at(values, "concurrent_limit"),
            },
        )
    }

    /// The layer for the concurrency ceiling.
    pub fn apply_layer(&self) -> (layer: Option<Layer>)
        ensures
            match self.concurrent_limit {
                Some(limit) => layer matches Some(Layer::ConcurrentLimit(n)) && n == limit@,
                None => layer is None,
            },
    {
        match self.concurrent_limit {
            Some(limit) => Some(Layer::ConcurrentLimit(limit.get())),
            None => None,
        }
    }

    /// The bytes per read request.
    pub fn read_chunk(&self) -> (bytes: Option<usize>)
        ensures
            bytes is Some <==> self.read.chunk_size is Some,
            bytes matches Some(b) ==> Some(b as nat) == value::size_view(self.read.chunk_size),
    {
        match self.read.chunk_size {
            Some(size) => Some(size.get()),
            None => None,
        }
    }

    /// The bytes per write request.
    pub fn write_chunk(&self) -> (bytes: Option<usize>)
        ensures
            bytes is Some <==> self.write.chunk_size is Some,
            bytes matches Some(b) ==> Some(b as nat) == value::size_view(self.write.chunk_size),
    {
        match self.write.chunk_size {
            Some(size) => Some(size.get()),
            None => None,
        }
    }
}

} // verus!
