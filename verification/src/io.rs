//! Reader and writer tuning by plain options.

use vstd::prelude::*;

use crate::ffi;
use crate::text;
use crate::text::{parse_unsigned, text_eq};

verus! {

/// Tuning of one direction.  Zero leaves a field to the service.
#[derive(Clone, Copy, Debug, PartialEq, Eq, Structural)]
pub struct DirOptions {
    pub concurrent: usize,
    pub chunk: usize,
}

/// Tuning of both directions.
#[derive(Clone, Copy, Debug, PartialEq, Eq, Structural)]
pub struct IoOptions {
    pub read: DirOptions,
    pub write: DirOptions,
}

/// The number that a value spells, or zero.
pub open spec fn lenient(value: Seq<char>) -> nat {
    match text::unsigned(value, usize::MAX as nat) {
        Some(n) => n,
        None => 0,
    }
}

/// The last number given for a key, or zero.
pub open spec fn last_number(options: Seq<(Seq<char>, Seq<char>)>, key: Seq<char>) -> nat
    decreases options.len(),
{
    if options.len() == 0 {
        0
    } else if options.last().0 == key {
        lenient(options.last().1)
    } else {
        last_number(options.drop_last(), key)
    }
}

fn lenient_number(value: &str) -> (number: usize)
    ensures
        number == lenient(value@),
{
    match parse_unsigned(value, usize::MAX as u64) {
        Some(number) => number as usize,
        None => 0,
    }
}

impl IoOptions {
    /// Nothing tuned.
    pub fn unset() -> (io: IoOptions)
        ensures
            io == (IoOptions {
                read: DirOptions { concurrent: 0, chunk: 0 },
                write: DirOptions { concurrent: 0, chunk: 0 },
            }),
    {
        IoOptions {
            read: DirOptions { concurrent: 0, chunk: 0 },
            write: DirOptions { concurrent: 0, chunk: 0 },
        }
    }

    /// Whether this is the tuning among options.
    pub open spec fn given_by(self, options: Seq<(Seq<char>, Seq<char>)>) -> bool {
        &&& self.read.concurrent == last_number(options, "io.read.concurrent"@)
        &&& self.read.chunk == last_number(options, "io.read.chunk"@)
        &&& self.write.concurrent == last_number(options, "io.write.concurrent"@)
        &&& self.write.chunk == last_number(options, "io.write.chunk"@)
    }

    /// The tuning among options.  Other keys are ignored, and a malformed value
    /// leaves its field unset.
    pub fn from_opts(opts: &Vec<(String, String)>) -> (io: IoOptions)
        ensures
            io.given_by(ffi::pair_views(opts@)),
    {
        let ghost options = ffi::pair_views(opts@);
        let mut io: IoOptions = IoOptions::unset();
        let mut i: usize = 0;
        proof {
            reveal_strlit("io.read.concurrent");
            reveal_strlit("io.read.chunk");
            reveal_strlit("io.write.concurrent");
            reveal_strlit("io.write.chunk");
        }
        while i < opts.len()
            invariant
                options == ffi::pair_views(opts@),
                i <= opts@.len(),
                "io.read.concurrent"@.len() == 18,
                "io.read.chunk"@.len() == 13,
                "io.write.concurrent"@.len() == 19,
                "io.write.chunk"@.len() == 14,
                io.read.concurrent == last_number(options.take(i as int), "io.read.concurrent"@),
                io.read.chunk == last_number(options.take(i as int), "io.read.chunk"@),
                io.write.concurrent == last_number(options.take(i as int), "io.write.concurrent"@),
                io.write.chunk == last_number(options.take(i as int), "io.write.chunk"@),
            decreases opts@.len() - i,
        {
            assert(options.take(i + 1).drop_last() =~= options.take(i as int));
            assert(options.take(i + 1).last() == options[i as int]);
            let key: &str = opts[i].0.as_str();
            let number: usize = lenient_number(opts[i].1.as_str());
            if text_eq(key, "io.read.concurrent") {
                io.read.concurrent = number;
            } else if text_eq(key, "io.read.chunk") {
                io.read.chunk = number;
            } else if text_eq(key, "io.write.concurrent") {
                io.write.concurrent = number;
            } else if text_eq(key, "io.write.chunk") {
                io.write.chunk = number;
            }
            i += 1;
        }
        assert(options.take(i as int) =~= options);
        io
    }

    /// Options with unset fields taken from a base.
    pub open spec fn over(self, base: IoOptions) -> IoOptions {
        IoOptions {
            read: DirOptions {
                concurrent: first_set(self.read.concurrent, base.read.concurrent),
                chunk: first_set(self.read.chunk, base.read.chunk),
            },
            write: DirOptions {
                concurrent: first_set(self.write.concurrent, base.write.concurrent),
                chunk: first_set(self.write.chunk, base.write.chunk),
            },
        }
    }

    /// Fill unset fields from `base`.  Fields that are set take precedence.
    pub fn with_defaults(self, base: &IoOptions) -> (io: IoOptions)
        ensures
            io == self.over(*base),
    {
        let mut io: IoOptions = self;
        if io.read.concurrent == 0 {
            io.read.concurrent = base.read.concurrent;
        }
        if io.read.chunk == 0 {
            io.read.chunk = base.read.chunk;
        }
        if io.write.concurrent == 0 {
            io.write.concurrent = base.write.concurrent;
        }
        if io.write.chunk == 0 {
            io.write.chunk = base.write.chunk;
        }
        io
    }
}

/// The first of two numbers that is set.
pub open spec fn first_set(a: usize, b: usize) -> usize {
    if a == 0 {
        b
    } else {
        a
    }
}

/// Filling in defaults changes no field that is set, is idempotent, and does
/// nothing where the defaults are unset.
pub proof fn law_defaults_fill_gaps(io: IoOptions, base: IoOptions)
    ensures
        io.read.concurrent != 0 ==> io.over(base).read.concurrent == io.read.concurrent,
        io.read.chunk != 0 ==> io.over(base).read.chunk == io.read.chunk,
        io.write.concurrent != 0 ==> io.over(base).write.concurrent == io.write.concurrent,
        io.write.chunk != 0 ==> io.over(base).write.chunk == io.write.chunk,
        io.over(base).over(base) == io.over(base),
        io.over(
            IoOptions {
                read: DirOptions { concurrent: 0, chunk: 0 },
                write: DirOptions { concurrent: 0, chunk: 0 },
            },
        ) == io,
{
}

/// Keys that tune nothing are ignored.
pub proof fn law_unknown_keys_tune_nothing(
    io: IoOptions,
    options: Seq<(Seq<char>, Seq<char>)>,
    key: Seq<char>,
    value: Seq<char>,
)
    requires
        key != "io.read.concurrent"@,
        key != "io.read.chunk"@,
        key != "io.write.concurrent"@,
        key != "io.write.chunk"@,
    ensures
        io.given_by(options.push((key, value))) == io.given_by(options),
{
    assert(options.push((key, value)).drop_last() =~= options);
}

} // verus!
