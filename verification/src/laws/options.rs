//! Options that are read leniently.

use vstd::prelude::*;

use crate::config::layer::Layer;
use crate::ffi;
use crate::io;
use crate::io::IoOptions;
use crate::laws::config::last_value;
use crate::layers;
use crate::text;

verus! {

/// The number that a text spells, or zero.
pub open spec fn number_or_zero(value: Option<Seq<char>>) -> nat {
    match value {
        Some(text) => match text::unsigned(text, usize::MAX as nat) {
            Some(number) => number,
            None => 0,
        },
        None => 0,
    }
}

/// The last number is read from the last value.
pub proof fn lemma_last_number(values: Seq<(String, String)>, key: Seq<char>)
    ensures
        io::last_number(ffi::pair_views(values), key) == number_or_zero(last_value(values, key)),
    decreases values.len(),
{
    let options = ffi::pair_views(values);
    if values.len() > 0 {
        assert(ffi::pair_views(values.drop_last()) =~= options.drop_last());
        assert(options.last() == (values.last().0@, values.last().1@));
        lemma_last_number(values.drop_last(), key);
    }
}

/// Plain options tune reading and writing under their own names.  The last value
/// counts; one that is no number counts as unset.
pub proof fn law_plain_options_tune_their_direction(
    values: Vec<(String, String)>,
    io: IoOptions,
)
    requires
        call_ensures(IoOptions::from_opts, (&values,), io),
    ensures
        io.read.concurrent == number_or_zero(last_value(values@, "io.read.concurrent"@)),
        io.read.chunk == number_or_zero(last_value(values@, "io.read.chunk"@)),
        io.write.concurrent == number_or_zero(last_value(values@, "io.write.concurrent"@)),
        io.write.chunk == number_or_zero(last_value(values@, "io.write.chunk"@)),
{
    lemma_last_number(values@, "io.read.concurrent"@);
    lemma_last_number(values@, "io.read.chunk"@);
    lemma_last_number(values@, "io.write.concurrent"@);
    lemma_last_number(values@, "io.write.chunk"@);
}

/// What is unset falls back to the same setting of the defaults, and what is set
/// stays.
pub proof fn law_unset_options_fall_back(own: IoOptions, base: IoOptions, merged: IoOptions)
    requires
        call_ensures(IoOptions::with_defaults, (own, &base), merged),
    ensures
        own.read.concurrent > 0 ==> merged.read.concurrent == own.read.concurrent,
        own.read.concurrent == 0 ==> merged.read.concurrent == base.read.concurrent,
        own.read.chunk > 0 ==> merged.read.chunk == own.read.chunk,
        own.read.chunk == 0 ==> merged.read.chunk == base.read.chunk,
        own.write.concurrent > 0 ==> merged.write.concurrent == own.write.concurrent,
        own.write.concurrent == 0 ==> merged.write.concurrent == base.write.concurrent,
        own.write.chunk > 0 ==> merged.write.chunk == own.write.chunk,
        own.write.chunk == 0 ==> merged.write.chunk == base.write.chunk,
{
}

/// The first value that options give for a key.
pub open spec fn first_value(values: Seq<(String, String)>, key: Seq<char>) -> Option<Seq<char>>
    decreases values.len(),
{
    if values.len() == 0 {
        None
    } else if values[0].0@ == key {
        Some(values[0].1@)
    } else {
        first_value(values.drop_first(), key)
    }
}

proof fn lemma_first_value(values: Seq<(String, String)>, key: Seq<char>)
    ensures
        layers::first_given(ffi::pair_views(values), key) == first_value(values, key),
    decreases values.len(),
{
    let options = ffi::pair_views(values);
    if values.len() > 0 {
        assert(ffi::pair_views(values.drop_first()) =~= options.drop_first());
        lemma_first_value(values.drop_first(), key);
    }
}

/// The first value given for a key is the one that is got.
pub proof fn law_first_values_are_got(
    values: Vec<(String, String)>,
    key: &str,
    value: Option<&String>,
)
    requires
        call_ensures(layers::get, (&values, key), value),
    ensures
        text::optional_ref(value) == first_value(values@, key@),
{
    lemma_first_value(values@, key@);
}

/// The number that a value spells, where it spells one of at most `max`.
pub open spec fn number_in(value: Option<Seq<char>>, max: nat) -> Option<nat> {
    match value {
        Some(text) => text::unsigned(text, max),
        None => None,
    }
}

/// Whether `nanos` is a number of units of so many nanoseconds, or both are missing.
pub open spec fn is_time(nanos: Option<u128>, number: Option<nat>, unit: nat) -> bool {
    &&& nanos is Some <==> number is Some
    &&& nanos is Some ==> nanos->0 == number->0 * unit
}

/// Whether a value switches something on.
pub open spec fn says_yes(value: Option<Seq<char>>) -> bool {
    value == Some("true"@) || value == Some("1"@)
}

/// Numbers of 64 bits fit their nanoseconds.
proof fn lemma_scaled(number: Option<nat>, unit: nat)
    requires
        unit <= 1_000_000_000,
        number matches Some(n) ==> n <= u64::MAX,
    ensures
        is_time(layers::scaled(number, unit), number, unit),
{
    if number is Some {
        let n = number->0;
        assert(n * unit <= 0xffff_ffff_ffff_ffff * 1_000_000_000) by (nonlinear_arith)
            requires
                n <= 0xffff_ffff_ffff_ffff,
                unit <= 1_000_000_000,
        ;
    }
}

/// The plain retry layer: delays are given in milliseconds, each bound under its own
/// name.
pub proof fn law_plain_retries(
    values: Vec<(String, String)>,
    factor: Option<u32>,
    disk_tier: bool,
    layers: Vec<Layer>,
    i: int,
)
    requires
        call_ensures(layers::apply_layers, (&values, factor, disk_tier), Some(layers)),
        0 <= i < layers@.len(),
        layers@[i] is Retry,
    ensures
        ({
            let layer = layers@[i];
            &&& is_time(
                layer->Retry_min_delay,
                number_in(first_value(values@, "retry.min_delay_ms"@), u64::MAX as nat),
                1_000_000,
            )
            &&& is_time(
                layer->Retry_max_delay,
                number_in(first_value(values@, "retry.max_delay_ms"@), u64::MAX as nat),
                1_000_000,
            )
            &&& layer->Retry_max_times is Some <==> number_in(
                first_value(values@, "retry.max_times"@),
                usize::MAX as nat,
            ) is Some
            &&& layer->Retry_max_times is Some ==> layer->Retry_max_times->0 == number_in(
                first_value(values@, "retry.max_times"@),
                usize::MAX as nat,
            )->0
            &&& layer->Retry_factor == match first_value(values@, "retry.factor"@) {
                Some(_) => factor,
                None => None,
            }
            &&& layer->Retry_jitter <==> says_yes(first_value(values@, "retry.jitter"@))
        }),
{
    lemma_first_value(values@, "retry.min_delay_ms"@);
    lemma_first_value(values@, "retry.max_delay_ms"@);
    lemma_first_value(values@, "retry.max_times"@);
    lemma_first_value(values@, "retry.factor"@);
    lemma_first_value(values@, "retry.jitter"@);
    lemma_scaled(
        number_in(first_value(values@, "retry.min_delay_ms"@), u64::MAX as nat),
        1_000_000,
    );
    lemma_scaled(
        number_in(first_value(values@, "retry.max_delay_ms"@), u64::MAX as nat),
        1_000_000,
    );
}

/// The plain timeout layer: each timeout is given in seconds, under its own name.
pub proof fn law_plain_timeouts(
    values: Vec<(String, String)>,
    factor: Option<u32>,
    disk_tier: bool,
    layers: Vec<Layer>,
    i: int,
)
    requires
        call_ensures(layers::apply_layers, (&values, factor, disk_tier), Some(layers)),
        0 <= i < layers@.len(),
        layers@[i] is Timeout,
    ensures
        is_time(
            layers@[i]->Timeout_operation,
            number_in(first_value(values@, "timeout.seconds"@), u64::MAX as nat),
            1_000_000_000,
        ),
        is_time(
            layers@[i]->Timeout_io,
            number_in(first_value(values@, "timeout.io_seconds"@), u64::MAX as nat),
            1_000_000_000,
        ),
{
    lemma_first_value(values@, "timeout.seconds"@);
    lemma_first_value(values@, "timeout.io_seconds"@);
    lemma_scaled(
        number_in(first_value(values@, "timeout.seconds"@), u64::MAX as nat),
        1_000_000_000,
    );
    lemma_scaled(
        number_in(first_value(values@, "timeout.io_seconds"@), u64::MAX as nat),
        1_000_000_000,
    );
}

/// The plain ceiling is the number given for it.
pub proof fn law_plain_ceilings(
    values: Vec<(String, String)>,
    factor: Option<u32>,
    disk_tier: bool,
    layers: Vec<Layer>,
    i: int,
)
    requires
        call_ensures(layers::apply_layers, (&values, factor, disk_tier), Some(layers)),
        0 <= i < layers@.len(),
        layers@[i] is ConcurrentLimit,
    ensures
        number_in(first_value(values@, "concurrent_limit"@), usize::MAX as nat) == Some(
            layers@[i]->ConcurrentLimit_0 as nat,
        ),
{
    lemma_first_value(values@, "concurrent_limit"@);
}

/// Whether `bytes` is a number of mebibytes, at least one of them, or a default where
/// a value spells none.
pub open spec fn is_mebibytes(bytes: nat, value: Option<Seq<char>>, default: nat) -> bool {
    bytes == 0x10_0000 * match number_in(value, usize::MAX as nat) {
        Some(number) => if number == 0 {
            1
        } else {
            number
        },
        None => default,
    }
}

/// The plain cache: sizes are given in mebibytes, each under its own name, and it
/// lives on disk where a path is given and there is such a tier.
pub proof fn law_plain_caches(
    values: Vec<(String, String)>,
    factor: Option<u32>,
    disk_tier: bool,
    layers: Vec<Layer>,
    i: int,
)
    requires
        call_ensures(layers::apply_layers, (&values, factor, disk_tier), Some(layers)),
        0 <= i < layers@.len(),
        layers@[i] is Cache,
    ensures
        ({
            let layer = layers@[i]->Cache_0;
            let path = first_value(values@, "foyer.disk_path"@);
            &&& is_mebibytes(
                layer.memory_size as nat,
                first_value(values@, "foyer.memory_mb"@),
                256,
            )
            &&& layer.shards == 4
            &&& layer.admits is None
            &&& layer.disk is Some <==> disk_tier && path is Some
            &&& layer.disk matches Some(disk) ==> {
                &&& Some(disk.path@) == path
                &&& disk.namespace is None
                &&& is_mebibytes(disk.size as nat, first_value(values@, "foyer.disk_mb"@), 1024)
                &&& is_mebibytes(
                    disk.block_size as nat,
                    first_value(values@, "foyer.block_mb"@),
                    4,
                )
            }
        }),
{
    lemma_first_value(values@, "foyer.memory_mb"@);
    lemma_first_value(values@, "foyer.disk_path"@);
    lemma_first_value(values@, "foyer.disk_mb"@);
    lemma_first_value(values@, "foyer.block_mb"@);
    lemma_plain_cache(ffi::pair_views(values@), factor, disk_tier, layers@, i);
}

proof fn lemma_plain_cache(
    options: Seq<(Seq<char>, Seq<char>)>,
    factor: Option<u32>,
    disk_tier: bool,
    layers: Seq<Layer>,
    i: int,
)
    requires
        layers::are_layers(layers, options, factor, disk_tier),
        0 <= i < layers.len(),
        layers[i] is Cache,
    ensures
        layers::is_cache(layers[i]->Cache_0, options, disk_tier),
{
}

/// Which layers plain options ask for, and in which order they come: retries,
/// timeouts, the ceiling, the cache.
pub proof fn law_plain_layers_are_asked_for(
    values: Vec<(String, String)>,
    factor: Option<u32>,
    disk_tier: bool,
    layers: Vec<Layer>,
)
    requires
        call_ensures(layers::apply_layers, (&values, factor, disk_tier), Some(layers)),
    ensures
        (exists|i: int| 0 <= i < layers@.len() && (#[trigger] layers@[i]) is Retry)
            <==> first_value(values@, "retry.max_times"@) is Some || first_value(
            values@,
            "retry.factor"@,
        ) is Some || first_value(values@, "retry.jitter"@) is Some || first_value(
            values@,
            "retry.min_delay_ms"@,
        ) is Some || first_value(values@, "retry.max_delay_ms"@) is Some,
        (exists|i: int| 0 <= i < layers@.len() && (#[trigger] layers@[i]) is Timeout)
            <==> first_value(values@, "timeout.seconds"@) is Some || first_value(
            values@,
            "timeout.io_seconds"@,
        ) is Some,
        (exists|i: int| 0 <= i < layers@.len() && (#[trigger] layers@[i]) is ConcurrentLimit)
            <==> number_in(first_value(values@, "concurrent_limit"@), usize::MAX as nat) is Some,
        (exists|i: int| 0 <= i < layers@.len() && (#[trigger] layers@[i]) is Cache) <==> says_yes(
            first_value(values@, "foyer.enable"@),
        ),
        forall|i: int, j: int|
            #![trigger layers@[i], layers@[j]]
            0 <= i < j < layers@.len() ==> !(layers@[j] is Retry) && !(layers@[i] is Cache) && (
            layers@[j] is Timeout ==> layers@[i] is Retry) && (layers@[i] is ConcurrentLimit
                ==> layers@[j] is Cache),
{
    lemma_first_value(values@, "retry.max_times"@);
    lemma_first_value(values@, "retry.factor"@);
    lemma_first_value(values@, "retry.jitter"@);
    lemma_first_value(values@, "retry.min_delay_ms"@);
    lemma_first_value(values@, "retry.max_delay_ms"@);
    lemma_first_value(values@, "timeout.seconds"@);
    lemma_first_value(values@, "timeout.io_seconds"@);
    lemma_first_value(values@, "concurrent_limit"@);
    lemma_first_value(values@, "foyer.enable"@);
    lemma_plain_order(ffi::pair_views(values@), factor, disk_tier, layers@);
}

proof fn lemma_plain_order(
    options: Seq<(Seq<char>, Seq<char>)>,
    factor: Option<u32>,
    disk_tier: bool,
    layers: Seq<Layer>,
)
    requires
        layers::are_layers(layers, options, factor, disk_tier),
    ensures
        (exists|i: int| 0 <= i < layers.len() && (#[trigger] layers[i]) is Retry)
            <==> layers::retry_layer(options, factor) is Some,
        (exists|i: int| 0 <= i < layers.len() && (#[trigger] layers[i]) is Timeout)
            <==> layers::timeout_layer(options) is Some,
        (exists|i: int| 0 <= i < layers.len() && (#[trigger] layers[i]) is ConcurrentLimit)
            <==> layers::limit_layer(options) is Some,
        (exists|i: int| 0 <= i < layers.len() && (#[trigger] layers[i]) is Cache)
            <==> layers::switched_on(options, "foyer.enable"@),
        forall|i: int, j: int|
            #![trigger layers[i], layers[j]]
            0 <= i < j < layers.len() ==> !(layers[j] is Retry) && !(layers[i] is Cache) && (
            layers[j] is Timeout ==> layers[i] is Retry) && (layers[i] is ConcurrentLimit
                ==> layers[j] is Cache),
{
    let retry = layers::present(layers::retry_layer(options, factor) is Some);
    let timeout = layers::present(layers::timeout_layer(options) is Some);
    let limit = layers::present(layers::limit_layer(options) is Some);
    if layers::retry_layer(options, factor) is Some {
        assert(layers[0] is Retry);
    }
    if layers::timeout_layer(options) is Some {
        assert(layers[retry] is Timeout);
    }
    if layers::limit_layer(options) is Some {
        assert(layers[retry + timeout] is ConcurrentLimit);
    }
    if layers::switched_on(options, "foyer.enable"@) {
        assert(layers[retry + timeout + limit] is Cache);
    }
}

/// Whether a number of mebibytes is more than the machine can count.
pub open spec fn is_too_large(value: Option<Seq<char>>) -> bool {
    number_in(value, usize::MAX as nat) matches Some(number) && number * 0x10_0000 > usize::MAX
}

/// Plain options are refused exactly where a cache that they ask for is larger than the
/// machine can count.
pub proof fn law_plain_options_are_refused(
    values: Vec<(String, String)>,
    factor: Option<u32>,
    disk_tier: bool,
    outcome: Option<Vec<Layer>>,
)
    requires
        call_ensures(layers::apply_layers, (&values, factor, disk_tier), outcome),
    ensures
        outcome is None <==> says_yes(first_value(values@, "foyer.enable"@)) && (is_too_large(
            first_value(values@, "foyer.memory_mb"@),
        ) || (disk_tier && first_value(values@, "foyer.disk_path"@) is Some && (is_too_large(
            first_value(values@, "foyer.disk_mb"@),
        ) || is_too_large(first_value(values@, "foyer.block_mb"@))))),
{
    lemma_first_value(values@, "foyer.enable"@);
    lemma_first_value(values@, "foyer.memory_mb"@);
    lemma_first_value(values@, "foyer.disk_path"@);
    lemma_first_value(values@, "foyer.disk_mb"@);
    lemma_first_value(values@, "foyer.block_mb"@);
}

} // verus!
