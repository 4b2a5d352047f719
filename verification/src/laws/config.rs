//! Options and the layers that come of them.

use vstd::prelude::*;

use crate::complaint;
use crate::config;
use crate::config::cache;
use crate::config::io;
use crate::config::layer::Layer;
use crate::config::retry;
use crate::config::retry::RetryConfig;
use crate::config::section;
use crate::config::timeout;
use crate::config::timeout::TimeoutConfig;
use crate::config::value;
use crate::config::OperatorConfig;
use crate::ffi;
use crate::text;
use crate::units;

verus! {

/// The last value that options give for a full key.
pub open spec fn last_value(values: Seq<(String, String)>, key: Seq<char>) -> Option<Seq<char>>
    decreases values.len(),
{
    if values.len() == 0 {
        None
    } else if values.last().0@ == key {
        Some(values.last().1@)
    } else {
        last_value(values.drop_last(), key)
    }
}

/// Whether `number` is what a value spells, or nothing where there is no value.
pub open spec fn spells_number(value: Option<Seq<char>>, number: Option<nat>) -> bool {
    match value {
        Some(text) => number is Some && number == text::unsigned(text, usize::MAX as nat),
        None => number is None,
    }
}

/// Whether `bytes` is what a value spells, or nothing where there is no value.
pub open spec fn spells_size(value: Option<Seq<char>>, bytes: Option<nat>) -> bool {
    match value {
        Some(text) => bytes is Some && units::size_of_text(text) == Some(bytes->0 as u64) && bytes->0
            <= usize::MAX,
        None => bytes is None,
    }
}

/// Whether `nanos` is what a value spells, or nothing where there is no value.
pub open spec fn spells_duration(value: Option<Seq<char>>, nanos: Option<u128>) -> bool {
    match value {
        Some(text) => nanos is Some && nanos == units::duration_of(text),
        None => nanos is None,
    }
}

/// A full key is a section's name, a dot and a key, where no name holds a dot.
proof fn lemma_split(full: Seq<char>, name: Seq<char>, key: Seq<char>)
    requires
        !name.contains('.'),
    ensures
        config::split_key(full) == Some((name, key)) <==> full == name + seq!['.'] + key,
{
    let dot = seq!['.'];
    text::lemma_first_index_of(full, dot);
    if full == name + dot + key {
        let n = name.len() as int;
        assert(full.subrange(n, n + 1) =~= dot);
        assert(text::occurs_at(full, dot, n));
        assert forall|j: int| 0 <= j < n implies !(#[trigger] text::occurs_at(full, dot, j)) by {
            if text::occurs_at(full, dot, j) {
                assert(full.subrange(j, j + 1)[0] == '.');
                assert(name[j] == '.');
            }
        }
        text::lemma_first_index_is(full, dot, n);
        assert(full.take(n) =~= name);
        assert(full.skip(n + 1) =~= key);
    }
    if config::split_key(full) == Some((name, key)) {
        let i = text::first_index_of(full, dot)->0;
        assert(full.subrange(i, i + 1)[0] == '.');
        assert(full =~= full.take(i) + dot + full.skip(i + 1));
    }
}

/// What a section has for a key is the last value of the full key.
pub proof fn lemma_given(
    values: Seq<(String, String)>,
    name: Seq<char>,
    key: Seq<char>,
    full: Seq<char>,
)
    requires
        !name.contains('.'),
        full == name + seq!['.'] + key,
    ensures
        section::given(config::section_entries(ffi::pair_views(values), name), key) == last_value(
            values,
            full,
        ),
    decreases values.len(),
{
    let options = ffi::pair_views(values);
    if values.len() > 0 {
        lemma_given(values.drop_last(), name, key, full);
        assert(ffi::pair_views(values.drop_last()) =~= options.drop_last());
        assert(options.last() == (values.last().0@, values.last().1@));
        lemma_split(values.last().0@, name, key);
        match config::split_key(values.last().0@) {
            Some((other, k)) => {
                if other == name && k != key {
                    lemma_split(values.last().0@, name, k);
                }
            },
            None => {},
        }
    }
}

/// What options without complaint give for the keys of a section has no complaint
/// either.
proof fn lemma_accepted(values: Vec<(String, String)>, factor: Option<u32>, key: Seq<char>)
    requires
        config::config_error(ffi::pair_views(values@), factor) is None,
    ensures
        ({
            let options = ffi::pair_views(values@);
            let io = config::section_entries(options, "io"@);
            let retry = config::section_entries(options, "retry"@);
            let timeout = config::section_entries(options, "timeout"@);
            let cache = config::section_entries(options, "cache"@);
            &&& io.dom().contains(key) ==> io::io_error(key, io[key]) is None
            &&& retry.dom().contains(key) ==> retry::retry_error(key, retry[key], factor) is None
            &&& timeout.dom().contains(key) ==> timeout::timeout_error(key, timeout[key]) is None
            &&& cache.dom().contains(key) ==> cache::cache_error(key, cache[key]) is None
        }),
{
    let options = ffi::pair_views(values@);
    let io = config::section_entries(options, "io"@);
    let retry = config::section_entries(options, "retry"@);
    let timeout = config::section_entries(options, "timeout"@);
    let cache = config::section_entries(options, "cache"@);
    if (io.dom().contains(key) && io::io_error(key, io[key]) is Some) || (retry.dom().contains(key)
        && retry::retry_error(key, retry[key], factor) is Some) || (timeout.dom().contains(key)
        && timeout::timeout_error(key, timeout[key]) is Some) || (cache.dom().contains(key)
        && cache::cache_error(key, cache[key]) is Some) {
        config::law_bad_entries_are_refused(options, factor, key);
    }
}

/// A retry layer waits between the bounds of its configuration, the lower one below
/// and the upper one above, and takes the rest from the fields of the same name.
pub proof fn law_retry_layers_keep_their_fields(config: RetryConfig, layer: Layer)
    requires
        call_ensures(RetryConfig::apply, (&config,), layer),
    ensures
        layer matches Layer::Retry { max_times, factor, jitter, min_delay, max_delay } && {
            &&& max_times == config.max_times
            &&& factor == config.factor
            &&& jitter == config.jitter
            &&& min_delay == match config.min_delay {
                Some(delay) => Some(delay@ as u128),
                None => None,
            }
            &&& max_delay == match config.max_delay {
                Some(delay) => Some(delay@ as u128),
                None => None,
            }
        },
{
}

/// The full keys of the section for retries.
pub proof fn lemma_retry_keys()
    ensures
        !"retry"@.contains('.'),
        "retry.max_times"@ == "retry"@ + seq!['.'] + "max_times"@,
        "retry.factor"@ == "retry"@ + seq!['.'] + "factor"@,
        "retry.jitter"@ == "retry"@ + seq!['.'] + "jitter"@,
        "retry.min_delay"@ == "retry"@ + seq!['.'] + "min_delay"@,
        "retry.max_delay"@ == "retry"@ + seq!['.'] + "max_delay"@,
        "min_delay"@ != "max_delay"@,
        "max_times"@ != "max_delay"@,
        "max_times"@ != "min_delay"@,
        "factor"@ != "jitter"@,
        "factor"@.len() == 6,
        "jitter"@.len() == 6,
        "max_times"@.len() == 9,
        "min_delay"@.len() == 9,
        "max_delay"@.len() == 9,
{
    reveal_strlit("retry");
    reveal_strlit("max_times");
    reveal_strlit("factor");
    reveal_strlit("jitter");
    reveal_strlit("min_delay");
    reveal_strlit("max_delay");
    reveal_strlit("retry.max_times");
    reveal_strlit("retry.factor");
    reveal_strlit("retry.jitter");
    reveal_strlit("retry.min_delay");
    reveal_strlit("retry.max_delay");
    assert("retry.max_times"@ =~= "retry"@ + seq!['.'] + "max_times"@);
    assert("retry.factor"@ =~= "retry"@ + seq!['.'] + "factor"@);
    assert("retry.jitter"@ =~= "retry"@ + seq!['.'] + "jitter"@);
    assert("retry.min_delay"@ =~= "retry"@ + seq!['.'] + "min_delay"@);
    assert("retry.max_delay"@ =~= "retry"@ + seq!['.'] + "max_delay"@);
    assert("min_delay"@[1] == 'i' && "max_delay"@[1] == 'a');
    assert("max_times"@[4] == 't' && "max_delay"@[4] == 'd');
    assert("max_times"@[1] == 'a');
    assert("factor"@[0] == 'f' && "jitter"@[0] == 'j');
}

/// Accepted options reach the retry layer under their own names: its lower bound is
/// what `retry.min_delay` spells, its upper bound what `retry.max_delay` spells, and so
/// on, each unset where its key is not given.  Hence no lower bound exceeds its upper
/// bound.
pub proof fn law_retry_options_reach_their_layer(
    values: Vec<(String, String)>,
    namespace: Option<String>,
    bits: Option<u32>,
    config: OperatorConfig,
    layers: Vec<Layer>,
    i: int,
)
    requires
        call_ensures(
            OperatorConfig::parse,
            (&values, namespace, bits),
            Ok::<OperatorConfig, String>(config),
        ),
        call_ensures(OperatorConfig::apply_layers, (&config,), layers),
        0 <= i < layers@.len(),
        layers@[i] is Retry,
    ensures
        ({
            let layer = layers@[i];
            &&& spells_duration(
                last_value(values@, "retry.min_delay"@),
                layer->Retry_min_delay,
            )
            &&& spells_duration(
                last_value(values@, "retry.max_delay"@),
                layer->Retry_max_delay,
            )
            &&& spells_number(
                last_value(values@, "retry.max_times"@),
                value::number_view(layer->Retry_max_times),
            )
            &&& layer->Retry_factor == match last_value(values@, "retry.factor"@) {
                Some(_) => bits,
                None => None,
            }
            &&& layer->Retry_jitter <==> (last_value(values@, "retry.jitter"@) == Some("true"@)
                || last_value(values@, "retry.jitter"@) == Some("1"@))
            &&& layer->Retry_min_delay is Some && layer->Retry_max_delay is Some
                ==> layer->Retry_min_delay->0 <= layer->Retry_max_delay->0
        }),
{
    let options = ffi::pair_views(values@);
    let section = config::section_entries(options, "retry"@);
    lemma_retry_keys();
    lemma_retry_layer(config, layers@, i);
    lemma_given(values@, "retry"@, "min_delay"@, "retry.min_delay"@);
    lemma_given(values@, "retry"@, "max_delay"@, "retry.max_delay"@);
    lemma_given(values@, "retry"@, "max_times"@, "retry.max_times"@);
    lemma_given(values@, "retry"@, "factor"@, "retry.factor"@);
    lemma_given(values@, "retry"@, "jitter"@, "retry.jitter"@);
    lemma_accepted(values, bits, "min_delay"@);
    lemma_accepted(values, bits, "max_delay"@);
    lemma_accepted(values, bits, "max_times"@);
    assert(config::retry_complaint(section, bits) is None);
}

/// The one retry layer is that of the configuration.
proof fn lemma_retry_layer(config: OperatorConfig, layers: Seq<Layer>, i: int)
    requires
        config.stacks(layers),
        0 <= i < layers.len(),
        layers[i] is Retry,
    ensures
        config.retry is Some,
        layers[i] == config.retry->0.layer(),
{
}

proof fn lemma_timeout_keys()
    ensures
        !"timeout"@.contains('.'),
        "timeout.operation_timeout"@ == "timeout"@ + seq!['.'] + "operation_timeout"@,
        "timeout.io_timeout"@ == "timeout"@ + seq!['.'] + "io_timeout"@,
{
    reveal_strlit("timeout");
    reveal_strlit("operation_timeout");
    reveal_strlit("io_timeout");
    reveal_strlit("timeout.operation_timeout");
    reveal_strlit("timeout.io_timeout");
    assert("timeout.operation_timeout"@ =~= "timeout"@ + seq!['.'] + "operation_timeout"@);
    assert("timeout.io_timeout"@ =~= "timeout"@ + seq!['.'] + "io_timeout"@);
}

/// The one timeout layer is that of the configuration.
proof fn lemma_timeout_layer(config: OperatorConfig, layers: Seq<Layer>, i: int)
    requires
        config.stacks(layers),
        0 <= i < layers.len(),
        layers[i] is Timeout,
    ensures
        config.timeout is Some,
        layers[i] == config.timeout->0.layer(),
{
}

/// Accepted options reach the timeout layer under their own names, and no timeout is
/// zero.
pub proof fn law_timeout_options_reach_their_layer(
    values: Vec<(String, String)>,
    namespace: Option<String>,
    bits: Option<u32>,
    config: OperatorConfig,
    layers: Vec<Layer>,
    i: int,
)
    requires
        call_ensures(
            OperatorConfig::parse,
            (&values, namespace, bits),
            Ok::<OperatorConfig, String>(config),
        ),
        call_ensures(OperatorConfig::apply_layers, (&config,), layers),
        0 <= i < layers@.len(),
        layers@[i] is Timeout,
    ensures
        ({
            let layer = layers@[i];
            &&& spells_duration(
                last_value(values@, "timeout.operation_timeout"@),
                layer->Timeout_operation,
            )
            &&& spells_duration(last_value(values@, "timeout.io_timeout"@), layer->Timeout_io)
            &&& layer->Timeout_operation is Some ==> layer->Timeout_operation->0 > 0
            &&& layer->Timeout_io is Some ==> layer->Timeout_io->0 > 0
        }),
{
    lemma_timeout_keys();
    lemma_timeout_layer(config, layers@, i);
    lemma_given(values@, "timeout"@, "operation_timeout"@, "timeout.operation_timeout"@);
    lemma_given(values@, "timeout"@, "io_timeout"@, "timeout.io_timeout"@);
    lemma_accepted(values, bits, "operation_timeout"@);
    lemma_accepted(values, bits, "io_timeout"@);
}

/// A timeout layer keeps the two timeouts of its configuration apart.
pub proof fn law_timeout_layers_keep_their_fields(config: TimeoutConfig, layer: Layer)
    requires
        call_ensures(TimeoutConfig::apply, (&config,), layer),
    ensures
        layer matches Layer::Timeout { operation, io } && {
            &&& operation == match config.operation_timeout {
                Some(timeout) => Some(timeout@ as u128),
                None => None,
            }
            &&& io == match config.io_timeout {
                Some(timeout) => Some(timeout@ as u128),
                None => None,
            }
        },
{
}

proof fn lemma_io_keys()
    ensures
        !"io"@.contains('.'),
        "io.read.concurrent"@ == "io"@ + seq!['.'] + "read.concurrent"@,
        "io.write.concurrent"@ == "io"@ + seq!['.'] + "write.concurrent"@,
        "io.read.chunk_size"@ == "io"@ + seq!['.'] + "read.chunk_size"@,
        "io.write.chunk_size"@ == "io"@ + seq!['.'] + "write.chunk_size"@,
        "io.concurrent_limit"@ == "io"@ + seq!['.'] + "concurrent_limit"@,
        "read.concurrent"@.len() == 15,
        "write.concurrent"@.len() == 16,
        "read.chunk_size"@.len() == 15,
        "write.chunk_size"@.len() == 16,
        "concurrent_limit"@.len() == 16,
        "read.concurrent"@[6] == 'o',
        "write.concurrent"@[7] == 'o',
        "read.chunk_size"@[6] == 'h',
        "write.chunk_size"@[7] == 'h',
        "concurrent_limit"@[7] == 'e',
{
    reveal_strlit("io");
    reveal_strlit("read.concurrent");
    reveal_strlit("write.concurrent");
    reveal_strlit("read.chunk_size");
    reveal_strlit("write.chunk_size");
    reveal_strlit("concurrent_limit");
    reveal_strlit("io.read.concurrent");
    reveal_strlit("io.write.concurrent");
    reveal_strlit("io.read.chunk_size");
    reveal_strlit("io.write.chunk_size");
    reveal_strlit("io.concurrent_limit");
    assert("io.read.concurrent"@ =~= "io"@ + seq!['.'] + "read.concurrent"@);
    assert("io.write.concurrent"@ =~= "io"@ + seq!['.'] + "write.concurrent"@);
    assert("io.read.chunk_size"@ =~= "io"@ + seq!['.'] + "read.chunk_size"@);
    assert("io.write.chunk_size"@ =~= "io"@ + seq!['.'] + "write.chunk_size"@);
    assert("io.concurrent_limit"@ =~= "io"@ + seq!['.'] + "concurrent_limit"@);
}

/// Accepted options tune reading, writing and the shared ceiling under their own
/// names, with positive numbers.
pub proof fn law_io_options_tune_their_direction(
    values: Vec<(String, String)>,
    namespace: Option<String>,
    bits: Option<u32>,
    config: OperatorConfig,
    read_chunk: Option<usize>,
    write_chunk: Option<usize>,
)
    requires
        call_ensures(
            OperatorConfig::parse,
            (&values, namespace, bits),
            Ok::<OperatorConfig, String>(config),
        ),
        call_ensures(io::IoConfig::read_chunk, (&config.io,), read_chunk),
        call_ensures(io::IoConfig::write_chunk, (&config.io,), write_chunk),
    ensures
        spells_number(
            last_value(values@, "io.read.concurrent"@),
            value::positive_view(config.io.read.concurrent),
        ),
        spells_number(
            last_value(values@, "io.write.concurrent"@),
            value::positive_view(config.io.write.concurrent),
        ),
        spells_number(
            last_value(values@, "io.concurrent_limit"@),
            value::positive_view(config.io.concurrent_limit),
        ),
        spells_size(
            last_value(values@, "io.read.chunk_size"@),
            value::number_view(read_chunk),
        ),
        spells_size(
            last_value(values@, "io.write.chunk_size"@),
            value::number_view(write_chunk),
        ),
        config.io.read.concurrent is Some ==> config.io.read.concurrent->0@ > 0,
        config.io.write.concurrent is Some ==> config.io.write.concurrent->0@ > 0,
        config.io.concurrent_limit is Some ==> config.io.concurrent_limit->0@ > 0,
        read_chunk is Some ==> read_chunk->0 > 0,
        write_chunk is Some ==> write_chunk->0 > 0,
{
    lemma_io_keys();
    lemma_given(values@, "io"@, "read.concurrent"@, "io.read.concurrent"@);
    lemma_given(values@, "io"@, "write.concurrent"@, "io.write.concurrent"@);
    lemma_given(values@, "io"@, "read.chunk_size"@, "io.read.chunk_size"@);
    lemma_given(values@, "io"@, "write.chunk_size"@, "io.write.chunk_size"@);
    lemma_given(values@, "io"@, "concurrent_limit"@, "io.concurrent_limit"@);
    lemma_accepted(values, bits, "read.concurrent"@);
    lemma_accepted(values, bits, "write.concurrent"@);
    lemma_accepted(values, bits, "read.chunk_size"@);
    lemma_accepted(values, bits, "write.chunk_size"@);
    lemma_accepted(values, bits, "concurrent_limit"@);
}

/// The ceiling of concurrent requests is what `io.concurrent_limit` spells.
pub proof fn law_ceilings_reach_their_layer(
    values: Vec<(String, String)>,
    namespace: Option<String>,
    bits: Option<u32>,
    config: OperatorConfig,
    layers: Vec<Layer>,
    i: int,
)
    requires
        call_ensures(
            OperatorConfig::parse,
            (&values, namespace, bits),
            Ok::<OperatorConfig, String>(config),
        ),
        call_ensures(OperatorConfig::apply_layers, (&config,), layers),
        0 <= i < layers@.len(),
        layers@[i] is ConcurrentLimit,
    ensures
        spells_number(
            last_value(values@, "io.concurrent_limit"@),
            Some(layers@[i]->ConcurrentLimit_0 as nat),
        ),
        layers@[i]->ConcurrentLimit_0 > 0,
{
    lemma_io_keys();
    lemma_given(values@, "io"@, "concurrent_limit"@, "io.concurrent_limit"@);
    lemma_accepted(values, bits, "concurrent_limit"@);
    lemma_limit_layer(config, layers@, i);
}

/// The one ceiling is that of the configuration.
proof fn lemma_limit_layer(config: OperatorConfig, layers: Seq<Layer>, i: int)
    requires
        config.stacks(layers),
        0 <= i < layers.len(),
        layers[i] is ConcurrentLimit,
    ensures
        config.io.concurrent_limit is Some,
        layers[i]->ConcurrentLimit_0 == config.io.concurrent_limit->0@,
{
}

/// Whether `bytes` is what a value spells, or a default where there is no value.
pub open spec fn spells_size_or(value: Option<Seq<char>>, default: nat, bytes: nat) -> bool {
    match value {
        Some(_) => spells_size(value, Some(bytes)),
        None => bytes == default,
    }
}

proof fn lemma_cache_keys()
    ensures
        !"cache"@.contains('.'),
        "cache.memory_size"@ == "cache"@ + seq!['.'] + "memory_size"@,
        "cache.disk_path"@ == "cache"@ + seq!['.'] + "disk_path"@,
        "cache.disk_size"@ == "cache"@ + seq!['.'] + "disk_size"@,
        "cache.block_size"@ == "cache"@ + seq!['.'] + "block_size"@,
        "cache.min_file_size"@ == "cache"@ + seq!['.'] + "min_file_size"@,
        "cache.max_file_size"@ == "cache"@ + seq!['.'] + "max_file_size"@,
        "cache.shards"@ == "cache"@ + seq!['.'] + "shards"@,
        "memory_size"@.len() == 11,
        "disk_path"@.len() == 9,
        "disk_size"@.len() == 9,
        "block_size"@.len() == 10,
        "min_file_size"@.len() == 13,
        "max_file_size"@.len() == 13,
        "shards"@.len() == 6,
        "disk_path"@[5] == 'p',
        "disk_size"@[5] == 's',
        "min_file_size"@[1] == 'i',
        "max_file_size"@[1] == 'a',
{
    reveal_strlit("cache");
    reveal_strlit("memory_size");
    reveal_strlit("disk_path");
    reveal_strlit("disk_size");
    reveal_strlit("block_size");
    reveal_strlit("min_file_size");
    reveal_strlit("max_file_size");
    reveal_strlit("shards");
    reveal_strlit("cache.memory_size");
    reveal_strlit("cache.disk_path");
    reveal_strlit("cache.disk_size");
    reveal_strlit("cache.block_size");
    reveal_strlit("cache.min_file_size");
    reveal_strlit("cache.max_file_size");
    reveal_strlit("cache.shards");
    assert("cache.memory_size"@ =~= "cache"@ + seq!['.'] + "memory_size"@);
    assert("cache.disk_path"@ =~= "cache"@ + seq!['.'] + "disk_path"@);
    assert("cache.disk_size"@ =~= "cache"@ + seq!['.'] + "disk_size"@);
    assert("cache.block_size"@ =~= "cache"@ + seq!['.'] + "block_size"@);
    assert("cache.min_file_size"@ =~= "cache"@ + seq!['.'] + "min_file_size"@);
    assert("cache.max_file_size"@ =~= "cache"@ + seq!['.'] + "max_file_size"@);
    assert("cache.shards"@ =~= "cache"@ + seq!['.'] + "shards"@);
}

/// The one cache is that of the configuration.
proof fn lemma_cache_layer(config: OperatorConfig, layers: Seq<Layer>, i: int)
    requires
        config.stacks(layers),
        0 <= i < layers.len(),
        layers[i] is Cache,
    ensures
        config.cache is Some,
        config.cache->0.builds(text::optional_text(config.cache_namespace), layers[i]->Cache_0),
{
}

/// Accepted options size the cache under their own names.  In memory it holds 256 MiB
/// in 4 shards unless told otherwise.  It admits objects from a smallest size on, none
/// unless told otherwise, up to a largest one if there is such an option.
pub proof fn law_cache_options_reach_their_layer(
    values: Vec<(String, String)>,
    namespace: Option<String>,
    bits: Option<u32>,
    config: OperatorConfig,
    layers: Vec<Layer>,
    i: int,
)
    requires
        call_ensures(
            OperatorConfig::parse,
            (&values, namespace, bits),
            Ok::<OperatorConfig, String>(config),
        ),
        call_ensures(OperatorConfig::apply_layers, (&config,), layers),
        0 <= i < layers@.len(),
        layers@[i] is Cache,
    ensures
        ({
            let layer = layers@[i]->Cache_0;
            let smallest = last_value(values@, "cache.min_file_size"@);
            let largest = last_value(values@, "cache.max_file_size"@);
            &&& layer.memory_size > 0
            &&& spells_size_or(
                last_value(values@, "cache.memory_size"@),
                256 * 0x10_0000,
                layer.memory_size as nat,
            )
            &&& layer.shards > 0
            &&& match last_value(values@, "cache.shards"@) {
                Some(_) => spells_number(
                    last_value(values@, "cache.shards"@),
                    Some(layer.shards as nat),
                ),
                None => layer.shards == 4,
            }
            &&& layer.admits is Some
            &&& spells_size_or(smallest, 0, (layer.admits->0).0 as nat)
            &&& largest is None ==> (layer.admits->0).1 is None
            &&& largest matches Some(text) ==> match (layer.admits->0).1 {
                Some(below) => spells_size(largest, Some((below - 1) as nat)) && below
                    > (layer.admits->0).0,
                None => spells_size(largest, Some(usize::MAX as nat)),
            }
        }),
{
    lemma_cache_keys();
    lemma_cache_layer(config, layers@, i);
    lemma_given(values@, "cache"@, "memory_size"@, "cache.memory_size"@);
    lemma_given(values@, "cache"@, "min_file_size"@, "cache.min_file_size"@);
    lemma_given(values@, "cache"@, "max_file_size"@, "cache.max_file_size"@);
    lemma_given(values@, "cache"@, "shards"@, "cache.shards"@);
    lemma_accepted(values, bits, "memory_size"@);
    lemma_accepted(values, bits, "min_file_size"@);
    lemma_accepted(values, bits, "max_file_size"@);
    lemma_accepted(values, bits, "shards"@);
}

/// A cache lives on disk exactly where a path is given: there, in a directory of its
/// namespace, in 1 GiB of blocks of 4 MiB unless told otherwise.
pub proof fn law_disk_options_reach_their_layer(
    values: Vec<(String, String)>,
    namespace: Option<String>,
    bits: Option<u32>,
    config: OperatorConfig,
    layers: Vec<Layer>,
    i: int,
)
    requires
        call_ensures(
            OperatorConfig::parse,
            (&values, namespace, bits),
            Ok::<OperatorConfig, String>(config),
        ),
        call_ensures(OperatorConfig::apply_layers, (&config,), layers),
        0 <= i < layers@.len(),
        layers@[i] is Cache,
    ensures
        ({
            let layer = layers@[i]->Cache_0;
            let path = last_value(values@, "cache.disk_path"@);
            &&& layer.disk is None <==> path is None
            &&& layer.disk matches Some(disk) ==> {
                &&& Some(disk.path@) == path
                &&& disk.path@.len() > 0
                &&& disk.namespace is Some
                &&& disk.namespace->0@ == match namespace {
                    Some(name) => name@,
                    None => "default"@,
                }
                &&& disk.size > 0
                &&& spells_size_or(
                    last_value(values@, "cache.disk_size"@),
                    1024 * 0x10_0000,
                    disk.size as nat,
                )
                &&& disk.block_size > 0
                &&& spells_size_or(
                    last_value(values@, "cache.block_size"@),
                    4 * 0x10_0000,
                    disk.block_size as nat,
                )
            }
        }),
{
    lemma_cache_keys();
    lemma_cache_layer(config, layers@, i);
    lemma_given(values@, "cache"@, "disk_path"@, "cache.disk_path"@);
    lemma_given(values@, "cache"@, "disk_size"@, "cache.disk_size"@);
    lemma_given(values@, "cache"@, "block_size"@, "cache.block_size"@);
    lemma_accepted(values, bits, "disk_path"@);
    lemma_accepted(values, bits, "disk_size"@);
    lemma_accepted(values, bits, "block_size"@);
}

/// Whether an option names a key of a section.
pub open spec fn names(option: (String, String), section: Seq<char>) -> bool {
    exists|key: Seq<char>| option.0@ == #[trigger] (section + seq!['.'] + key)
}

/// A section is empty where no option names one of its keys.
proof fn lemma_named(values: Seq<(String, String)>, name: Seq<char>)
    requires
        !name.contains('.'),
    ensures
        (exists|j: int| 0 <= j < values.len() && names(#[trigger] values[j], name))
            <==> config::section_entries(ffi::pair_views(values), name) != Map::<
            Seq<char>,
            Seq<char>,
        >::empty(),
    decreases values.len(),
{
    let options = ffi::pair_views(values);
    let none = Map::<Seq<char>, Seq<char>>::empty();
    if values.len() > 0 {
        let front = values.drop_last();
        lemma_named(front, name);
        assert(ffi::pair_views(front) =~= options.drop_last());
        assert(options.last() == (values.last().0@, values.last().1@));
        let last = values.len() - 1;
        assert forall|j: int| 0 <= j < front.len() implies front[j] == #[trigger] values[j] by {}
        if exists|j: int| 0 <= j < front.len() && names(#[trigger] front[j], name) {
            let j = choose|j: int| 0 <= j < front.len() && names(#[trigger] front[j], name);
            assert(names(values[j], name));
        }
        let before = config::section_entries(options.drop_last(), name);
        let after = config::section_entries(options, name);
        match config::split_key(values.last().0@) {
            Some((section, key)) => {
                if section == name {
                    lemma_split(values.last().0@, name, key);
                    assert(names(values[last], name));
                    assert(after == before.insert(key, values.last().1@));
                    assert(after.dom().contains(key));
                } else {
                    if names(values[last], name) {
                        let k = choose|k: Seq<char>|
                            values[last].0@ == #[trigger] (name + seq!['.'] + k);
                        lemma_split(values.last().0@, name, k);
                    }
                }
            },
            None => {
                if names(values[last], name) {
                    let k = choose|k: Seq<char>|
                        values[last].0@ == #[trigger] (name + seq!['.'] + k);
                    lemma_split(values.last().0@, name, k);
                }
            },
        }
        if exists|j: int| 0 <= j < values.len() && names(#[trigger] values[j], name) {
            let j = choose|j: int| 0 <= j < values.len() && names(#[trigger] values[j], name);
            if j < last {
                assert(names(front[j], name));
            }
        }
        if before != none {
            if after == none {
                assert(before =~= none) by {
                    assert forall|k: Seq<char>| !before.dom().contains(k) by {
                        if before.dom().contains(k) {
                            assert(after.dom().contains(k));
                        }
                    }
                }
            }
        }
    } else {
        assert(options =~= Seq::empty());
    }
}

/// A section that is named adds its layer and no other section does.  From the
/// operator outwards come retries, timeouts, the ceiling and the cache.
pub proof fn law_named_sections_add_layers(
    values: Vec<(String, String)>,
    namespace: Option<String>,
    bits: Option<u32>,
    config: OperatorConfig,
    layers: Vec<Layer>,
)
    requires
        call_ensures(
            OperatorConfig::parse,
            (&values, namespace, bits),
            Ok::<OperatorConfig, String>(config),
        ),
        call_ensures(OperatorConfig::apply_layers, (&config,), layers),
    ensures
        (exists|i: int| 0 <= i < layers@.len() && (#[trigger] layers@[i]) is Retry) <==> (exists|
            j: int,
        |
            0 <= j < values@.len() && names(#[trigger] values@[j], "retry"@)),
        (exists|i: int| 0 <= i < layers@.len() && (#[trigger] layers@[i]) is Timeout) <==> (exists|
            j: int,
        |
            0 <= j < values@.len() && names(#[trigger] values@[j], "timeout"@)),
        (exists|i: int| 0 <= i < layers@.len() && (#[trigger] layers@[i]) is Cache) <==> (exists|
            j: int,
        |
            0 <= j < values@.len() && names(#[trigger] values@[j], "cache"@)),
        (exists|i: int| 0 <= i < layers@.len() && (#[trigger] layers@[i]) is ConcurrentLimit)
            <==> last_value(values@, "io.concurrent_limit"@) is Some,
        forall|i: int, j: int|
            #![trigger layers@[i], layers@[j]]
            0 <= i < j < layers@.len() ==> !(layers@[j] is Retry) && !(layers@[i] is Cache) && (
            layers@[j] is Timeout ==> layers@[i] is Retry) && (layers@[i] is ConcurrentLimit
                ==> layers@[j] is Cache),
{
    let options = ffi::pair_views(values@);
    lemma_retry_keys();
    lemma_timeout_keys();
    lemma_cache_keys();
    lemma_io_keys();
    lemma_named(values@, "retry"@);
    lemma_named(values@, "timeout"@);
    lemma_named(values@, "cache"@);
    lemma_given(values@, "io"@, "concurrent_limit"@, "io.concurrent_limit"@);
    lemma_accepted(values, bits, "concurrent_limit"@);
    config::law_layers_follow_sections(config, options, bits, layers@);
    lemma_order(config, layers@);
}

proof fn lemma_order(config: OperatorConfig, layers: Seq<Layer>)
    requires
        config.stacks(layers),
    ensures
        (exists|i: int| 0 <= i < layers.len() && (#[trigger] layers[i]) is ConcurrentLimit)
            <==> config.io.concurrent_limit is Some,
        forall|i: int, j: int|
            #![trigger layers[i], layers[j]]
            0 <= i < j < layers.len() ==> !(layers[j] is Retry) && !(layers[i] is Cache) && (
            layers[j] is Timeout ==> layers[i] is Retry) && (layers[i] is ConcurrentLimit
                ==> layers[j] is Cache),
{
    let at: int = (if config.retry is Some {
        1int
    } else {
        0
    }) + (if config.timeout is Some {
        1int
    } else {
        0
    });
    if config.io.concurrent_limit is Some {
        assert(layers[at] is ConcurrentLimit);
    }
}

/// Whether a value is one that its key admits.
pub open spec fn admissible(
    section: Seq<char>,
    key: Seq<char>,
    value: Seq<char>,
    bits: Option<u32>,
) -> bool {
    let number = text::unsigned(value, usize::MAX as nat);
    let size = units::size_of_text(value);
    let fits = size matches Some(bytes) && bytes <= usize::MAX;
    if section == "io"@ {
        if key == "read.concurrent"@ || key == "write.concurrent"@ || key == "concurrent_limit"@ {
            number matches Some(n) && n > 0
        } else {
            (key == "read.chunk_size"@ || key == "write.chunk_size"@) && fits && size->0 > 0
        }
    } else if section == "retry"@ {
        if key == "max_times"@ {
            number is Some
        } else if key == "factor"@ {
            bits matches Some(b) && 0x3f80_0000 <= b < 0x7f80_0000
        } else if key == "jitter"@ {
            value == "true"@ || value == "false"@ || value == "1"@ || value == "0"@
        } else {
            (key == "min_delay"@ || key == "max_delay"@) && units::duration_of(value) is Some
        }
    } else if section == "timeout"@ {
        (key == "operation_timeout"@ || key == "io_timeout"@) && (units::duration_of(
            value,
        ) matches Some(nanos) && nanos > 0)
    } else if section == "cache"@ {
        if key == "memory_size"@ || key == "disk_size"@ || key == "block_size"@ {
            fits && size->0 > 0
        } else if key == "min_file_size"@ || key == "max_file_size"@ {
            fits
        } else if key == "disk_path"@ {
            value.len() > 0
        } else {
            key == "shards"@ && (number matches Some(n) && n > 0)
        }
    } else {
        false
    }
}

/// Whether a section and a key are those of an option whose value its key admits.
pub open spec fn is_admissible(
    option: (String, String),
    section: Seq<char>,
    key: Seq<char>,
    bits: Option<u32>,
) -> bool {
    &&& !section.contains('.')
    &&& option.0@ == section + seq!['.'] + key
    &&& admissible(section, key, option.1@, bits)
}

/// Whether an option names a key of a section that admits its value.
pub open spec fn is_fine(option: (String, String), bits: Option<u32>) -> bool {
    exists|section: Seq<char>, key: Seq<char>| #[trigger] is_admissible(option, section, key, bits)
}

/// What an entry of a section comes from.
proof fn lemma_origin(values: Seq<(String, String)>, name: Seq<char>, key: Seq<char>)
    requires
        config::section_entries(ffi::pair_views(values), name).dom().contains(key),
    ensures
        exists|j: int|
            0 <= j < values.len() && config::split_key((#[trigger] values[j]).0@) == Some(
                (name, key),
            ) && config::section_entries(ffi::pair_views(values), name)[key] == values[j].1@,
    decreases values.len(),
{
    let options = ffi::pair_views(values);
    if values.len() > 0 {
        let front = values.drop_last();
        assert(ffi::pair_views(front) =~= options.drop_last());
        assert(options.last() == (values.last().0@, values.last().1@));
        let last = values.len() - 1;
        if config::split_key(values[last].0@) != Some((name, key)) {
            lemma_origin(front, name, key);
            let j = choose|j: int|
                0 <= j < front.len() && config::split_key((#[trigger] front[j]).0@) == Some(
                    (name, key),
                ) && config::section_entries(ffi::pair_views(front), name)[key] == front[j].1@;
            assert(values[j] == front[j]);
        }
    }
}

proof fn lemma_known_keys(values: Seq<(String, String)>, bits: Option<u32>)
    requires
        forall|j: int| 0 <= j < values.len() ==> is_fine(#[trigger] values[j], bits),
    ensures
        config::first_key_error(ffi::pair_views(values)) is None,
    decreases values.len(),
{
    let options = ffi::pair_views(values);
    if values.len() > 0 {
        let front = values.drop_last();
        assert forall|j: int| 0 <= j < front.len() implies is_fine(#[trigger] front[j], bits) by {
            assert(front[j] == values[j]);
        }
        lemma_known_keys(front, bits);
        assert(ffi::pair_views(front) =~= options.drop_last());
        let last = values.len() - 1;
        assert(is_fine(values[last], bits));
        let (section, key) = choose|section: Seq<char>, key: Seq<char>| #[trigger]
            is_admissible(values[last], section, key, bits);
        lemma_split(values[last].0@, section, key);
        assert(options.last().0 == values[last].0@);
    }
}

/// Options whose values their keys admit are accepted, unless the delays or the bounds
/// of what is cached are the wrong way round.
pub proof fn law_admissible_options_are_accepted(
    values: Vec<(String, String)>,
    namespace: Option<String>,
    bits: Option<u32>,
    outcome: Result<OperatorConfig, String>,
)
    requires
        call_ensures(OperatorConfig::parse, (&values, namespace, bits), outcome),
        forall|j: int| 0 <= j < values@.len() ==> is_fine(#[trigger] values@[j], bits),
        ({
            let min = last_value(values@, "retry.min_delay"@);
            let max = last_value(values@, "retry.max_delay"@);
            min is Some && max is Some ==> units::duration_of(min->0)->0 <= units::duration_of(
                max->0,
            )->0
        }),
        ({
            let min = last_value(values@, "cache.min_file_size"@);
            let max = last_value(values@, "cache.max_file_size"@);
            min is Some && max is Some ==> units::size_of_text(min->0)->0 <= units::size_of_text(
                max->0,
            )->0
        }),
    ensures
        outcome is Ok,
{
    lemma_known_keys(values@, bits);
    lemma_fine_io(values@, bits);
    lemma_fine_retry(values@, bits);
    lemma_fine_timeout(values@, bits);
    lemma_fine_cache(values@, bits);
}

proof fn lemma_fine_io(values: Seq<(String, String)>, bits: Option<u32>)
    requires
        forall|j: int| 0 <= j < values.len() ==> is_fine(#[trigger] values[j], bits),
    ensures
        complaint::complaint(
            config::section_entries(ffi::pair_views(values), "io"@),
            io::io_errors(),
        ) is None,
{
    let section = config::section_entries(ffi::pair_views(values), "io"@);
    assert forall|key: Seq<char>| #[trigger] section.dom().contains(key) implies (io::io_errors())(
        key,
        section[key],
    ) is None by {
        lemma_admitted(values, bits, "io"@, key);
    }
    lemma_no_complaint(section, io::io_errors());
}

proof fn lemma_fine_retry(values: Seq<(String, String)>, bits: Option<u32>)
    requires
        forall|j: int| 0 <= j < values.len() ==> is_fine(#[trigger] values[j], bits),
        ({
            let min = last_value(values, "retry.min_delay"@);
            let max = last_value(values, "retry.max_delay"@);
            min is Some && max is Some ==> units::duration_of(min->0)->0 <= units::duration_of(
                max->0,
            )->0
        }),
    ensures
        config::retry_complaint(
            config::section_entries(ffi::pair_views(values), "retry"@),
            bits,
        ) is None,
{
    lemma_retry_keys();
    lemma_fine_retry_entries(values, bits);
    lemma_given(values, "retry"@, "min_delay"@, "retry.min_delay"@);
    lemma_given(values, "retry"@, "max_delay"@, "retry.max_delay"@);
}

proof fn lemma_fine_retry_entries(values: Seq<(String, String)>, bits: Option<u32>)
    requires
        forall|j: int| 0 <= j < values.len() ==> is_fine(#[trigger] values[j], bits),
    ensures
        complaint::complaint(
            config::section_entries(ffi::pair_views(values), "retry"@),
            retry::retry_errors(bits),
        ) is None,
{
    let section = config::section_entries(ffi::pair_views(values), "retry"@);
    lemma_section_names();
    lemma_retry_keys();
    assert forall|key: Seq<char>| #[trigger] section.dom().contains(key) implies (
    retry::retry_errors(bits))(key, section[key]) is None by {
        lemma_admitted(values, bits, "retry"@, key);
        lemma_factor_bits(bits);
    }
    lemma_no_complaint(section, retry::retry_errors(bits));
}

/// The single-precision numbers from 1 up to, but without, infinity.
proof fn lemma_factor_bits(bits: Option<u32>)
    ensures
        bits matches Some(b) && 0x3f80_0000 <= b < 0x7f80_0000 ==> retry::admits_factor(bits->0),
{
}

proof fn lemma_fine_timeout(values: Seq<(String, String)>, bits: Option<u32>)
    requires
        forall|j: int| 0 <= j < values.len() ==> is_fine(#[trigger] values[j], bits),
    ensures
        complaint::complaint(
            config::section_entries(ffi::pair_views(values), "timeout"@),
            timeout::timeout_errors(),
        ) is None,
{
    let section = config::section_entries(ffi::pair_views(values), "timeout"@);
    lemma_section_names();
    assert forall|key: Seq<char>| #[trigger] section.dom().contains(key) implies (
    timeout::timeout_errors())(key, section[key]) is None by {
        lemma_admitted(values, bits, "timeout"@, key);
    }
    lemma_no_complaint(section, timeout::timeout_errors());
}

proof fn lemma_fine_cache(values: Seq<(String, String)>, bits: Option<u32>)
    requires
        forall|j: int| 0 <= j < values.len() ==> is_fine(#[trigger] values[j], bits),
        ({
            let min = last_value(values, "cache.min_file_size"@);
            let max = last_value(values, "cache.max_file_size"@);
            min is Some && max is Some ==> units::size_of_text(min->0)->0 <= units::size_of_text(
                max->0,
            )->0
        }),
    ensures
        config::cache_complaint(config::section_entries(ffi::pair_views(values), "cache"@)) is None,
{
    let section = config::section_entries(ffi::pair_views(values), "cache"@);
    lemma_section_names();
    lemma_cache_keys();
    assert forall|key: Seq<char>| #[trigger] section.dom().contains(key) implies (
    cache::cache_errors())(key, section[key]) is None by {
        lemma_admitted(values, bits, "cache"@, key);
    }
    lemma_no_complaint(section, cache::cache_errors());
    lemma_given(values, "cache"@, "min_file_size"@, "cache.min_file_size"@);
    lemma_given(values, "cache"@, "max_file_size"@, "cache.max_file_size"@);
    if section.dom().contains("memory_size"@) {
        lemma_admitted(values, bits, "cache"@, "memory_size"@);
    }
    if section.dom().contains("disk_size"@) {
        lemma_admitted(values, bits, "cache"@, "disk_size"@);
    }
    if section.dom().contains("block_size"@) {
        lemma_admitted(values, bits, "cache"@, "block_size"@);
    }
}

proof fn lemma_no_complaint(
    section: Map<Seq<char>, Seq<char>>,
    error: spec_fn(Seq<char>, Seq<char>) -> Option<Seq<char>>,
)
    requires
        forall|key: Seq<char>| #[trigger]
            section.dom().contains(key) ==> error(key, section[key]) is None,
    ensures
        complaint::complaint(section, error) is None,
{
    assert forall|key: Seq<char>| !(#[trigger] complaint::is_least_error(section, error, key)) by {
        if section.dom().contains(key) {
            assert(error(key, section[key]) is None);
        }
    }
}

proof fn lemma_section_names()
    ensures
        !"io"@.contains('.'),
        !"retry"@.contains('.'),
        !"timeout"@.contains('.'),
        !"cache"@.contains('.'),
        "io"@ != "retry"@,
        "io"@ != "timeout"@,
        "io"@ != "cache"@,
        "retry"@ != "timeout"@,
        "retry"@ != "cache"@,
        "timeout"@ != "cache"@,
{
    reveal_strlit("io");
    reveal_strlit("retry");
    reveal_strlit("timeout");
    reveal_strlit("cache");
    assert("retry"@[0] == 'r' && "cache"@[0] == 'c');
}

/// What a section has for a key is admissible.
proof fn lemma_admitted(
    values: Seq<(String, String)>,
    bits: Option<u32>,
    name: Seq<char>,
    key: Seq<char>,
)
    requires
        forall|j: int| 0 <= j < values.len() ==> is_fine(#[trigger] values[j], bits),
        config::section_entries(ffi::pair_views(values), name).dom().contains(key),
    ensures
        admissible(
            name,
            key,
            config::section_entries(ffi::pair_views(values), name)[key],
            bits,
        ),
{
    lemma_origin(values, name, key);
    let j = choose|j: int|
        0 <= j < values.len() && config::split_key((#[trigger] values[j]).0@) == Some((name, key))
            && config::section_entries(ffi::pair_views(values), name)[key] == values[j].1@;
    assert(is_fine(values[j], bits));
    let (s, k) = choose|s: Seq<char>, k: Seq<char>| #[trigger]
        is_admissible(values[j], s, k, bits);
    lemma_split(values[j].0@, s, k);
}

/// Whether an option names a key of one of the sections.
pub open spec fn names_a_section(option: (String, String)) -> bool {
    names(option, "io"@) || names(option, "retry"@) || names(option, "timeout"@) || names(
        option,
        "cache"@,
    )
}

proof fn lemma_key_error(option: (String, String))
    ensures
        config::key_error(option.0@) is None <==> names_a_section(option),
{
    lemma_section_names();
    match config::split_key(option.0@) {
        Some((section, key)) => {
            if config::is_section(section) {
                lemma_split(option.0@, section, key);
                assert(names(option, section));
            }
        },
        None => {},
    }
    lemma_named_section(option, "io"@);
    lemma_named_section(option, "retry"@);
    lemma_named_section(option, "timeout"@);
    lemma_named_section(option, "cache"@);
}

proof fn lemma_named_section(option: (String, String), name: Seq<char>)
    requires
        !name.contains('.'),
    ensures
        names(option, name) ==> (config::split_key(option.0@) matches Some(parts) && parts.0
            == name),
{
    if names(option, name) {
        let key = choose|key: Seq<char>| option.0@ == #[trigger] (name + seq!['.'] + key);
        lemma_split(option.0@, name, key);
    }
}

proof fn lemma_first_unknown(values: Seq<(String, String)>, i: int)
    requires
        0 <= i < values.len(),
        !names_a_section(values[i]),
        forall|j: int| 0 <= j < i ==> names_a_section(#[trigger] values[j]),
    ensures
        config::first_key_error(ffi::pair_views(values)) == config::key_error(values[i].0@),
        config::key_error(values[i].0@) is Some,
    decreases values.len(),
{
    let options = ffi::pair_views(values);
    let front = values.drop_last();
    assert(ffi::pair_views(front) =~= options.drop_last());
    lemma_key_error(values[i]);
    if i < front.len() {
        assert(front[i] == values[i]);
        lemma_first_unknown(front, i);
    } else {
        assert(options.last().0 == values[i].0@);
        lemma_known_before(front);
    }
}

proof fn lemma_known_before(values: Seq<(String, String)>)
    requires
        forall|j: int| 0 <= j < values.len() ==> names_a_section(#[trigger] values[j]),
    ensures
        config::first_key_error(ffi::pair_views(values)) is None,
    decreases values.len(),
{
    let options = ffi::pair_views(values);
    if values.len() > 0 {
        let front = values.drop_last();
        assert(ffi::pair_views(front) =~= options.drop_last());
        assert forall|j: int| 0 <= j < front.len() implies names_a_section(#[trigger] front[j]) by {
            assert(front[j] == values[j]);
        }
        lemma_known_before(front);
        lemma_key_error(values[values.len() - 1]);
        assert(options.last().0 == values[values.len() - 1].0@);
    }
}

/// Options are refused for the first key that is in no section, by its name.
pub proof fn law_first_unknown_options_are_named(
    values: Vec<(String, String)>,
    namespace: Option<String>,
    bits: Option<u32>,
    outcome: Result<OperatorConfig, String>,
    i: int,
)
    requires
        call_ensures(OperatorConfig::parse, (&values, namespace, bits), outcome),
        0 <= i < values@.len(),
        !names_a_section(values@[i]),
        forall|j: int| 0 <= j < i ==> names_a_section(#[trigger] values@[j]),
    ensures
        outcome matches Err(message) && message@ == "unknown OpenDAL option '"@ + values@[i].0@
            + "'"@,
{
    lemma_first_unknown(values@, i);
}

/// A parsed configuration keeps the namespace that it was given.
pub proof fn law_namespaces_are_kept(
    values: Vec<(String, String)>,
    namespace: Option<String>,
    bits: Option<u32>,
    config: OperatorConfig,
)
    requires
        call_ensures(
            OperatorConfig::parse,
            (&values, namespace, bits),
            Ok::<OperatorConfig, String>(config),
        ),
    ensures
        config.cache_namespace == namespace,
{
}

/// What is inserted for a key of a section stays there.
proof fn lemma_inserted(values: Seq<(String, String)>, name: Seq<char>, key: Seq<char>, i: int)
    requires
        0 <= i < values.len(),
        config::split_key(values[i].0@) == Some((name, key)),
    ensures
        config::section_entries(ffi::pair_views(values), name).dom().contains(key),
    decreases values.len(),
{
    let options = ffi::pair_views(values);
    let front = values.drop_last();
    assert(ffi::pair_views(front) =~= options.drop_last());
    assert(options.last() == (values.last().0@, values.last().1@));
    if i < front.len() {
        assert(front[i] == values[i]);
        lemma_inserted(front, name, key, i);
    }
}

/// Options are accepted only where every key is one of a section and the last value of
/// each is one that its key admits.
pub proof fn law_accepted_options_are_admissible(
    values: Vec<(String, String)>,
    namespace: Option<String>,
    bits: Option<u32>,
    config: OperatorConfig,
    i: int,
)
    requires
        call_ensures(
            OperatorConfig::parse,
            (&values, namespace, bits),
            Ok::<OperatorConfig, String>(config),
        ),
        0 <= i < values@.len(),
    ensures
        exists|section: Seq<char>, key: Seq<char>|
            values@[i].0@ == section + seq!['.'] + key && last_value(values@, values@[i].0@) is Some
                && #[trigger] admissible(
                section,
                key,
                last_value(values@, values@[i].0@)->0,
                bits,
            ),
{
    let options = ffi::pair_views(values@);
    lemma_section_names();
    if !names_a_section(values@[i]) {
        lemma_key_error(values@[i]);
        assert(options[i].0 == values@[i].0@);
        config::law_unknown_sections_are_refused(options, i, bits);
    }
    lemma_key_error(values@[i]);
    let parts = config::split_key(values@[i].0@)->0;
    let section = parts.0;
    let key = parts.1;
    lemma_split(values@[i].0@, section, key);
    lemma_inserted(values@, section, key, i);
    lemma_given(values@, section, key, values@[i].0@);
    if section == "io"@ {
        lemma_admissible_io(values, bits, key);
    } else if section == "retry"@ {
        lemma_admissible_retry(values, bits, key);
    } else if section == "timeout"@ {
        lemma_admissible_timeout(values, bits, key);
    } else {
        lemma_admissible_cache(values, bits, key);
    }
    let value = config::section_entries(options, section)[key];
    assert(last_value(values@, values@[i].0@) == Some(value));
    assert(admissible(section, key, value, bits));
}

proof fn lemma_admissible_io(values: Vec<(String, String)>, bits: Option<u32>, key: Seq<char>)
    requires
        config::config_error(ffi::pair_views(values@), bits) is None,
        config::section_entries(ffi::pair_views(values@), "io"@).dom().contains(key),
    ensures
        admissible(
            "io"@,
            key,
            config::section_entries(ffi::pair_views(values@), "io"@)[key],
            bits,
        ),
{
    lemma_section_names();
    lemma_accepted(values, bits, key);
    lemma_io_keys();
}

proof fn lemma_admissible_retry(values: Vec<(String, String)>, bits: Option<u32>, key: Seq<char>)
    requires
        config::config_error(ffi::pair_views(values@), bits) is None,
        config::section_entries(ffi::pair_views(values@), "retry"@).dom().contains(key),
    ensures
        admissible(
            "retry"@,
            key,
            config::section_entries(ffi::pair_views(values@), "retry"@)[key],
            bits,
        ),
{
    lemma_section_names();
    lemma_accepted(values, bits, key);
    lemma_retry_keys();
    lemma_factor_range(bits);
}

proof fn lemma_admissible_timeout(values: Vec<(String, String)>, bits: Option<u32>, key: Seq<char>)
    requires
        config::config_error(ffi::pair_views(values@), bits) is None,
        config::section_entries(ffi::pair_views(values@), "timeout"@).dom().contains(key),
    ensures
        admissible(
            "timeout"@,
            key,
            config::section_entries(ffi::pair_views(values@), "timeout"@)[key],
            bits,
        ),
{
    lemma_accepted(values, bits, key);
    lemma_timeout_admits(
        key,
        config::section_entries(ffi::pair_views(values@), "timeout"@)[key],
        bits,
    );
}

proof fn lemma_timeout_admits(key: Seq<char>, value: Seq<char>, bits: Option<u32>)
    requires
        timeout::timeout_error(key, value) is None,
    ensures
        admissible("timeout"@, key, value, bits),
{
    lemma_section_names();
    assert(units::duration_of(value) is Some);
    assert(value::duration_of_value(value) != Some(0nat));
    assert(units::duration_of(value)->0 > 0);
}

proof fn lemma_admissible_cache(values: Vec<(String, String)>, bits: Option<u32>, key: Seq<char>)
    requires
        config::config_error(ffi::pair_views(values@), bits) is None,
        config::section_entries(ffi::pair_views(values@), "cache"@).dom().contains(key),
    ensures
        admissible(
            "cache"@,
            key,
            config::section_entries(ffi::pair_views(values@), "cache"@)[key],
            bits,
        ),
{
    lemma_section_names();
    lemma_accepted(values, bits, key);
    lemma_cache_keys();
    let entries = config::section_entries(ffi::pair_views(values@), "cache"@);
    assert(entries != Map::<Seq<char>, Seq<char>>::empty());
    assert(config::cache_complaint(entries) is None);
    assert(cache::relation_error(entries) is None);
}

/// The single-precision numbers from 1 up to, but without, infinity.
proof fn lemma_factor_range(bits: Option<u32>)
    ensures
        bits is Some && retry::admits_factor(bits->0) ==> 0x3f80_0000 <= bits->0 < 0x7f80_0000,
{
}

/// Whether `part` holds what `values` give to a section, and nothing else.
pub open spec fn is_part(
    part: Seq<(String, String)>,
    values: Seq<(String, String)>,
    section: Seq<char>,
) -> bool {
    &&& forall|j: int| 0 <= j < part.len() ==> names(#[trigger] part[j], section)
    &&& forall|key: Seq<char>|
        last_value(part, #[trigger] (section + seq!['.'] + key)) == last_value(
            values,
            section + seq!['.'] + key,
        )
}

proof fn lemma_part(
    part: Seq<(String, String)>,
    values: Seq<(String, String)>,
    name: Seq<char>,
    other: Seq<char>,
)
    requires
        is_part(part, values, name),
        config::is_section(name),
        config::is_section(other),
    ensures
        config::first_key_error(ffi::pair_views(part)) is None,
        config::section_entries(ffi::pair_views(part), name) == config::section_entries(
            ffi::pair_views(values),
            name,
        ),
        other != name ==> config::section_entries(ffi::pair_views(part), other) == Map::<
            Seq<char>,
            Seq<char>,
        >::empty(),
{
    lemma_section_names();
    assert forall|j: int| 0 <= j < part.len() implies names_a_section(#[trigger] part[j]) by {
        assert(names(part[j], name));
    }
    lemma_known_before(part);
    let a = config::section_entries(ffi::pair_views(part), name);
    let b = config::section_entries(ffi::pair_views(values), name);
    assert forall|key: Seq<char>| #[trigger] a.dom().contains(key) implies b.dom().contains(key)
        && a[key] == b[key] by {
        let full = name + seq!['.'] + key;
        lemma_given(part, name, key, full);
        lemma_given(values, name, key, full);
        assert(section::given(a, key) == section::given(b, key));
    }
    assert forall|key: Seq<char>| #[trigger] b.dom().contains(key) implies a.dom().contains(key) by {
        let full = name + seq!['.'] + key;
        lemma_given(part, name, key, full);
        lemma_given(values, name, key, full);
        assert(section::given(a, key) == section::given(b, key));
    }
    assert(a.dom() =~= b.dom());
    assert(a =~= b);
    if other != name {
        lemma_named(part, other);
        if exists|j: int| 0 <= j < part.len() && names(#[trigger] part[j], other) {
            let j = choose|j: int| 0 <= j < part.len() && names(#[trigger] part[j], other);
            lemma_named_section(part[j], name);
            lemma_named_section(part[j], other);
            assert(names(part[j], name));
        }
    }
}

proof fn lemma_nothing_is_wrong_with_nothing(bits: Option<u32>)
    ensures
        ({
            let none = Map::<Seq<char>, Seq<char>>::empty();
            &&& complaint::complaint(none, io::io_errors()) is None
            &&& config::retry_complaint(none, bits) is None
            &&& complaint::complaint(none, timeout::timeout_errors()) is None
            &&& config::cache_complaint(none) is None
        }),
{
    let none = Map::<Seq<char>, Seq<char>>::empty();
    lemma_no_complaint(none, io::io_errors());
    lemma_no_complaint(none, retry::retry_errors(bits));
    lemma_no_complaint(none, timeout::timeout_errors());
    lemma_no_complaint(none, cache::cache_errors());
}

/// Options are judged section by section: `io` first, then `retry`, `timeout` and
/// `cache`.  They are accepted where each part is, and refused as the first part is that
/// is refused.
#[verifier::rlimit(40)]
pub proof fn law_sections_are_judged_in_order(
    values: Vec<(String, String)>,
    namespace: Option<String>,
    bits: Option<u32>,
    outcome: Result<OperatorConfig, String>,
    parts: (
        Vec<(String, String)>,
        Vec<(String, String)>,
        Vec<(String, String)>,
        Vec<(String, String)>,
    ),
    io: Result<OperatorConfig, String>,
    retry: Result<OperatorConfig, String>,
    timeout: Result<OperatorConfig, String>,
    cache: Result<OperatorConfig, String>,
)
    requires
        forall|j: int| 0 <= j < values@.len() ==> names_a_section(#[trigger] values@[j]),
        is_part(parts.0@, values@, "io"@),
        is_part(parts.1@, values@, "retry"@),
        is_part(parts.2@, values@, "timeout"@),
        is_part(parts.3@, values@, "cache"@),
        call_ensures(OperatorConfig::parse, (&values, namespace, bits), outcome),
        call_ensures(OperatorConfig::parse, (&parts.0, namespace, bits), io),
        call_ensures(OperatorConfig::parse, (&parts.1, namespace, bits), retry),
        call_ensures(OperatorConfig::parse, (&parts.2, namespace, bits), timeout),
        call_ensures(OperatorConfig::parse, (&parts.3, namespace, bits), cache),
    ensures
        outcome is Ok <==> io is Ok && retry is Ok && timeout is Ok && cache is Ok,
        outcome matches Err(message) ==> message@ == if io is Err {
            io->Err_0@
        } else if retry is Err {
            retry->Err_0@
        } else if timeout is Err {
            timeout->Err_0@
        } else {
            cache->Err_0@
        },
{
    lemma_section_names();
    lemma_known_before(values@);
    lemma_nothing_is_wrong_with_nothing(bits);
    lemma_part(parts.0@, values@, "io"@, "retry"@);
    lemma_part(parts.0@, values@, "io"@, "timeout"@);
    lemma_part(parts.0@, values@, "io"@, "cache"@);
    lemma_part(parts.1@, values@, "retry"@, "io"@);
    lemma_part(parts.1@, values@, "retry"@, "timeout"@);
    lemma_part(parts.1@, values@, "retry"@, "cache"@);
    lemma_part(parts.2@, values@, "timeout"@, "io"@);
    lemma_part(parts.2@, values@, "timeout"@, "retry"@);
    lemma_part(parts.2@, values@, "timeout"@, "cache"@);
    lemma_part(parts.3@, values@, "cache"@, "io"@);
    lemma_part(parts.3@, values@, "cache"@, "retry"@);
    lemma_part(parts.3@, values@, "cache"@, "timeout"@);
}

/// Delays that are the wrong way round are refused, and the message says so.
pub proof fn law_crossed_delays_are_refused(
    values: Vec<(String, String)>,
    namespace: Option<String>,
    bits: Option<u32>,
    outcome: Result<OperatorConfig, String>,
    min: Seq<char>,
    max: Seq<char>,
)
    requires
        call_ensures(OperatorConfig::parse, (&values, namespace, bits), outcome),
        forall|j: int| 0 <= j < values@.len() ==> is_fine(#[trigger] values@[j], bits),
        last_value(values@, "retry.min_delay"@) == Some(min),
        last_value(values@, "retry.max_delay"@) == Some(max),
        units::duration_of(min) is Some,
        units::duration_of(max) is Some,
        units::duration_of(min)->0 > units::duration_of(max)->0,
    ensures
        outcome matches Err(message) && message@
            == "retry.min_delay must not exceed retry.max_delay"@,
{
    lemma_known_keys(values@, bits);
    lemma_fine_io(values@, bits);
    lemma_retry_keys();
    lemma_fine_retry_entries(values@, bits);
    lemma_given(values@, "retry"@, "min_delay"@, "retry.min_delay"@);
    lemma_given(values@, "retry"@, "max_delay"@, "retry.max_delay"@);
}

} // verus!
