//! Layers described by plain options.
//!
//! Options are read leniently: unknown keys are ignored, the first value given
//! for a key counts, and a malformed value leaves its setting out.

use vstd::prelude::*;

use crate::config::layer::{CacheLayer, DiskTier, Layer};
use crate::ffi;
use crate::text;
use crate::text::{parse_unsigned, text_eq};

verus! {

/// Bytes of a mebibyte.
pub const MIB: usize = 0x10_0000;

/// The first value given for a key.
pub open spec fn first_given(options: Seq<(Seq<char>, Seq<char>)>, key: Seq<char>) -> Option<
    Seq<char>,
>
    decreases options.len(),
{
    if options.len() == 0 {
        None
    } else if options[0].0 == key {
        Some(options[0].1)
    } else {
        first_given(options.drop_first(), key)
    }
}

/// The number given for a key, if its value is one.
pub open spec fn number_given(
    options: Seq<(Seq<char>, Seq<char>)>,
    key: Seq<char>,
    max: nat,
) -> Option<nat> {
    match first_given(options, key) {
        Some(value) => text::unsigned(value, max),
        None => None,
    }
}

/// Whether a key is switched on.
pub open spec fn switched_on(options: Seq<(Seq<char>, Seq<char>)>, key: Seq<char>) -> bool {
    first_given(options, key) == Some("true"@) || first_given(options, key) == Some("1"@)
}

/// The first value given for a key.
pub fn get<'a>(opts: &'a Vec<(String, String)>, key: &str) -> (value: Option<&'a String>)
    ensures
        match first_given(ffi::pair_views(opts@), key@) {
            Some(text) => value matches Some(v) && v@ == text,
            None => value is None,
        },
{
    let ghost options = ffi::pair_views(opts@);
    let mut i: usize = 0;
    assert(options.skip(0) =~= options);
    while i < opts.len()
        invariant
            options == ffi::pair_views(opts@),
            i <= opts@.len(),
            first_given(options, key@) == first_given(options.skip(i as int), key@),
        decreases opts@.len() - i,
    {
        let ghost rest = options.skip(i as int);
        assert(rest[0] == options[i as int]);
        assert(rest.drop_first() =~= options.skip(i + 1));
        if text_eq(opts[i].0.as_str(), key) {
            return Some(&opts[i].1);
        }
        i += 1;
    }
    None
}

fn number(opts: &Vec<(String, String)>, key: &str, max: u64) -> (number: Option<u64>)
    ensures
        match number_given(ffi::pair_views(opts@), key@, max as nat) {
            Some(n) => number matches Some(m) && m == n,
            None => number is None,
        },
{
    match get(opts, key) {
        Some(value) => parse_unsigned(value.as_str(), max),
        None => None,
    }
}

fn switch(opts: &Vec<(String, String)>, key: &str) -> (on: bool)
    ensures
        on == switched_on(ffi::pair_views(opts@), key@),
{
    match get(opts, key) {
        Some(value) => text_eq(value.as_str(), "true") || text_eq(value.as_str(), "1"),
        None => false,
    }
}

/// A number scaled to nanoseconds.
pub open spec fn scaled(number: Option<nat>, scale: nat) -> Option<u128> {
    match number {
        Some(n) => Some((n * scale) as u128),
        None => None,
    }
}

fn nanos(number: Option<u64>, scale: u64) -> (nanos: Option<u128>)
    requires
        scale <= 1_000_000_000,
    ensures
        match number {
            Some(n) => nanos == scaled(Some(n as nat), scale as nat),
            None => nanos is None,
        },
{
    match number {
        Some(n) => {
            assert(n * scale <= u64::MAX * 1_000_000_000) by (nonlinear_arith)
                requires
                    0 <= n <= u64::MAX,
                    0 <= scale <= 1_000_000_000,
            ;
            Some(n as u128 * scale as u128)
        },
        None => None,
    }
}

/// The retry layer that options describe: there is one as soon as any of its
/// keys is given.
pub open spec fn retry_layer(options: Seq<(Seq<char>, Seq<char>)>, factor: Option<u32>) -> Option<
    Layer,
> {
    if first_given(options, "retry.max_times"@) is Some || first_given(options, "retry.factor"@)
        is Some || first_given(options, "retry.jitter"@) is Some || first_given(
        options,
        "retry.min_delay_ms"@,
    ) is Some || first_given(options, "retry.max_delay_ms"@) is Some {
        Some(
            Layer::Retry {
                max_times: match number_given(
                    options,
                    "retry.max_times"@,
                    usize::MAX as nat,
                ) {
                    Some(n) => Some(n as usize),
                    None => None,
                },
                factor: if first_given(options, "retry.factor"@) is Some {
                    factor
                } else {
                    None
                },
                jitter: switched_on(options, "retry.jitter"@),
                min_delay: scaled(
                    number_given(options, "retry.min_delay_ms"@, u64::MAX as nat),
                    1_000_000,
                ),
                max_delay: scaled(
                    number_given(options, "retry.max_delay_ms"@, u64::MAX as nat),
                    1_000_000,
                ),
            },
        )
    } else {
        None
    }
}

/// The timeout layer that options describe.
pub open spec fn timeout_layer(options: Seq<(Seq<char>, Seq<char>)>) -> Option<Layer> {
    if first_given(options, "timeout.seconds"@) is Some || first_given(
        options,
        "timeout.io_seconds"@,
    ) is Some {
        Some(
            Layer::Timeout {
                operation: scaled(
                    number_given(options, "timeout.seconds"@, u64::MAX as nat),
                    1_000_000_000,
                ),
                io: scaled(
                    number_given(options, "timeout.io_seconds"@, u64::MAX as nat),
                    1_000_000_000,
                ),
            },
        )
    } else {
        None
    }
}

/// The concurrency ceiling that options describe.
pub open spec fn limit_layer(options: Seq<(Seq<char>, Seq<char>)>) -> Option<Layer> {
    match number_given(options, "concurrent_limit"@, usize::MAX as nat) {
        Some(n) => Some(Layer::ConcurrentLimit(n as usize)),
        None => None,
    }
}

/// Mebibytes given for a key in bytes; at least one mebibyte.
pub open spec fn mebibytes(
    options: Seq<(Seq<char>, Seq<char>)>,
    key: Seq<char>,
    default: nat,
) -> nat {
    let number = match number_given(options, key, usize::MAX as nat) {
        Some(n) => n,
        None => default,
    };
    (if number < 1 {
        1nat
    } else {
        number
    }) * (MIB as nat)
}

/// Whether options ask for a cache with an on-disk tier.
pub open spec fn wants_disk(options: Seq<(Seq<char>, Seq<char>)>, disk_tier: bool) -> bool {
    disk_tier && first_given(options, "foyer.disk_path"@) is Some
}

/// Whether the sizes of the cache that options ask for fit the machine.
pub open spec fn sizes_fit(options: Seq<(Seq<char>, Seq<char>)>, disk_tier: bool) -> bool {
    switched_on(options, "foyer.enable"@) ==> {
        &&& mebibytes(options, "foyer.memory_mb"@, 256) <= usize::MAX
        &&& wants_disk(options, disk_tier) ==> {
            &&& mebibytes(options, "foyer.disk_mb"@, 1024) <= usize::MAX
            &&& mebibytes(options, "foyer.block_mb"@, 4) <= usize::MAX
        }
    }
}

/// Whether a cache is the one that options ask for.  The on-disk tier is left out
/// where `disk_tier` says that there is none.
pub open spec fn is_cache(
    layer: CacheLayer,
    options: Seq<(Seq<char>, Seq<char>)>,
    disk_tier: bool,
) -> bool {
    &&& layer.memory_size == mebibytes(options, "foyer.memory_mb"@, 256)
    &&& layer.shards == 4
    &&& layer.admits is None
    &&& if wants_disk(options, disk_tier) {
        layer.disk matches Some(disk) && {
            &&& Some(disk.path@) == first_given(options, "foyer.disk_path"@)
            &&& disk.namespace is None
            &&& disk.size == mebibytes(options, "foyer.disk_mb"@, 1024)
            &&& disk.block_size == mebibytes(options, "foyer.block_mb"@, 4)
        }
    } else {
        layer.disk is None
    }
}

/// One where there is something, zero where there is nothing.
pub open spec fn present(there: bool) -> int {
    if there {
        1
    } else {
        0
    }
}

/// Whether layers are those that options describe, in the order in which they go
/// around the operator.
pub open spec fn are_layers(
    layers: Seq<Layer>,
    options: Seq<(Seq<char>, Seq<char>)>,
    factor: Option<u32>,
    disk_tier: bool,
) -> bool {
    let retry = present(retry_layer(options, factor) is Some);
    let timeout = present(timeout_layer(options) is Some);
    let limit = present(limit_layer(options) is Some);
    let cache = present(switched_on(options, "foyer.enable"@));
    &&& layers.len() == retry + timeout + limit + cache
    &&& retry_layer(options, factor) matches Some(layer) ==> layers[0] == layer
    &&& timeout_layer(options) matches Some(layer) ==> layers[retry] == layer
    &&& limit_layer(options) matches Some(layer) ==> layers[retry + timeout] == layer
    &&& switched_on(options, "foyer.enable"@) ==> (layers[retry + timeout + limit] matches
        Layer::Cache(layer) && is_cache(layer, options, disk_tier))
}

fn retry(opts: &Vec<(String, String)>, factor: Option<u32>) -> (layer: Option<Layer>)
    ensures
        layer == retry_layer(ffi::pair_views(opts@), factor),
{
    let has_factor: bool = get(opts, "retry.factor").is_some();
    if get(opts, "retry.max_times").is_some() || has_factor || get(opts, "retry.jitter").is_some()
        || get(opts, "retry.min_delay_ms").is_some() || get(opts, "retry.max_delay_ms").is_some() {
        let max_times: Option<usize> = match number(opts, "retry.max_times", usize::MAX as u64) {
            Some(n) => Some(n as usize),
            None => None,
        };
        Some(
            Layer::Retry {
                max_times,
                factor: if has_factor {
                    factor
                } else {
                    None
                },
                jitter: switch(opts, "retry.jitter"),
                min_delay: nanos(number(opts, "retry.min_delay_ms", u64::MAX), 1_000_000),
                max_delay: nanos(number(opts, "retry.max_delay_ms", u64::MAX), 1_000_000),
            },
        )
    } else {
        None
    }
}

fn timeout(opts: &Vec<(String, String)>) -> (layer: Option<Layer>)
    ensures
        layer == timeout_layer(ffi::pair_views(opts@)),
{
    if get(opts, "timeout.seconds").is_some() || get(opts, "timeout.io_seconds").is_some() {
        Some(
            Layer::Timeout {
                operation: nanos(number(opts, "timeout.seconds", u64::MAX), 1_000_000_000),
                io: nanos(number(opts, "timeout.io_seconds", u64::MAX), 1_000_000_000),
            },
        )
    } else {
        None
    }
}

fn limit(opts: &Vec<(String, String)>) -> (layer: Option<Layer>)
    ensures
        layer == limit_layer(ffi::pair_views(opts@)),
{
    match number(opts, "concurrent_limit", usize::MAX as u64) {
        Some(n) => Some(Layer::ConcurrentLimit(n as usize)),
        None => None,
    }
}

fn bytes(opts: &Vec<(String, String)>, key: &str, default: usize) -> (bytes: Option<usize>)
    ensures
        match bytes {
            Some(b) => b == mebibytes(ffi::pair_views(opts@), key@, default as nat),
            None => mebibytes(ffi::pair_views(opts@), key@, default as nat) > usize::MAX,
        },
{
    let given: usize = match number(opts, key, usize::MAX as u64) {
        Some(n) => n as usize,
        None => default,
    };
    let number: usize = if given < 1 {
        1
    } else {
        given
    };
    number.checked_mul(MIB)
}

/// The cache that options ask for, or nothing where its sizes do not fit.
fn build_foyer(opts: &Vec<(String, String)>, disk_tier: bool) -> (layer: Option<CacheLayer>)
    requires
        switched_on(ffi::pair_views(opts@), "foyer.enable"@),
    ensures
        layer is Some <==> sizes_fit(ffi::pair_views(opts@), disk_tier),
        layer matches Some(l) ==> is_cache(l, ffi::pair_views(opts@), disk_tier),
{
    let memory_size: usize = match bytes(opts, "foyer.memory_mb", 256) {
        Some(bytes) => bytes,
        None => {
            return None;
        },
    };
    let path: Option<String> = match get(opts, "foyer.disk_path") {
        Some(path) => if disk_tier {
            Some(path.clone())
        } else {
            None
        },
        None => None,
    };
    let disk: Option<DiskTier> = match path {
        Some(path) => match (bytes(opts, "foyer.disk_mb", 1024), bytes(opts, "foyer.block_mb", 4)) {
            (Some(size), Some(block_size)) => Some(
                DiskTier { path, namespace: None, size, block_size },
            ),
            _ => {
                return None;
            },
        },
        None => None,
    };
    Some(CacheLayer { memory_size, shards: 4, disk, admits: None })
}

/// The layers that options describe, innermost first, or nothing where the sizes
/// of the cache do not fit the machine.  `factor` is the number that the value of
/// `retry.factor` spells, as single-precision bits; `disk_tier` says whether the
/// cache can have an on-disk tier.
pub fn apply_layers(
    opts: &Vec<(String, String)>,
    factor: Option<u32>,
    disk_tier: bool,
) -> (layers: Option<Vec<Layer>>)
    ensures
        layers is Some <==> sizes_fit(ffi::pair_views(opts@), disk_tier),
        layers matches Some(l) ==> are_layers(l@, ffi::pair_views(opts@), factor, disk_tier),
{
    let mut layers: Vec<Layer> = Vec::new();
    match retry(opts, factor) {
        Some(layer) => layers.push(layer),
        None => {},
    }
    match timeout(opts) {
        Some(layer) => layers.push(layer),
        None => {},
    }
    match limit(opts) {
        Some(layer) => layers.push(layer),
        None => {},
    }
    if switch(opts, "foyer.enable") {
        match build_foyer(opts, disk_tier) {
            Some(layer) => layers.push(Layer::Cache(layer)),
            None => {
                return None;
            },
        }
    }
    Some(layers)
}

/// Without options there are no layers.
pub proof fn law_no_options_no_layers(factor: Option<u32>, disk_tier: bool, layers: Seq<Layer>)
    requires
        are_layers(layers, Seq::empty(), factor, disk_tier),
    ensures
        layers.len() == 0,
        sizes_fit(Seq::empty(), disk_tier),
{
}

/// What the first value of a key is does not depend on other keys.
proof fn lemma_other_key(
    options: Seq<(Seq<char>, Seq<char>)>,
    key: Seq<char>,
    value: Seq<char>,
    other: Seq<char>,
)
    requires
        key != other,
    ensures
        first_given(options.push((key, value)), other) == first_given(options, other),
    decreases options.len(),
{
    let more = options.push((key, value));
    if options.len() == 0 {
        assert(more.drop_first() =~= Seq::<(Seq<char>, Seq<char>)>::empty());
    } else {
        assert(more[0] == options[0]);
        assert(more.drop_first() =~= options.drop_first().push((key, value)));
        lemma_other_key(options.drop_first(), key, value, other);
    }
}

/// Whether a key has a meaning for layers.
pub open spec fn is_known(key: Seq<char>) -> bool {
    ||| key == "retry.max_times"@
    ||| key == "retry.factor"@
    ||| key == "retry.jitter"@
    ||| key == "retry.min_delay_ms"@
    ||| key == "retry.max_delay_ms"@
    ||| key == "timeout.seconds"@
    ||| key == "timeout.io_seconds"@
    ||| key == "concurrent_limit"@
    ||| key == "foyer.enable"@
    ||| key == "foyer.memory_mb"@
    ||| key == "foyer.disk_path"@
    ||| key == "foyer.disk_mb"@
    ||| key == "foyer.block_mb"@
}

/// Unknown keys are ignored: one more of them changes no layer.
pub proof fn law_unknown_keys_are_ignored(
    options: Seq<(Seq<char>, Seq<char>)>,
    key: Seq<char>,
    value: Seq<char>,
    factor: Option<u32>,
    disk_tier: bool,
    layers: Seq<Layer>,
)
    requires
        !is_known(key),
    ensures
        are_layers(layers, options.push((key, value)), factor, disk_tier) == are_layers(
            layers,
            options,
            factor,
            disk_tier,
        ),
        sizes_fit(options.push((key, value)), disk_tier) == sizes_fit(options, disk_tier),
{
    lemma_other_key(options, key, value, "retry.max_times"@);
    lemma_other_key(options, key, value, "retry.factor"@);
    lemma_other_key(options, key, value, "retry.jitter"@);
    lemma_other_key(options, key, value, "retry.min_delay_ms"@);
    lemma_other_key(options, key, value, "retry.max_delay_ms"@);
    lemma_other_key(options, key, value, "timeout.seconds"@);
    lemma_other_key(options, key, value, "timeout.io_seconds"@);
    lemma_other_key(options, key, value, "concurrent_limit"@);
    lemma_other_key(options, key, value, "foyer.enable"@);
    lemma_other_key(options, key, value, "foyer.memory_mb"@);
    lemma_other_key(options, key, value, "foyer.disk_path"@);
    lemma_other_key(options, key, value, "foyer.disk_mb"@);
    lemma_other_key(options, key, value, "foyer.block_mb"@);
}

} // verus!
