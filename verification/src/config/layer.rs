//! Layers to put around an operator, as plain instructions.

use vstd::prelude::*;

verus! {

/// The on-disk tier of a data cache.
pub struct DiskTier {
    /// Base directory.
    pub path: String,
    /// Directory under the base directory, where one is set apart.
    pub namespace: Option<String>,
    /// Bytes of the tier.
    pub size: usize,
    /// Bytes per block.
    pub block_size: usize,
}

/// A data cache: where it lives, how large it is, and what it admits.
pub struct CacheLayer {
    /// Bytes of the in-memory tier.
    pub memory_size: usize,
    /// Shards of the in-memory tier.
    pub shards: usize,
    /// The on-disk tier.
    pub disk: Option<DiskTier>,
    /// The size of the smallest object admitted, and what an admitted object's
    /// size stays below.  Unset leaves the cache to its default.
    pub admits: Option<(usize, Option<usize>)>,
}

/// One layer.  Durations are in nanoseconds.
pub enum Layer {
    /// Retry failed operations.
    Retry {
        max_times: Option<usize>,
        /// Single-precision bits of the backoff multiplier.
        factor: Option<u32>,
        jitter: bool,
        min_delay: Option<u128>,
        max_delay: Option<u128>,
    },
    /// Give up on operations that take too long.
    Timeout { operation: Option<u128>, io: Option<u128> },
    /// Bound the number of concurrent requests.
    ConcurrentLimit(usize),
    /// Cache object data.
    Cache(CacheLayer),
}

} // verus!
