//! The `cache` section: the operator's own data cache.

use vstd::prelude::*;

use crate::complaint;
use crate::config::layer::{CacheLayer, DiskTier, Layer};
use crate::config::section;
use crate::config::section::{positive_at, size_at};
use crate::config::value;
use crate::config::value::{non_empty_path, positive_usize, unknown, ByteSize, Positive};
use crate::text;
use crate::text::text_eq;
use crate::text_map::TextMap;

verus! {

/// The `cache` section.
pub struct CacheConfig {
    /// In-memory data-cache size.
    pub memory_size: ByteSize,
    /// Optional base directory for isolated persistent cache namespaces.
    pub disk_path: Option<String>,
    /// Persistent cache size.
    pub disk_size: ByteSize,
    /// Persistent cache block size.
    pub block_size: ByteSize,
    /// Smallest object admitted to the cache.
    pub min_file_size: ByteSize,
    /// Largest object admitted to the cache.
    pub max_file_size: Option<ByteSize>,
    /// In-memory shard count.
    pub shards: Positive,
}

/// Default in-memory size.
pub const MEMORY_SIZE: usize = 0x1000_0000;

/// Default persistent size.
pub const DISK_SIZE: usize = 0x4000_0000;

/// Default persistent block size.
pub const BLOCK_SIZE: usize = 0x40_0000;

/// Default shard count.
pub const SHARDS: usize = 4;

/// Whether a key's value is a size.
pub open spec fn is_size_key(key: Seq<char>) -> bool {
    key == "memory_size"@ || key == "disk_size"@ || key == "block_size"@ || key == "min_file_size"@
        || key == "max_file_size"@
}

/// What is wrong with an entry of the section.
pub open spec fn cache_error(key: Seq<char>, value: Seq<char>) -> Option<Seq<char>> {
    if is_size_key(key) {
        value::size_error("cache"@, key, value)
    } else if key == "disk_path"@ {
        value::path_error("cache"@, key, value)
    } else if key == "shards"@ {
        value::positive_error("cache"@, key, value)
    } else {
        Some(value::unknown_message("cache"@, key))
    }
}

/// The complaints of the section.
pub open spec fn cache_errors() -> spec_fn(Seq<char>, Seq<char>) -> Option<Seq<char>> {
    |key: Seq<char>, value: Seq<char>| cache_error(key, value)
}

fn check_entry(key: &str, value: &str) -> (message: Option<String>)
    ensures
        match cache_error(key@, value@) {
            Some(text) => message matches Some(m) && m@ == text,
            None => message is None,
        },
{
    if text_eq(key, "memory_size") || text_eq(key, "disk_size") || text_eq(key, "block_size")
        || text_eq(key, "min_file_size") || text_eq(key, "max_file_size") {
        ByteSize::parse("cache", key, value).err()
    } else if text_eq(key, "disk_path") {
        non_empty_path("cache", key, value).err()
    } else if text_eq(key, "shards") {
        positive_usize("cache", key, value).err()
    } else {
        Some(unknown("cache", key))
    }
}

/// The size given for a key, or a default.
pub open spec fn size_or(section: Map<Seq<char>, Seq<char>>, key: Seq<char>, default: nat) -> nat {
    match section::size_given(section, key) {
        Some(bytes) => bytes,
        None => default,
    }
}

/// What is said of a size that has to be positive.
pub open spec fn zero_message(key: Seq<char>) -> Seq<char> {
    "invalid cache."@ + key + "='0': expected a positive size"@
}

/// What is wrong with the section as a whole.
pub open spec fn relation_error(section: Map<Seq<char>, Seq<char>>) -> Option<Seq<char>> {
    if size_or(section, "memory_size"@, MEMORY_SIZE as nat) == 0 {
        Some(zero_message("memory_size"@))
    } else if size_or(section, "disk_size"@, DISK_SIZE as nat) == 0 {
        Some(zero_message("disk_size"@))
    } else if size_or(section, "block_size"@, BLOCK_SIZE as nat) == 0 {
        Some(zero_message("block_size"@))
    } else {
        match section::size_given(section, "max_file_size"@) {
            Some(max) if size_or(section, "min_file_size"@, 0) > max => Some(
                "cache.min_file_size must not exceed cache.max_file_size"@,
            ),
            _ => None,
        }
    }
}

fn size_at_or(section: &TextMap<String>, key: &str, default: usize) -> (size: ByteSize)
    requires
        section.wf(),
    ensures
        size@ == size_or(complaint::entries(section), key@, default as nat),
{
    match size_at(section, key) {
        Some(size) => size,
        None => ByteSize::of(default),
    }
}

fn zero(key: &str) -> (message: String)
    ensures
        message@ == zero_message(key@),
{
    let mut message: String = "invalid cache.".to_owned();
    message.append(key);
    message.append("='0': expected a positive size");
    message
}

/// What the warning about an unusable cache says.
pub open spec fn disabled_message(error: Seq<char>) -> Seq<char> {
    "OpenDAL cache disabled: "@ + error
}

/// The warning about a cache that could not be built.  The operator goes on
/// without it.
pub fn cache_disabled(error: &str) -> (warning: String)
    ensures
        warning@ == disabled_message(error@),
{
    let mut warning: String = "OpenDAL cache disabled: ".to_owned();
    warning.append(error);
    warning
}

impl CacheConfig {
    /// Whether this is what a section without complaint configures.
    pub open spec fn reads(self, section: Map<Seq<char>, Seq<char>>) -> bool {
        &&& self.memory_size@ == size_or(section, "memory_size"@, MEMORY_SIZE as nat)
        &&& match section::given(section, "disk_path"@) {
            Some(path) => self.disk_path matches Some(p) && p@ == path,
            None => self.disk_path is None,
        }
        &&& self.disk_size@ == size_or(section, "disk_size"@, DISK_SIZE as nat)
        &&& self.block_size@ == size_or(section, "block_size"@, BLOCK_SIZE as nat)
        &&& self.min_file_size@ == size_or(section, "min_file_size"@, 0)
        &&& value::size_view(self.max_file_size) == section::size_given(section, "max_file_size"@)
        &&& self.shards@ == match section::positive_given(section, "shards"@) {
            Some(shards) => shards,
            None => SHARDS as nat,
        }
    }

    /// Whether the sizes make sense together.
    pub open spec fn wf(self) -> bool {
        &&& self.memory_size@ > 0
        &&& self.disk_size@ > 0
        &&& self.block_size@ > 0
        &&& self.max_file_size matches Some(max) ==> self.min_file_size@ <= max@
    }

    /// The configuration of a section; none where the section is empty.
    pub fn parse(values: &TextMap<String>) -> (config: Result<Option<CacheConfig>, String>)
        requires
            values.wf(),
        ensures
            match complaint::complaint(complaint::entries(values), cache_errors()) {
                Some(message) => config matches Err(e) && e@ == message,
                None => if complaint::entries(values) == Map::<Seq<char>, Seq<char>>::empty() {
                    config matches Ok(c) && c is None
                } else {
                    match relation_error(complaint::entries(values)) {
                        Some(message) => config matches Err(e) && e@ == message,
                        None => config matches Ok(c) && (c matches Some(cache) && cache.reads(
                            complaint::entries(values),
                        ) && cache.wf()),
                    }
                },
            },
    {
        proof {
            complaint::lemma_empty(values);
            complaint::lemma_complaint(values, cache_errors());
        }
        if values.len() == 0 {
            return Ok(None);
        }
        let ghost rows = values.rows();
        let mut i: usize = 0;
        while i < values.len()
            invariant
                rows == values.rows(),
                values.wf(),
                i <= rows.len(),
                complaint::first_error(rows.take(i as int), cache_errors()) is None,
            decreases rows.len() - i,
        {
            proof {
                complaint::lemma_first_error_step(rows, i as int, cache_errors());
            }
            match check_entry(values.key(i).as_str(), values.value(i).as_str()) {
                Some(message) => {
                    proof {
                        complaint::lemma_first_error_prefix(rows, i + 1, cache_errors());
                        complaint::lemma_complaint(values, cache_errors());
                    }
                    return Err(message);
                },
                None => {},
            }
            i += 1;
        }
        assert(rows.take(i as int) =~= rows);
        let config: CacheConfig = CacheConfig {
            memory_size: size_at_or(values, "memory_size", MEMORY_SIZE),
            disk_path: match values.get("disk_path") {
                Some(path) => Some(path.clone()),
                None => None,
            },
            disk_size: size_at_or(values, "disk_size", DISK_SIZE),
            block_size: size_at_or(values, "block_size", BLOCK_SIZE),
            min_file_size: size_at_or(values, "min_file_size", 0),
            max_file_size: size_at(values, "max_file_size"),
            shards: match positive_at(values, "shards") {
                Some(shards) => shards,
                None => Positive::new(SHARDS).unwrap(),
            },
        };
        if config.memory_size.get() == 0 {
            return Err(zero("memory_size"));
        }
        if config.disk_size.get() == 0 {
            return Err(zero("disk_size"));
        }
        if config.block_size.get() == 0 {
            return Err(zero("block_size"));
        }
        match config.max_file_size {
            Some(max) => if config.min_file_size.get() > max.get() {
                return Err("cache.min_file_size must not exceed cache.max_file_size".to_owned());
            },
            None => {},
        }
        Ok(Some(config))
    }

    /// Whether a layer is the cache that this configures.
    pub open spec fn builds(self, namespace: Option<Seq<char>>, layer: CacheLayer) -> bool {
        &&& layer.memory_size == self.memory_size@
        &&& layer.shards == self.shards@
        &&& match self.disk_path {
            Some(path) => layer.disk matches Some(disk) && disk.path@ == path@ && (
            disk.namespace matches Some(name) && name@ == match namespace {
                Some(name) => name,
                None => "default"@,
            }) && disk.size == self.disk_size@ && disk.block_size == self.block_size@,
            None => layer.disk is None,
        }
        &&& layer.admits matches Some(sizes) && sizes.0 == self.min_file_size@ && match
            self.max_file_size {
            Some(max) if max@ < usize::MAX => sizes.1 matches Some(below) && below == max@ + 1,
            _ => sizes.1 is None,
        }
    }

    /// The cache that this configures.  Each namespace has a directory of its
    /// own under the base directory.
    pub fn build_layer(&self, namespace: Option<&String>) -> (layer: CacheLayer)
        ensures
            self.builds(text::optional_ref(namespace), layer),
    {
        let disk: Option<DiskTier> = match &self.disk_path {
            Some(path) => {
                let name: String = match namespace {
                    Some(name) => name.clone(),
                    None => "default".to_owned(),
                };
                Some(
                    DiskTier {
                        path: path.clone(),
                        namespace: Some(name),
                        size: self.disk_size.get(),
                        block_size: self.block_size.get(),
                    },
                )
            },
            None => None,
        };
        let below: Option<usize> = match self.max_file_size {
            Some(max) => if max.get() < usize::MAX {
                Some(max.get() + 1)
            } else {
                None
            },
            None => None,
        };
        CacheLayer {
            memory_size: self.memory_size.get(),
            shards: self.shards.get(),
            disk,
            admits: Some((self.min_file_size.get(), below)),
        }
    }

    /// The layer that this configures.
    pub fn apply(&self, namespace: Option<&String>) -> (layer: Layer)
        ensures
            layer matches Layer::Cache(cache) && self.builds(
                text::optional_ref(namespace),
                cache,
            ),
    {
        Layer::Cache(self.build_layer(namespace))
    }
}

/// A cache admits exactly the objects whose size lies within the configured
/// bounds.
pub proof fn law_admitted_sizes(
    config: CacheConfig,
    namespace: Option<Seq<char>>,
    layer: CacheLayer,
    bytes: usize,
)
    requires
        config.builds(namespace, layer),
    ensures
        layer.admits matches Some(sizes) && ((sizes.0 <= bytes && (sizes.1 matches Some(below)
            ==> bytes < below)) <==> (config.min_file_size@ <= bytes && (
        config.max_file_size matches Some(max) ==> bytes <= max@))),
{
}

/// Namespaces are isolated: under one base directory, different namespaces live in
/// directories of different names.
pub proof fn law_namespaces_are_isolated(
    config: CacheConfig,
    a: Seq<char>,
    b: Seq<char>,
    of_a: CacheLayer,
    of_b: CacheLayer,
)
    requires
        config.disk_path is Some,
        config.builds(Some(a), of_a),
        config.builds(Some(b), of_b),
        a != b,
    ensures
        of_a.disk is Some,
        of_b.disk is Some,
        of_a.disk->0.path@ == of_b.disk->0.path@,
        of_a.disk->0.namespace is Some,
        of_b.disk->0.namespace is Some,
        of_a.disk->0.namespace->0@ != of_b.disk->0.namespace->0@,
{
}

} // verus!
