//! Operator configuration: typed sections of cross-service options.
//!
//! Options are given as pairs under keys such as `io.read.concurrent`: a section
//! and a key of that section.  The last value given for a key counts.

use vstd::prelude::*;

use crate::complaint;
use crate::config::cache::CacheConfig;
use crate::config::io::IoConfig;
use crate::config::layer::Layer;
use crate::config::retry::RetryConfig;
use crate::config::timeout::TimeoutConfig;
use crate::ffi;
use crate::text;
use crate::text::{chars_of, find_text, text_eq, text_of};
use crate::text_map::TextMap;

pub mod cache;
pub mod io;
pub mod layer;
pub mod retry;
pub mod section;
pub mod timeout;
pub mod value;

verus! {

/// The section and the key that an option's full key names.
pub open spec fn split_key(key: Seq<char>) -> Option<(Seq<char>, Seq<char>)> {
    match text::first_index_of(key, seq!['.']) {
        Some(i) => Some((key.take(i), key.skip(i + 1))),
        None => None,
    }
}

/// Whether a section exists.
pub open spec fn is_section(name: Seq<char>) -> bool {
    name == "io"@ || name == "retry"@ || name == "timeout"@ || name == "cache"@
}

/// What is wrong with a full key: that it names no section, or none that exists.
pub open spec fn key_error(key: Seq<char>) -> Option<Seq<char>> {
    match split_key(key) {
        Some((name, _)) if is_section(name) => None,
        _ => Some("unknown OpenDAL option '"@ + key + "'"@),
    }
}

/// What is wrong with the first full key that is wrong.
pub open spec fn first_key_error(options: Seq<(Seq<char>, Seq<char>)>) -> Option<Seq<char>>
    decreases options.len(),
{
    if options.len() == 0 {
        None
    } else {
        match first_key_error(options.drop_last()) {
            Some(message) => Some(message),
            None => key_error(options.last().0),
        }
    }
}

/// The entries that options give to a section.
pub open spec fn section_entries(options: Seq<(Seq<char>, Seq<char>)>, name: Seq<char>) -> Map<
    Seq<char>,
    Seq<char>,
>
    decreases options.len(),
{
    if options.len() == 0 {
        Map::empty()
    } else {
        let before = section_entries(options.drop_last(), name);
        match split_key(options.last().0) {
            Some((section, key)) if section == name => before.insert(key, options.last().1),
            _ => before,
        }
    }
}

/// What is wrong with a section, its entries and their relations.
pub open spec fn retry_complaint(entries: Map<Seq<char>, Seq<char>>, bits: Option<u32>) -> Option<
    Seq<char>,
> {
    match complaint::complaint(entries, retry::retry_errors(bits)) {
        Some(message) => Some(message),
        None => if retry::delays_cross(entries) {
            Some("retry.min_delay must not exceed retry.max_delay"@)
        } else {
            None
        },
    }
}

/// What is wrong with a section, its entries and their relations.
pub open spec fn cache_complaint(entries: Map<Seq<char>, Seq<char>>) -> Option<Seq<char>> {
    match complaint::complaint(entries, cache::cache_errors()) {
        Some(message) => Some(message),
        None => if entries == Map::<Seq<char>, Seq<char>>::empty() {
            None
        } else {
            cache::relation_error(entries)
        },
    }
}

/// What is wrong with options: their keys, then one section after the other.
/// `bits` is the number that the value of `retry.factor` spells.
pub open spec fn config_error(options: Seq<(Seq<char>, Seq<char>)>, bits: Option<u32>) -> Option<
    Seq<char>,
> {
    let io = complaint::complaint(section_entries(options, "io"@), io::io_errors());
    let retry = retry_complaint(section_entries(options, "retry"@), bits);
    let timeout = complaint::complaint(
        section_entries(options, "timeout"@),
        timeout::timeout_errors(),
    );
    if first_key_error(options) is Some {
        first_key_error(options)
    } else if io is Some {
        io
    } else if retry is Some {
        retry
    } else if timeout is Some {
        timeout
    } else {
        cache_complaint(section_entries(options, "cache"@))
    }
}

fn split(key: &str) -> (parts: Option<(String, String)>)
    ensures
        match split_key(key@) {
            Some((name, rest)) => parts matches Some(p) && p.0@ == name && p.1@ == rest,
            None => parts is None,
        },
{
    let chars: Vec<char> = chars_of(key);
    let dot: Vec<char> = vec!['.'];
    assert(dot@ =~= seq!['.']);
    let len: usize = chars.len();
    match find_text(&chars, &dot) {
        Some(i) => {
            assert(key@.subrange(0, i as int) =~= key@.take(i as int));
            assert(key@.subrange(i + 1, len as int) =~= key@.skip(i + 1));
            Some((text_of(&chars, 0, i), text_of(&chars, i + 1, len)))
        },
        None => None,
    }
}

fn unknown_option(key: &str) -> (message: String)
    ensures
        message@ == "unknown OpenDAL option '"@ + key@ + "'"@,
{
    let mut message: String = "unknown OpenDAL option '".to_owned();
    message.append(key);
    message.append("'");
    message
}

/// A complaint about the first keys is the complaint about the keys.
proof fn lemma_key_error_prefix(options: Seq<(Seq<char>, Seq<char>)>, n: int)
    requires
        0 <= n <= options.len(),
        first_key_error(options.take(n)) is Some,
    ensures
        first_key_error(options) == first_key_error(options.take(n)),
    decreases options.len(),
{
    if n == options.len() {
        assert(options.take(n) =~= options);
    } else {
        assert(options.drop_last().take(n) =~= options.take(n));
        lemma_key_error_prefix(options.drop_last(), n);
    }
}

/// The text that options give for `retry.factor`.
pub open spec fn factor_given(options: Seq<(Seq<char>, Seq<char>)>) -> Option<Seq<char>> {
    section::given(section_entries(options, "retry"@), "factor"@)
}

/// The text that options give for `retry.factor`: what has to be read as a number
/// before the options can be parsed.
pub fn effective_factor(values: &Vec<(String, String)>) -> (factor: Option<String>)
    ensures
        match factor_given(ffi::pair_views(values@)) {
            Some(text) => factor matches Some(f) && f@ == text,
            None => factor is None,
        },
{
    let ghost options = ffi::pair_views(values@);
    let mut factor: Option<String> = None;
    let mut i: usize = 0;
    while i < values.len()
        invariant
            options == ffi::pair_views(values@),
            i <= values@.len(),
            match factor_given(options.take(i as int)) {
                Some(text) => factor matches Some(f) && f@ == text,
                None => factor is None,
            },
        decreases values@.len() - i,
    {
        assert(options.take(i + 1).drop_last() =~= options.take(i as int));
        assert(options.take(i + 1).last() == options[i as int]);
        match split(values[i].0.as_str()) {
            Some((name, key)) => if text_eq(name.as_str(), "retry") && text_eq(
                key.as_str(),
                "factor",
            ) {
                factor = Some(values[i].1.clone());
            },
            None => {},
        }
        i += 1;
    }
    assert(options.take(i as int) =~= options);
    factor
}

/// Typed options of an operator.
pub struct OperatorConfig {
    pub io: IoConfig,
    pub retry: Option<RetryConfig>,
    pub timeout: Option<TimeoutConfig>,
    pub cache: Option<CacheConfig>,
    pub cache_namespace: Option<String>,
}

/// The entries of a section after one more option.
proof fn lemma_insert_entry(
    section: &TextMap<String>,
    after: &TextMap<String>,
    key: Seq<char>,
    value: String,
)
    requires
        after@ == section@.insert(key, value),
    ensures
        complaint::entries(after) == complaint::entries(section).insert(key, value@),
{
    assert(complaint::entries(after) =~= complaint::entries(section).insert(key, value@));
}

/// Sections of options, each with the last value given for each of its keys.
struct Sections {
    io: TextMap<String>,
    retry: TextMap<String>,
    timeout: TextMap<String>,
    cache: TextMap<String>,
}

impl Sections {
    /// Whether these are the sections of options.
    spec fn hold(self, options: Seq<(Seq<char>, Seq<char>)>) -> bool {
        &&& self.io.wf()
        &&& self.retry.wf()
        &&& self.timeout.wf()
        &&& self.cache.wf()
        &&& complaint::entries(&self.io) == section_entries(options, "io"@)
        &&& complaint::entries(&self.retry) == section_entries(options, "retry"@)
        &&& complaint::entries(&self.timeout) == section_entries(options, "timeout"@)
        &&& complaint::entries(&self.cache) == section_entries(options, "cache"@)
    }

    /// Sort options into their sections.
    fn collect(values: &Vec<(String, String)>) -> (sections: Result<Sections, String>)
        ensures
            match first_key_error(ffi::pair_views(values@)) {
                Some(message) => sections matches Err(e) && e@ == message,
                None => sections matches Ok(s) && s.hold(ffi::pair_views(values@)),
            },
    {
        let ghost options = ffi::pair_views(values@);
        let mut sections: Sections = Sections {
            io: TextMap::new(),
            retry: TextMap::new(),
            timeout: TextMap::new(),
            cache: TextMap::new(),
        };
        proof {
            let none = Map::<Seq<char>, Seq<char>>::empty();
            assert(complaint::entries(&sections.io) =~= none);
            assert(complaint::entries(&sections.retry) =~= none);
            assert(complaint::entries(&sections.timeout) =~= none);
            assert(complaint::entries(&sections.cache) =~= none);
            assert(options.take(0) =~= Seq::<(Seq<char>, Seq<char>)>::empty());
            reveal_strlit("io");
            reveal_strlit("retry");
            reveal_strlit("timeout");
            reveal_strlit("cache");
        }
        let mut i: usize = 0;
        while i < values.len()
            invariant
                options == ffi::pair_views(values@),
                i <= values@.len(),
                sections.hold(options.take(i as int)),
                first_key_error(options.take(i as int)) is None,
                "io"@.len() == 2,
                "retry"@.len() == 5,
                "timeout"@.len() == 7,
                "cache"@.len() == 5,
                "retry"@[0] != "cache"@[0],
            decreases values@.len() - i,
        {
            let ghost before = sections;
            let ghost next = options.take(i + 1);
            assert(next.drop_last() =~= options.take(i as int));
            assert(next.last() == options[i as int]);
            let key: &str = values[i].0.as_str();
            let value: String = values[i].1.clone();
            let (name, rest): (String, String) = match split(key) {
                Some(parts) => parts,
                None => {
                    proof {
                        lemma_key_error_prefix(options, i + 1);
                    }
                    return Err(unknown_option(key));
                },
            };
            let ghost k = rest@;
            if text_eq(name.as_str(), "io") {
                sections.io.insert(rest, value);
                proof {
                    lemma_insert_entry(&before.io, &sections.io, k, value);
                }
            } else if text_eq(name.as_str(), "retry") {
                sections.retry.insert(rest, value);
                proof {
                    lemma_insert_entry(&before.retry, &sections.retry, k, value);
                }
            } else if text_eq(name.as_str(), "timeout") {
                sections.timeout.insert(rest, value);
                proof {
                    lemma_insert_entry(&before.timeout, &sections.timeout, k, value);
                }
            } else if text_eq(name.as_str(), "cache") {
                sections.cache.insert(rest, value);
                proof {
                    lemma_insert_entry(&before.cache, &sections.cache, k, value);
                }
            } else {
                proof {
                    lemma_key_error_prefix(options, i + 1);
                }
                return Err(unknown_option(key));
            }
            i += 1;
        }
        assert(options.take(i as int) =~= options);
        Ok(sections)
    }
}

impl OperatorConfig {
    /// Whether this is what options without complaint configure.  A section
    /// without entries configures no layer.
    pub open spec fn reads(self, options: Seq<(Seq<char>, Seq<char>)>, bits: Option<u32>) -> bool {
        let retry = section_entries(options, "retry"@);
        let timeout = section_entries(options, "timeout"@);
        let cache = section_entries(options, "cache"@);
        &&& self.io.reads(section_entries(options, "io"@))
        &&& self.retry is None <==> retry == Map::<Seq<char>, Seq<char>>::empty()
        &&& self.retry matches Some(config) ==> config.reads(retry, bits)
        &&& self.timeout is None <==> timeout == Map::<Seq<char>, Seq<char>>::empty()
        &&& self.timeout matches Some(config) ==> config.reads(timeout)
        &&& self.cache is None <==> cache == Map::<Seq<char>, Seq<char>>::empty()
        &&& self.cache matches Some(config) ==> config.reads(cache) && config.wf()
    }

    /// Parse options.  `factor` is the number that the value of `retry.factor`
    /// spells, as single-precision bits, or nothing where it spells none.
    pub fn parse(
        values: &Vec<(String, String)>,
        cache_namespace: Option<String>,
        factor: Option<u32>,
    ) -> (config: Result<OperatorConfig, String>)
        ensures
            match config_error(ffi::pair_views(values@), factor) {
                Some(message) => config matches Err(e) && e@ == message,
                None => config matches Ok(c) && c.reads(ffi::pair_views(values@), factor)
                    && c.cache_namespace == cache_namespace,
            },
    {
        let sections: Sections = match Sections::collect(values) {
            Ok(sections) => sections,
            Err(message) => {
                return Err(message);
            },
        };
        let io: IoConfig = match IoConfig::parse(&sections.io) {
            Ok(io) => io,
            Err(message) => {
                return Err(message);
            },
        };
        proof {
            lemma_empty_retry_delays();
        }
        let retry: Option<RetryConfig> = match RetryConfig::parse(&sections.retry, factor) {
            Ok(retry) => retry,
            Err(message) => {
                return Err(message);
            },
        };
        let timeout: Option<TimeoutConfig> = match TimeoutConfig::parse(&sections.timeout) {
            Ok(timeout) => timeout,
            Err(message) => {
                return Err(message);
            },
        };
        let cache: Option<CacheConfig> = match CacheConfig::parse(&sections.cache) {
            Ok(cache) => cache,
            Err(message) => {
                return Err(message);
            },
        };
        Ok(OperatorConfig { io, retry, timeout, cache, cache_namespace })
    }

    /// Whether layers are those that this configures, in the order in which they
    /// go around the operator: retry, timeout, the concurrency ceiling, cache.
    pub open spec fn stacks(self, layers: Seq<Layer>) -> bool {
        let retry: int = if self.retry is Some {
            1
        } else {
            0
        };
        let timeout: int = if self.timeout is Some {
            1
        } else {
            0
        };
        let limit: int = if self.io.concurrent_limit is Some {
            1
        } else {
            0
        };
        let cache: int = if self.cache is Some {
            1
        } else {
            0
        };
        &&& layers.len() == retry + timeout + limit + cache
        &&& self.retry matches Some(config) ==> layers[0] == config.layer()
        &&& self.timeout matches Some(config) ==> layers[retry] == config.layer()
        &&& self.io.concurrent_limit matches Some(limit) ==> (layers[retry + timeout] matches
            Layer::ConcurrentLimit(n) && n == limit@)
        &&& self.cache matches Some(config) ==> (layers[retry + timeout + limit] matches
            Layer::Cache(layer) && config.builds(
            text::optional_text(self.cache_namespace),
            layer,
        ))
    }

    /// The layers that this configures, innermost first.
    pub fn apply_layers(&self) -> (layers: Vec<Layer>)
        ensures
            self.stacks(layers@),
    {
        let mut layers: Vec<Layer> = Vec::new();
        match &self.retry {
            Some(config) => layers.push(config.apply()),
            None => {},
        }
        match &self.timeout {
            Some(config) => layers.push(config.apply()),
            None => {},
        }
        match self.io.apply_layer() {
            Some(layer) => layers.push(layer),
            None => {},
        }
        match &self.cache {
            Some(config) => layers.push(config.apply(self.cache_namespace.as_ref())),
            None => {},
        }
        layers
    }
}

/// A section without entries has no delays to compare.
proof fn lemma_empty_retry_delays()
    ensures
        !retry::delays_cross(Map::<Seq<char>, Seq<char>>::empty()),
{
}

/// Options give finitely many entries.
proof fn lemma_entries_finite(options: Seq<(Seq<char>, Seq<char>)>, name: Seq<char>)
    ensures
        section_entries(options, name).dom().finite(),
    decreases options.len(),
{
    if options.len() > 0 {
        lemma_entries_finite(options.drop_last(), name);
    }
}

/// A key outside the known sections is never accepted.
pub proof fn law_unknown_sections_are_refused(
    options: Seq<(Seq<char>, Seq<char>)>,
    i: int,
    bits: Option<u32>,
)
    requires
        0 <= i < options.len(),
        key_error(options[i].0) is Some,
    ensures
        config_error(options, bits) is Some,
{
    lemma_earlier_key_error(options, i);
}

proof fn lemma_earlier_key_error(options: Seq<(Seq<char>, Seq<char>)>, i: int)
    requires
        0 <= i < options.len(),
        key_error(options[i].0) is Some,
    ensures
        first_key_error(options) is Some,
    decreases options.len(),
{
    if i < options.len() - 1 {
        assert(options.drop_last()[i] == options[i]);
        lemma_earlier_key_error(options.drop_last(), i);
    }
}

/// Sections reject unknown keys and malformed values, whatever else is given.
pub proof fn law_bad_entries_are_refused(
    options: Seq<(Seq<char>, Seq<char>)>,
    bits: Option<u32>,
    key: Seq<char>,
)
    requires
        ({
            let io = section_entries(options, "io"@);
            let retry = section_entries(options, "retry"@);
            let timeout = section_entries(options, "timeout"@);
            let cache = section_entries(options, "cache"@);
            ||| io.dom().contains(key) && io::io_error(key, io[key]) is Some
            ||| retry.dom().contains(key) && retry::retry_error(key, retry[key], bits) is Some
            ||| timeout.dom().contains(key) && timeout::timeout_error(key, timeout[key]) is Some
            ||| cache.dom().contains(key) && cache::cache_error(key, cache[key]) is Some
        }),
    ensures
        config_error(options, bits) is Some,
{
    let io = section_entries(options, "io"@);
    let retry = section_entries(options, "retry"@);
    let timeout = section_entries(options, "timeout"@);
    let cache = section_entries(options, "cache"@);
    lemma_entries_finite(options, "io"@);
    lemma_entries_finite(options, "retry"@);
    lemma_entries_finite(options, "timeout"@);
    lemma_entries_finite(options, "cache"@);
    if io.dom().contains(key) && io::io_error(key, io[key]) is Some {
        complaint::law_complaints_are_found(io, io::io_errors(), key);
    } else if retry.dom().contains(key) && retry::retry_error(key, retry[key], bits) is Some {
        complaint::law_complaints_are_found(retry, retry::retry_errors(bits), key);
    } else if timeout.dom().contains(key) && timeout::timeout_error(key, timeout[key]) is Some {
        complaint::law_complaints_are_found(timeout, timeout::timeout_errors(), key);
    } else {
        complaint::law_complaints_are_found(cache, cache::cache_errors(), key);
    }
}

/// Sections are independent: an option changes the entries of its own section
/// alone, and there it replaces what was given for its key before.
pub proof fn law_sections_are_independent(
    options: Seq<(Seq<char>, Seq<char>)>,
    key: Seq<char>,
    value: Seq<char>,
    name: Seq<char>,
)
    requires
        split_key(key) is Some,
    ensures
        ({
            let (section, rest) = split_key(key)->0;
            let before = section_entries(options, name);
            let after = section_entries(options.push((key, value)), name);
            if section == name {
                after == before.insert(rest, value)
            } else {
                after == before
            }
        }),
{
    assert(options.push((key, value)).drop_last() =~= options);
}

/// Options that are accepted make sense together: a multiplier is finite and at
/// least 1, delays are the right way round, and so are the sizes of a cache.
pub proof fn law_accepted_options_are_consistent(
    config: OperatorConfig,
    options: Seq<(Seq<char>, Seq<char>)>,
    bits: Option<u32>,
)
    requires
        config_error(options, bits) is None,
        config.reads(options, bits),
    ensures
        config.retry matches Some(config) ==> {
            &&& config.factor matches Some(bits) ==> retry::admits_factor(bits)
            &&& config.min_delay matches Some(min) ==> config.max_delay matches Some(max) ==> min@
                <= max@
        },
        config.cache matches Some(config) ==> config.wf(),
{
    let entries = section_entries(options, "retry"@);
    lemma_entries_finite(options, "retry"@);
    if entries.dom().contains("factor"@) && retry::factor_error(entries["factor"@], bits) is Some {
        reveal_strlit("factor");
        reveal_strlit("max_times");
        complaint::law_complaints_are_found(entries, retry::retry_errors(bits), "factor"@);
    }
}

/// The layers of an operator are decided by its sections alone: a section without
/// entries adds no layer, and one with entries adds its own.
pub proof fn law_layers_follow_sections(
    config: OperatorConfig,
    options: Seq<(Seq<char>, Seq<char>)>,
    bits: Option<u32>,
    layers: Seq<Layer>,
)
    requires
        config.reads(options, bits),
        config.stacks(layers),
    ensures
        options.len() == 0 ==> layers.len() == 0,
        (exists|i: int| 0 <= i < layers.len() && (#[trigger] layers[i]) is Retry)
            <==> section_entries(options, "retry"@) != Map::<Seq<char>, Seq<char>>::empty(),
        (exists|i: int| 0 <= i < layers.len() && (#[trigger] layers[i]) is Timeout)
            <==> section_entries(options, "timeout"@) != Map::<Seq<char>, Seq<char>>::empty(),
        (exists|i: int| 0 <= i < layers.len() && (#[trigger] layers[i]) is Cache)
            <==> section_entries(options, "cache"@) != Map::<Seq<char>, Seq<char>>::empty(),
        config.cache is Some ==> layers.last() is Cache,
{
    lemma_stacked(config, layers);
    if options.len() == 0 {
        assert(section::positive_given(section_entries(options, "io"@), "concurrent_limit"@)
            is None);
    }
}

/// Each configured part adds its layer, and nothing else does.
proof fn lemma_stacked(config: OperatorConfig, layers: Seq<Layer>)
    requires
        config.stacks(layers),
    ensures
        (exists|i: int| 0 <= i < layers.len() && (#[trigger] layers[i]) is Retry)
            <==> config.retry is Some,
        (exists|i: int| 0 <= i < layers.len() && (#[trigger] layers[i]) is Timeout)
            <==> config.timeout is Some,
        (exists|i: int| 0 <= i < layers.len() && (#[trigger] layers[i]) is Cache)
            <==> config.cache is Some,
        config.cache is Some ==> layers.last() is Cache,
        config.retry is None && config.timeout is None && config.io.concurrent_limit is None
            && config.cache is None ==> layers.len() == 0,
{
    if config.retry is Some {
        assert(layers[0] is Retry);
    }
    let retry: int = if config.retry is Some {
        1
    } else {
        0
    };
    if config.timeout is Some {
        assert(layers[retry] is Timeout);
    }
    if config.cache is Some {
        assert(layers[layers.len() - 1] is Cache);
    }
}

} // verus!
