use std::time::Duration;

use duckdb_opendal::config::cache::{cache_disabled, CacheConfig};
use duckdb_opendal::config::layer::Layer;
use duckdb_opendal::config::value::{
    boolean, float, invalid, non_empty_path, positive_usize, unknown, usize_value, ByteSize,
    HumanDuration, Positive,
};
use duckdb_opendal::config::{effective_factor, OperatorConfig};
use duckdb_opendal::error::OdErrorCode;
use duckdb_opendal::ffi::CText;
use duckdb_opendal::operator::{od_operator_new, operator_input};
use duckdb_opendal::text_map::TextMap;

fn values(values: &[(&str, &str)]) -> Vec<(String, String)> {
    values
        .iter()
        .map(|(key, value)| (key.to_string(), value.to_string()))
        .collect()
}

fn section(values: &[(&str, &str)]) -> TextMap<String> {
    let mut section = TextMap::new();
    for (key, value) in values {
        section.insert(key.to_string(), value.to_string());
    }
    section
}

fn refused(options: &[(&str, &str)], factor: Option<u32>) -> String {
    match OperatorConfig::parse(&values(options), None, factor) {
        Ok(_) => panic!("accepted"),
        Err(message) => message,
    }
}

fn bytes(value: &str) -> Option<usize> {
    ByteSize::parse("io", "chunk_size", value).ok().map(|size| size.get())
}

fn nanos(value: &str) -> Option<u128> {
    HumanDuration::parse("timeout", "io_timeout", value)
        .ok()
        .map(|duration| duration.get())
}

#[test]
fn parses_sections_into_typed_config() {
    let config = OperatorConfig::parse(
        &values(&[
            ("io.read.concurrent", "2"),
            ("io.read.chunk_size", "8 MiB"),
            ("retry.min_delay", "100ms"),
            ("retry.max_delay", "10s"),
            ("timeout.operation_timeout", "1m"),
            ("cache.memory_size", "256 MiB"),
        ]),
        Some("namespace".to_string()),
        None,
    )
    .unwrap();
    assert_eq!(config.io.read.concurrent.map(|value| value.get()), Some(2));
    assert_eq!(config.io.read_chunk(), Some(8 * 1024 * 1024));
    assert!(config.retry.is_some());
    assert!(config.timeout.is_some());
    assert!(config.cache.is_some());
    assert_eq!(config.cache_namespace.as_deref(), Some("namespace"));
    assert_eq!(config.io.write_chunk(), None);
}

#[test]
fn rejects_unknown_and_old_keys() {
    for key in [
        "cache.shradz",
        "cache.memory_mb",
        "timeout.seconds",
        "retry.min_delay_ms",
    ] {
        assert!(
            OperatorConfig::parse(&values(&[(key, "1")]), None, None).is_err(),
            "accepted {key}"
        );
    }
}

#[test]
fn parses_raw_and_human_units() {
    assert_eq!(
        ByteSize::parse("io", "chunk_size", "1048576")
            .unwrap()
            .get(),
        1_048_576
    );
    assert_eq!(
        ByteSize::parse("io", "chunk_size", "1 MiB").unwrap().get(),
        1_048_576
    );
    assert_eq!(
        ByteSize::parse("io", "chunk_size", "256 KiB")
            .unwrap()
            .get(),
        262_144
    );

    assert_eq!(
        HumanDuration::parse("timeout", "io_timeout", "15")
            .unwrap()
            .get(),
        Duration::from_secs(15).as_nanos()
    );
    assert_eq!(
        HumanDuration::parse("timeout", "io_timeout", "500ms")
            .unwrap()
            .get(),
        Duration::from_millis(500).as_nanos()
    );
    assert_eq!(
        HumanDuration::parse("timeout", "operation_timeout", "2m")
            .unwrap()
            .get(),
        Duration::from_secs(120).as_nanos()
    );
}

#[test]
fn operator_rejects_invalid_cross_service_options() {
    for (key, value) in [
        ("retry.max_times", "banana"),
        ("retry.factor", "0.5"),
        ("retry.jitter", "yes"),
        ("io.read.concurrent", "0"),
        ("cache.shards", "0"),
        ("cache.unknown", "1"),
    ] {
        let keys = vec![CText::Text(key.to_string())];
        let values = vec![CText::Text(value.to_string())];
        let input = operator_input(
            &CText::Text("memory://".to_string()),
            None,
            None,
            0,
            Some(&keys),
            Some(&values),
            1,
            &CText::Null,
        )
        .ok()
        .unwrap();
        let factor = effective_factor(&input.options)
            .and_then(|text| text.parse::<f32>().ok())
            .map(f32::to_bits);
        match od_operator_new(input, factor) {
            Ok(_) => panic!("accepted {key}={value}"),
            Err(failure) => assert_eq!(failure.code, OdErrorCode::InvalidInput),
        }
    }
}

#[test]
fn sizes_in_every_unit() {
    assert_eq!(bytes("0"), Some(0));
    assert_eq!(bytes("+7"), Some(7));
    assert_eq!(bytes("3B"), Some(3));
    assert_eq!(bytes("  2 GiB "), Some(2 << 30));
    assert_eq!(bytes("1TiB"), Some(1 << 40));
    assert_eq!(bytes("1 EiB"), Some(1 << 60));
    assert_eq!(bytes("16 EiB"), None);
    assert_eq!(bytes("5 KB"), Some(5_000));
    assert_eq!(bytes("5MB"), Some(5_000_000));
    assert_eq!(bytes("5 GB"), Some(5_000_000_000));
    assert_eq!(bytes("5 TB"), Some(5_000_000_000_000));
    assert_eq!(bytes("8 kb"), Some(1_000));
    assert_eq!(bytes("8 Mb"), Some(1_000_000));
    assert_eq!(bytes("8 Gb"), Some(1_000_000_000));
    assert_eq!(bytes("8 Tb"), Some(1_000_000_000_000));
    assert_eq!(bytes("1 Kib"), Some(128));
    assert_eq!(bytes("1 Mib"), Some(131_072));
    assert_eq!(bytes("1 Gib"), Some(134_217_728));
    assert_eq!(bytes("1 Tib"), Some(137_438_953_472));
    // Units are case-sensitive, and sizes are whole.
    assert_eq!(bytes("1 mib"), None);
    assert_eq!(bytes("1 KIB"), None);
    assert_eq!(bytes("1.5 MiB"), None);
    assert_eq!(bytes("MiB"), None);
    assert_eq!(bytes(""), None);
    // Numbers of other scripts are no numbers.
    assert_eq!(bytes("\u{0663} MiB"), None);
    assert_eq!(bytes("\u{0663}"), None);
    // White space of any kind may stand around a number.
    assert_eq!(bytes("1\u{a0}MiB"), Some(1_048_576));
    assert_eq!(
        ByteSize::parse("io", "chunk_size", "many").unwrap_err(),
        "invalid io.chunk_size='many': expected bytes or an IEC size such as '8 MiB'"
    );
}

#[test]
fn bits_make_whole_bytes() {
    assert_eq!(bytes("1 kb"), Some(125));
    assert_eq!(bytes("3 Kib"), Some(384));
    assert_eq!(bytes("18446744073709551615 TB"), None);
}

#[test]
fn durations_in_every_unit() {
    assert_eq!(nanos("7ns"), Some(7));
    assert_eq!(nanos("7\u{3bc}s"), Some(7_000));
    assert_eq!(nanos("7 ms"), Some(7_000_000));
    assert_eq!(nanos("7s"), Some(7_000_000_000));
    assert_eq!(nanos("7"), Some(7_000_000_000));
    assert_eq!(nanos("7m"), Some(420_000_000_000));
    assert_eq!(nanos("7h"), Some(25_200_000_000_000));
    assert_eq!(nanos("1d"), Some(86_400_000_000_000));
    assert_eq!(nanos("18446744073709551615"), Some(18_446_744_073_709_551_615_000_000_000));
    assert_eq!(nanos("18446744073709551616"), None);
    assert_eq!(nanos("7w"), None);
    assert_eq!(nanos("s"), None);
    assert_eq!(nanos("\u{0663}s"), None);
    assert_eq!(nanos("\u{2003}7s"), Some(7_000_000_000));
    assert_eq!(
        HumanDuration::parse("retry", "min_delay", "soon").unwrap_err(),
        "invalid retry.min_delay='soon': expected seconds or a duration such as '500ms'"
    );
}

#[test]
fn numbers_and_truth_values() {
    assert_eq!(positive_usize("io", "k", "12").unwrap().get(), 12);
    assert_eq!(
        positive_usize("io", "k", "0").unwrap_err(),
        "invalid io.k='0': expected a positive integer"
    );
    assert_eq!(usize_value("io", "k", "0"), Ok(0));
    assert_eq!(
        usize_value("io", "k", "-1").unwrap_err(),
        "invalid io.k='-1': expected a non-negative integer"
    );
    assert_eq!(
        usize_value("io", "k", "18446744073709551616").unwrap_err(),
        "invalid io.k='18446744073709551616': expected a non-negative integer"
    );
    assert_eq!(boolean("s", "k", "true"), Ok(true));
    assert_eq!(boolean("s", "k", "1"), Ok(true));
    assert_eq!(boolean("s", "k", "false"), Ok(false));
    assert_eq!(boolean("s", "k", "0"), Ok(false));
    assert_eq!(
        boolean("s", "k", "TRUE").unwrap_err(),
        "invalid s.k='TRUE': expected true, false, 1, or 0"
    );
    assert_eq!(float("s", "k", "2", Some(2f32.to_bits())), Ok(2f32.to_bits()));
    assert_eq!(
        float("s", "k", "two", None).unwrap_err(),
        "invalid s.k='two': expected a number"
    );
    assert_eq!(non_empty_path("s", "k", "/tmp"), Ok("/tmp".to_string()));
    assert_eq!(
        non_empty_path("s", "k", "").unwrap_err(),
        "invalid s.k='': path must not be empty"
    );
    assert_eq!(unknown("s", "k"), "unknown OpenDAL option 's.k'");
    assert_eq!(invalid("s", "k", "v", "e"), "invalid s.k='v': e");
    assert!(Positive::new(0).is_none());
}

#[test]
fn options_outside_sections_are_refused() {
    assert_eq!(refused(&[("plain", "1")], None), "unknown OpenDAL option 'plain'");
    assert_eq!(refused(&[("x.y.z", "1")], None), "unknown OpenDAL option 'x.y.z'");
    // Keys are looked at in the order given, before any value is.
    assert_eq!(
        refused(&[("io.read.concurrent", "0"), ("b", "1"), ("a", "1")], None),
        "unknown OpenDAL option 'b'"
    );
}

#[test]
fn sections_complain_about_their_least_key() {
    assert_eq!(
        refused(&[("io.zebra", "1"), ("io.aardvark", "1")], None),
        "unknown OpenDAL option 'io.aardvark'"
    );
    assert_eq!(
        refused(&[("cache.shards", "0"), ("io.write.chunk_size", "0")], None),
        "invalid io.write.chunk_size='0': expected a positive size"
    );
    assert_eq!(
        refused(&[("io.read.chunk_size", "0 MiB")], None),
        "invalid io.read.chunk_size='0': expected a positive size"
    );
    assert_eq!(
        refused(&[("timeout.io_timeout", "0s")], None),
        "invalid timeout.io_timeout='0s': duration must be positive"
    );
    assert_eq!(
        refused(&[("timeout.other", "zero")], None),
        "invalid timeout.other='zero': expected seconds or a duration such as '500ms'"
    );
    assert_eq!(
        refused(&[("timeout.other", "1s")], None),
        "unknown OpenDAL option 'timeout.other'"
    );
}

#[test]
fn relations_between_values_are_checked() {
    assert_eq!(
        refused(&[("retry.min_delay", "2s"), ("retry.max_delay", "1s")], None),
        "retry.min_delay must not exceed retry.max_delay"
    );
    assert_eq!(
        refused(&[("cache.min_file_size", "2"), ("cache.max_file_size", "1")], None),
        "cache.min_file_size must not exceed cache.max_file_size"
    );
    for key in ["memory_size", "disk_size", "block_size"] {
        let full = format!("cache.{key}");
        assert_eq!(
            refused(&[(full.as_str(), "0")], None),
            format!("invalid cache.{key}='0': expected a positive size")
        );
    }
    assert_eq!(
        refused(&[("cache.disk_path", "")], None),
        "invalid cache.disk_path='': path must not be empty"
    );
}

#[test]
fn factors_are_finite_and_at_least_one() {
    let accepts = |text: &str| {
        let options = values(&[("retry.factor", text)]);
        let factor = effective_factor(&options)
            .and_then(|text| text.parse::<f32>().ok())
            .map(f32::to_bits);
        OperatorConfig::parse(&options, None, factor).map(|config| config.retry.unwrap().factor)
    };
    assert_eq!(accepts("1"), Ok(Some(1f32.to_bits())));
    assert_eq!(accepts("2.5"), Ok(Some(2.5f32.to_bits())));
    assert_eq!(accepts("3.4028235e38"), Ok(Some(f32::MAX.to_bits())));
    for text in ["0.99", "-2", "inf", "NaN", "0"] {
        assert_eq!(
            accepts(text).unwrap_err(),
            format!("invalid retry.factor='{text}': expected a finite number >= 1")
        );
    }
    assert_eq!(
        accepts("fast").unwrap_err(),
        "invalid retry.factor='fast': expected a number"
    );
}

#[test]
fn the_last_value_counts() {
    let options = values(&[
        ("io.concurrent_limit", "1"),
        ("retry.factor", "2"),
        ("io.concurrent_limit", "9"),
        ("retry.factor", "3"),
    ]);
    assert_eq!(effective_factor(&options).as_deref(), Some("3"));
    let config = OperatorConfig::parse(&options, None, Some(3f32.to_bits())).unwrap();
    assert_eq!(config.io.concurrent_limit.map(|limit| limit.get()), Some(9));
    assert_eq!(config.retry.unwrap().factor, Some(3f32.to_bits()));
}

#[test]
fn layers_go_on_in_order() {
    let none = OperatorConfig::parse(&values(&[]), None, None).unwrap();
    assert!(none.apply_layers().is_empty());
    let config = OperatorConfig::parse(
        &values(&[
            ("cache.disk_path", "/var/cache"),
            ("cache.max_file_size", "99"),
            ("io.concurrent_limit", "16"),
            ("timeout.io_timeout", "15s"),
            ("retry.max_times", "5"),
            ("retry.jitter", "true"),
        ]),
        None,
        None,
    )
    .unwrap();
    let layers = config.apply_layers();
    assert_eq!(layers.len(), 4);
    assert!(matches!(
        layers[0],
        Layer::Retry {
            max_times: Some(5),
            factor: None,
            jitter: true,
            min_delay: None,
            max_delay: None,
        }
    ));
    assert!(matches!(
        layers[1],
        Layer::Timeout { operation: None, io: Some(15_000_000_000) }
    ));
    assert!(matches!(layers[2], Layer::ConcurrentLimit(16)));
    match &layers[3] {
        Layer::Cache(cache) => {
            assert_eq!(cache.memory_size, 256 << 20);
            assert_eq!(cache.shards, 4);
            assert_eq!(cache.admits, Some((0, Some(100))));
            let disk = cache.disk.as_ref().unwrap();
            assert_eq!(disk.path, "/var/cache");
            assert_eq!(disk.namespace.as_deref(), Some("default"));
            assert_eq!(disk.size, 1 << 30);
            assert_eq!(disk.block_size, 4 << 20);
        }
        _ => panic!("the cache comes last"),
    }
}

#[test]
fn caches_admit_the_configured_sizes() {
    let config = CacheConfig::parse(&section(&[
        ("min_file_size", "1 KiB"),
        ("max_file_size", "18446744073709551615"),
        ("shards", "2"),
    ]))
    .unwrap()
    .unwrap();
    let layer = config.build_layer(Some(&"ns".to_string()));
    assert_eq!(layer.admits, Some((1024, None)));
    assert_eq!(layer.shards, 2);
    assert!(layer.disk.is_none());
    assert!(CacheConfig::parse(&section(&[])).unwrap().is_none());
    assert_eq!(cache_disabled("no room"), "OpenDAL cache disabled: no room");
}

#[test]
fn cache_namespaces_are_isolated() {
    let entries = section(&[("disk_path", "/cache")]);
    let config = CacheConfig::parse(&entries).unwrap().unwrap();
    let (a, b) = ("s3-a".to_string(), "s3-b".to_string());
    let of_a = config.build_layer(Some(&a)).disk.unwrap();
    let of_b = config.build_layer(Some(&b)).disk.unwrap();
    assert_eq!((of_a.path.as_str(), of_b.path.as_str()), ("/cache", "/cache"));
    assert_eq!(of_a.namespace, Some(a));
    assert_eq!(of_b.namespace, Some(b));
}

#[test]
fn sections_without_entries_add_no_layer() {
    let kinds = |options: &[(&str, &str)]| {
        let config = OperatorConfig::parse(&values(options), None, None).ok().unwrap();
        let layers = config.apply_layers();
        (
            layers.iter().any(|layer| matches!(layer, Layer::Retry { .. })),
            layers.iter().any(|layer| matches!(layer, Layer::Timeout { .. })),
            layers.iter().any(|layer| matches!(layer, Layer::Cache(_))),
        )
    };
    assert_eq!(kinds(&[]), (false, false, false));
    assert_eq!(kinds(&[("retry.jitter", "1")]), (true, false, false));
    assert_eq!(kinds(&[("timeout.io_timeout", "15s")]), (false, true, false));
    assert_eq!(kinds(&[("cache.shards", "2")]), (false, false, true));
}
