use duckdb_opendal::capability::{
    boolean_fields, capability_bools, od_capabilities, od_operator_supports, odop_capabilities,
    odop_capabilities_entry, odop_capabilities_len, require, supports, CapabilityFlags,
    OdopCapabilityList,
};
use duckdb_opendal::config::io::{DirectionConfig, IoConfig};
use duckdb_opendal::config::value::{ByteSize, Positive};
use duckdb_opendal::error::{
    require_handles, set_error, set_ok, set_opendal_error, set_panic, ErrorKind, Failure, OdError,
    OdErrorCode, ServiceError,
};
use duckdb_opendal::ffi::{collect_pairs, cstr, optional_cstr, CText};
use duckdb_opendal::init::provider_ready;
use duckdb_opendal::io::{DirOptions, IoOptions};
use duckdb_opendal::mutate::{
    as_directory, od_copy, od_create_dir, od_remove, od_rename, odop_create_dir, odop_remove,
    odop_rename,
};
use duckdb_opendal::operator::{
    built_from_scheme, built_operator, full, od_operator_new, od_operator_warning,
    odop_operator_new, operator_input, OdOperator, OdopOperator, OperatorInput,
};
use duckdb_opendal::reader::{
    od_reader_open, od_reader_read, odop_reader_open, odop_reader_read, ReadStep,
};
use duckdb_opendal::stat::{
    answer_code, od_dir_exists, od_exists, od_stat, odop_exists, odop_stat, DirProbe, DirStep,
    Listed, OdMetadata, OdopMetadata,
};
use duckdb_opendal::version::{locked_version, odop_version};
use duckdb_opendal::writer::{
    od_writer_abort, od_writer_close, od_writer_open, od_writer_write, odop_writer_abort,
    odop_writer_close, odop_writer_open, odop_writer_write, WriteStep,
};

fn text(text: &str) -> CText {
    CText::Text(text.to_string())
}

fn texts(list: &[&str]) -> Vec<CText> {
    list.iter().map(|item| text(item)).collect()
}

fn all_flags(on: bool) -> CapabilityFlags {
    CapabilityFlags {
        stat: on,
        read: on,
        write: on,
        list: on,
        create_dir: on,
        delete: on,
        rename: on,
        copy: on,
    }
}

fn operator(on: bool) -> OdOperator {
    OdOperator {
        scheme: "memory".to_string(),
        io: IoConfig {
            read: DirectionConfig {
                concurrent: Positive::new(2),
                chunk_size: Some(ByteSize::of(262_144)),
            },
            write: DirectionConfig {
                concurrent: Positive::new(4),
                chunk_size: None,
            },
            concurrent_limit: None,
        },
        cap: all_flags(on),
        warning: None,
    }
}

fn scheme_operator(on: bool) -> OdopOperator {
    OdopOperator {
        scheme: "memory".to_string(),
        cap: all_flags(on),
        io: IoOptions {
            read: DirOptions {
                concurrent: 3,
                chunk: 0,
            },
            write: DirOptions {
                concurrent: 0,
                chunk: 0,
            },
        },
    }
}

fn said<T>(outcome: Result<T, Failure>) -> (OdErrorCode, String) {
    match outcome {
        Ok(_) => panic!("accepted"),
        Err(failure) => (failure.code, failure.message),
    }
}

fn invalid(message: &str) -> (OdErrorCode, String) {
    (OdErrorCode::InvalidInput, message.to_string())
}

fn unsupported(operation: &str) -> (OdErrorCode, String) {
    (
        OdErrorCode::Unsupported,
        format!("service 'memory' does not support {operation}"),
    )
}

fn service(kind: ErrorKind) -> ServiceError {
    ServiceError {
        kind,
        message: "report".to_string(),
    }
}

#[test]
fn codes_keep_their_numbers() {
    let numbers = [
        (OdErrorCode::Success, 0),
        (OdErrorCode::NotFound, 1),
        (OdErrorCode::PermissionDenied, 2),
        (OdErrorCode::NotADirectory, 3),
        (OdErrorCode::IsADirectory, 4),
        (OdErrorCode::AlreadyExists, 5),
        (OdErrorCode::InvalidInput, 6),
        (OdErrorCode::Unsupported, 7),
        (OdErrorCode::Unexpected, 8),
        (OdErrorCode::Panic, 98),
        (OdErrorCode::Other, 99),
    ];
    for (code, number) in numbers {
        assert_eq!(code.code(), number);
    }
}

#[test]
fn kinds_are_surfaced_under_categories() {
    for (name, code) in [
        ("NotFound", OdErrorCode::NotFound),
        ("PermissionDenied", OdErrorCode::PermissionDenied),
        ("NotADirectory", OdErrorCode::NotADirectory),
        ("IsADirectory", OdErrorCode::IsADirectory),
        ("AlreadyExists", OdErrorCode::AlreadyExists),
        ("ConfigInvalid", OdErrorCode::InvalidInput),
        ("Unsupported", OdErrorCode::Unsupported),
        ("Unexpected", OdErrorCode::Unexpected),
        ("RateLimited", OdErrorCode::Other),
        ("IsSameFile", OdErrorCode::Other),
        ("ConditionNotMatch", OdErrorCode::Other),
        ("RangeNotSatisfied", OdErrorCode::Other),
        ("Conflict", OdErrorCode::Other),
        ("SomethingNew", OdErrorCode::Other),
    ] {
        assert_eq!(ErrorKind::from_name(name).code(), code);
    }
    for kind in [
        opendal::ErrorKind::NotFound,
        opendal::ErrorKind::ConfigInvalid,
        opendal::ErrorKind::Conflict,
    ] {
        let ours = ErrorKind::from_name(kind.into_static());
        assert_eq!(format!("{ours:?}"), kind.into_static());
    }
}

#[test]
fn rate_limits_collapse_to_other() {
    let error = opendal::Error::new(opendal::ErrorKind::RateLimited, "slow down");
    let mut slot = OdError::ok();
    set_opendal_error(
        &mut slot,
        ErrorKind::from_name(error.kind().into_static()),
        &error.to_string(),
    );
    assert_eq!(slot.code, OdErrorCode::Other);
    assert_eq!(slot.code.code(), 99);
    assert_eq!(slot.message, Some(error.to_string()));
}

#[test]
fn service_config_validation_is_propagated() {
    opendal::init_default_registry();
    let input = operator_input(
        &text("s3://bucket"),
        Some(&texts(&["enable_virtual_host_style"])),
        Some(&texts(&["banana"])),
        1,
        None,
        None,
        0,
        &CText::Null,
    )
    .ok()
    .unwrap();
    let request = od_operator_new(input, None).ok().unwrap();
    let service = request.service.iter().cloned();
    let error = opendal::Operator::from_uri((request.uri.as_str(), service)).err().unwrap();
    let mut slot = OdError::ok();
    set_opendal_error(
        &mut slot,
        ErrorKind::from_name(error.kind().into_static()),
        &error.to_string(),
    );
    assert_eq!(slot.code, OdErrorCode::InvalidInput);
    assert_eq!(slot.message, Some(error.to_string()));
}

#[test]
fn error_slots_hold_one_outcome() {
    let mut slot = OdError::ok();
    assert_eq!((slot.code, slot.message.clone()), (OdErrorCode::Success, None));
    set_error(&mut slot, OdErrorCode::Other, "why");
    assert_eq!((slot.code, slot.message.clone()), (OdErrorCode::Other, Some("why".to_string())));
    set_error(&mut slot, OdErrorCode::Other, "w\0hy");
    assert_eq!(slot.message.as_deref(), Some("<error message contained NUL>"));
    set_panic(&mut slot, "od_stat");
    assert_eq!(slot.code, OdErrorCode::Panic);
    assert_eq!(slot.message.as_deref(), Some("panic in od_stat"));
    set_ok(&mut slot);
    assert_eq!((slot.code, slot.message), (OdErrorCode::Success, None));
    assert!(require_handles(true, "x").is_ok());
    assert_eq!(said(require_handles(false, "null cursor")), invalid("null cursor"));
}

#[test]
fn c_strings_decode_or_not() {
    assert_eq!(cstr(&text("a")).map(|s| s.as_str()), Some("a"));
    assert!(cstr(&CText::Null).is_none());
    assert!(cstr(&CText::NotUtf8).is_none());
    assert_eq!(optional_cstr(&CText::Null, "v"), Ok(None));
    assert_eq!(optional_cstr(&text("a"), "v"), Ok(Some("a".to_string())));
    assert_eq!(
        optional_cstr(&CText::NotUtf8, "version"),
        Err("version is not UTF-8".to_string())
    );
}

#[test]
fn pairs_are_collected_in_order() {
    let keys = texts(&["k", "l"]);
    let values = texts(&["v", "w"]);
    assert_eq!(
        collect_pairs(Some(&keys), Some(&values), 2),
        Ok(vec![
            ("k".to_string(), "v".to_string()),
            ("l".to_string(), "w".to_string())
        ])
    );
    assert_eq!(collect_pairs(None, None, 0), Ok(Vec::new()));
    assert_eq!(
        collect_pairs(None, Some(&values), 2),
        Err("keys/values null with len > 0".to_string())
    );
    let bad = vec![text("k"), CText::Null];
    assert_eq!(
        collect_pairs(Some(&bad), Some(&values), 2),
        Err("key #1 invalid".to_string())
    );
    let bad = vec![text("v"), CText::NotUtf8];
    assert_eq!(
        collect_pairs(Some(&keys), Some(&bad), 2),
        Err("value for 'l' invalid".to_string())
    );
}

#[test]
fn operators_are_asked_for() {
    let keys = texts(&["root"]);
    let values = texts(&["/tmp"]);
    let option_keys = texts(&["io.write.concurrent", "cache.disk_path"]);
    let option_values = texts(&["4", "/cache"]);
    let input = operator_input(
        &text("FS://"),
        Some(&keys),
        Some(&values),
        1,
        Some(&option_keys),
        Some(&option_values),
        2,
        &text("ns"),
    )
    .ok()
    .unwrap();
    let request = od_operator_new(input, None).ok().unwrap();
    assert_eq!(request.scheme, "fs");
    assert_eq!(request.service, [("root".to_string(), "/tmp".to_string())]);
    assert_eq!(request.config.cache_namespace.as_deref(), Some("ns"));
    let op = built_operator(&request, all_flags(true), Some("full".to_string()));
    assert_eq!(op.io.write.concurrent.map(|n| n.get()), Some(4));
    assert_eq!(
        od_operator_warning(Some(&op)).map(|s| s.as_str()),
        Some("OpenDAL cache disabled: full")
    );
    assert!(od_operator_warning(None).is_none());
    assert!(built_operator(&request, all_flags(true), None).warning.is_none());
    assert!(built_operator(&request, all_flags(true), Some("\0".to_string()))
        .warning
        .is_none());
}

#[test]
fn operators_are_refused() {
    let one = texts(&["k"]);
    let bad = vec![CText::Null];
    let ask = |uri: &CText, keys: &Vec<CText>, options: &Vec<CText>| {
        operator_input(uri, Some(keys), Some(&one), 1, Some(options), Some(&one), 1, &CText::Null)
    };
    assert_eq!(said(ask(&CText::Null, &one, &one)), invalid("uri is null or not UTF-8"));
    assert_eq!(said(ask(&text("memory"), &bad, &bad)), invalid("key #0 invalid"));
    assert_eq!(said(ask(&text("memory"), &one, &bad)), invalid("key #0 invalid"));
    let input = |uri: &str, key: &str| OperatorInput {
        uri: uri.to_string(),
        service: Vec::new(),
        options: vec![(key.to_string(), "1".to_string())],
        cache_namespace: None,
    };
    assert_eq!(
        said(od_operator_new(input("://", "nope"), None)),
        invalid("unknown OpenDAL option 'nope'")
    );
    let (code, message) = said(od_operator_new(input("://", "io.read.concurrent"), None));
    assert_eq!(code, OdErrorCode::InvalidInput);
    assert!(message.contains("failed to parse uri"));
}

#[test]
fn scheme_operators_are_asked_for() {
    let keys = texts(&["io.read.chunk", "x"]);
    let values = texts(&["7", "y"]);
    let request = odop_operator_new(&text("memory"), None, None, 0, Some(&keys), Some(&values), 2)
        .ok()
        .unwrap();
    assert_eq!(request.layers.len(), 2);
    let defaults = IoOptions {
        read: DirOptions {
            concurrent: 5,
            chunk: 6,
        },
        write: DirOptions {
            concurrent: 0,
            chunk: 9,
        },
    };
    let op = built_from_scheme(&request, all_flags(true), &defaults);
    assert_eq!(op.scheme, "memory");
    assert_eq!(full(&op), all_flags(true));
    assert_eq!(
        op.io,
        IoOptions {
            read: DirOptions {
                concurrent: 5,
                chunk: 7
            },
            write: DirOptions {
                concurrent: 0,
                chunk: 9
            },
        }
    );
    assert_eq!(
        said(odop_operator_new(&CText::Null, None, None, 0, None, None, 0)),
        invalid("scheme is null or not UTF-8")
    );
}

#[test]
fn tuning_is_read_leniently() {
    let opts = vec![
        ("io.read.concurrent".to_string(), "8".to_string()),
        ("io.read.concurrent".to_string(), "4".to_string()),
        ("io.write.chunk".to_string(), "lots".to_string()),
        ("io.write.concurrent".to_string(), "2".to_string()),
        ("other".to_string(), "1".to_string()),
    ];
    let io = IoOptions::from_opts(&opts);
    assert_eq!(io.read, DirOptions { concurrent: 4, chunk: 0 });
    assert_eq!(io.write, DirOptions { concurrent: 2, chunk: 0 });
    assert_eq!(io.with_defaults(&IoOptions::unset()), io);
}

#[test]
fn capability_list_and_rename_guard() {
    let memory = opendal::Operator::via_iter("memory", Vec::<(String, String)>::new()).unwrap();
    let capability = memory.info().capability();
    let list = od_capabilities(Some(&capability)).ok().unwrap();
    assert!(list.len() > 0);
    let mut caps = std::collections::HashMap::new();
    for i in 0..list.len() {
        let (name, supported) = list.entry(i).unwrap();
        caps.insert(name.clone(), *supported);
    }
    assert_eq!(caps.len(), list.len());
    assert!(list.entry(list.len()).is_none());
    assert_eq!(caps.get("read"), Some(&true));
    assert_eq!(caps.get("write"), Some(&true));
    assert_eq!(caps.get("list"), Some(&true));
    assert_eq!(caps.get("rename"), Some(&false));
    assert_eq!(caps.get("copy"), Some(&false));
    assert!(!caps.contains_key("write_multi_max_size"));

    let probe = |name: &str| od_operator_supports(&capability, &text(name));
    assert!(probe("read"));
    assert!(probe("write"));
    assert!(!probe("rename"));
    assert!(!probe("copy"));
    assert!(!probe("definitely_not_a_capability"));
    assert!(!od_operator_supports(&capability, &CText::Null));

    let same = odop_capabilities(Some(&capability)).ok().unwrap();
    assert_eq!(same.items, list.items);
    assert_eq!(odop_capabilities_len(Some(&same)), list.len());
    assert_eq!(odop_capabilities_len(None), 0);
    let (name, supported) = odop_capabilities_entry(Some(&same), 0, true).unwrap();
    assert_eq!(list.entry(0), Some(&(name.clone(), supported)));
    assert!(odop_capabilities_entry(Some(&same), 0, false).is_none());
    assert!(odop_capabilities_entry(Some(&same), same.len(), true).is_none());
    assert!(odop_capabilities_entry(None, 0, true).is_none());
    assert_eq!(said(odop_capabilities(None)), invalid("null operator"));
    assert_eq!(said(od_capabilities(None)), invalid("null operator"));

    let flags = capability_bools(&capability);
    assert_eq!(supports(&flags, &text("stat")), capability.stat);

    let (code, message) = said(od_rename(Some(&operator(false)), &text("a.txt"), &text("b.txt")));
    assert_eq!(code, OdErrorCode::Unsupported);
    assert!(
        message.contains("memory") && message.contains("rename"),
        "unexpected msg: {message}"
    );
    let (code, _) = said(od_copy(Some(&operator(false)), &text("a.txt"), &text("b.txt")));
    assert_eq!(code, OdErrorCode::Unsupported);
}

#[test]
fn only_truth_values_are_listed() {
    let fields = vec![
        ("read".to_string(), Some(true)),
        ("max".to_string(), None),
        ("copy".to_string(), Some(false)),
    ];
    let flags = boolean_fields(&fields);
    assert_eq!(flags, [("read".to_string(), true), ("copy".to_string(), false)]);
    let list = OdopCapabilityList::of(&vec![("a\0b".to_string(), true)]);
    assert_eq!(list.items, [("".to_string(), true)]);
    assert!(require("memory", true, "read").is_ok());
    assert_eq!(said(require("memory", false, "read")), unsupported("read"));
}

#[test]
fn mutations_are_decoded() {
    assert_eq!(
        od_rename(Some(&operator(true)), &text("a"), &text("b")).ok().unwrap(),
        ("a".to_string(), "b".to_string())
    );
    assert_eq!(
        od_copy(Some(&operator(true)), &text("a"), &text("b")).ok().unwrap(),
        ("a".to_string(), "b".to_string())
    );
    assert_eq!(said(od_rename(None, &text("a"), &text("b"))), invalid("null operator"));
    assert_eq!(said(od_copy(None, &text("a"), &text("b"))), invalid("null operator"));
    assert_eq!(od_create_dir(Some(&operator(true)), &text("a/b")).ok().unwrap(), "a/b/");
    assert_eq!(
        said(od_create_dir(Some(&operator(false)), &text("a"))),
        unsupported("create_dir")
    );
    assert_eq!(said(od_create_dir(None, &text("a"))), invalid("null operator"));
    assert_eq!(
        said(od_create_dir(Some(&operator(true)), &CText::NotUtf8)),
        invalid("path is null or not UTF-8")
    );
    assert_eq!(
        od_remove(Some(&operator(true)), &text("a"), 1).ok().unwrap(),
        ("a".to_string(), true)
    );
    assert_eq!(
        said(od_remove(Some(&operator(false)), &text("a"), 0)),
        unsupported("delete")
    );
    assert_eq!(said(od_remove(None, &text("a"), 0)), invalid("null operator"));
    assert_eq!(
        said(od_remove(Some(&operator(true)), &CText::Null, 0)),
        invalid("path is null or not UTF-8")
    );
    let op = scheme_operator(true);
    assert_eq!(
        said(odop_rename(Some(&op), &CText::Null, &CText::Null)),
        invalid("from is null or not UTF-8")
    );
    assert_eq!(
        said(odop_rename(Some(&op), &text("a"), &CText::NotUtf8)),
        invalid("to is null or not UTF-8")
    );
    assert_eq!(said(odop_rename(None, &text("a"), &text("b"))), invalid("null operator"));
    assert_eq!(odop_create_dir(Some(&op), &text("a/b")).ok().unwrap(), "a/b/");
    assert_eq!(odop_create_dir(Some(&op), &text("a/b/")).ok().unwrap(), "a/b/");
    assert_eq!(
        said(odop_create_dir(Some(&op), &CText::Null)),
        invalid("path is null or not UTF-8")
    );
    assert_eq!(as_directory(""), "/");
    assert_eq!(
        odop_remove(Some(&op), &text("a"), 2).ok().unwrap(),
        ("a".to_string(), true)
    );
    assert_eq!(said(odop_remove(None, &text("a"), 0)), invalid("null operator"));
}

#[test]
fn readers_are_opened() {
    let reader = od_reader_open(Some(&operator(true)), &text("p")).ok().unwrap();
    assert_eq!(
        (reader.path, reader.concurrent, reader.chunk),
        ("p".to_string(), Some(2), Some(262_144))
    );
    assert_eq!(said(od_reader_open(None, &text("p"))), invalid("null operator"));
    assert_eq!(
        said(od_reader_open(Some(&operator(false)), &CText::Null)),
        unsupported("read")
    );
    assert_eq!(
        said(od_reader_open(Some(&operator(true)), &CText::Null)),
        invalid("path is null or not UTF-8")
    );
    let reader = odop_reader_open(Some(&scheme_operator(true)), &text("p")).ok().unwrap();
    assert_eq!(
        (reader.path, reader.concurrent, reader.chunk),
        ("p".to_string(), Some(3), None)
    );
    assert_eq!(said(odop_reader_open(None, &text("p"))), invalid("null operator"));
}

#[test]
fn reads_are_bounded() {
    assert_eq!(
        od_reader_read(true, 6, 6, true).ok(),
        Some(ReadStep::Range { start: 6, end: 12 })
    );
    assert_eq!(od_reader_read(true, 0, 0, false).ok(), Some(ReadStep::Nothing));
    let (code, message) = said(od_reader_read(true, u64::MAX, 2, true));
    assert_eq!(code, OdErrorCode::InvalidInput);
    assert!(message.contains("range overflows"), "{message}");
    assert_eq!(said(od_reader_read(true, 0, 1, false)), invalid("null reader or buffer"));
    assert_eq!(said(od_reader_read(false, 0, 0, false)), invalid("null reader or buffer"));
    assert_eq!(
        odop_reader_read(true, u64::MAX, 2, true).ok(),
        Some(ReadStep::Range {
            start: u64::MAX,
            end: u64::MAX
        })
    );
    assert_eq!(said(odop_reader_read(true, 0, 0, false)), invalid("null reader or buffer"));
    assert_eq!(odop_reader_read(true, 3, 0, true).ok(), Some(ReadStep::Nothing));
}

#[test]
fn writers_take_bytes_until_closed() {
    let mut writer = od_writer_open(Some(&operator(true)), &text("out/greeting.txt"))
        .ok()
        .unwrap();
    assert_eq!((writer.concurrent, writer.chunk), (Some(4), None));
    assert_eq!(
        said(od_writer_write(Some(&writer), u64::MAX, true)),
        invalid("write length exceeds the platform size limit")
    );
    assert_eq!(od_writer_write(Some(&writer), 6, true).ok(), Some(WriteStep::Bytes(6)));
    assert_eq!(od_writer_write(Some(&writer), 0, false).ok(), Some(WriteStep::Nothing));
    assert_eq!(said(od_writer_write(Some(&writer), 1, false)), invalid("null writer or data"));
    assert_eq!(said(od_writer_write(None, 0, true)), invalid("null writer or data"));
    assert!(od_writer_close(Some(&writer)).is_ok());
    assert_eq!(
        said(writer.after_close(Err(service(ErrorKind::PermissionDenied)))),
        (OdErrorCode::PermissionDenied, "report".to_string())
    );
    assert!(od_writer_abort(Some(&writer)).is_ok());
    assert!(writer.after_close(Ok(())).is_ok());
    assert_eq!(said(od_writer_write(Some(&writer), 5, true)), invalid("writer is closed"));
    assert_eq!(said(od_writer_close(Some(&writer))), invalid("writer is closed"));
    assert_eq!(said(od_writer_abort(Some(&writer))), invalid("writer is closed"));
    assert_eq!(said(od_writer_close(None)), invalid("null writer"));
    assert_eq!(
        said(od_writer_open(Some(&operator(false)), &text("p"))),
        unsupported("write")
    );
}

#[test]
fn scheme_writers_are_opened() {
    let op = scheme_operator(true);
    let writer = odop_writer_open(Some(&op), &text("p")).ok().unwrap();
    assert_eq!(odop_writer_write(Some(&writer), 3, true).ok(), Some(WriteStep::Bytes(3)));
    assert_eq!(odop_writer_write(Some(&writer), 0, false).ok(), Some(WriteStep::Nothing));
    assert_eq!(said(odop_writer_write(None, 3, true)), invalid("null writer or data"));
    assert!(odop_writer_close(Some(&writer)).is_ok());
    assert_eq!(said(odop_writer_close(None)), invalid("null writer"));
    assert!(odop_writer_abort(Some(&writer)).is_ok());
    assert_eq!(said(odop_writer_abort(None)), invalid("null writer"));
    assert_eq!(said(odop_writer_open(Some(&op), &CText::Null)), invalid("null operator or path"));
    assert_eq!(said(odop_writer_open(Some(&op), &CText::NotUtf8)), invalid("path not UTF-8"));
    assert_eq!(
        said(odop_writer_open(Some(&scheme_operator(false)), &text("p"))),
        unsupported("write")
    );
}

#[test]
fn paths_are_looked_at() {
    let op = operator(true);
    assert_eq!(od_stat(Some(&op), &text("p"), true).ok().unwrap(), "p");
    let missing = invalid("null operator, path, or metadata output");
    assert_eq!(said(od_stat(Some(&op), &text("p"), false)), missing);
    assert_eq!(said(od_stat(None, &text("p"), true)), missing);
    assert_eq!(said(od_stat(Some(&op), &CText::Null, true)), missing);
    assert_eq!(
        said(od_stat(Some(&op), &CText::NotUtf8, true)),
        invalid("path is null or not UTF-8")
    );
    assert_eq!(
        said(od_exists(Some(&operator(false)), &CText::NotUtf8)),
        unsupported("stat")
    );
    assert_eq!(said(od_exists(None, &text("p"))), invalid("null operator or path"));
    let op = scheme_operator(false);
    assert_eq!(odop_stat(Some(&op), &text("p")).ok().unwrap(), "p");
    assert_eq!(said(odop_exists(Some(&op), &CText::NotUtf8)), invalid("path not UTF-8"));
    assert_eq!(said(odop_exists(Some(&op), &CText::Null)), invalid("null operator or path"));
    let empty = OdMetadata::empty();
    assert_eq!((empty.content_length, empty.last_modified_ms, empty.is_dir), (0, -1, 0));
    let empty = OdopMetadata::empty();
    assert_eq!((empty.content_length, empty.last_modified_ms, empty.is_dir), (0, -1, 0));
}

#[test]
fn directories_are_probed() {
    let probe = od_dir_exists(Some(&operator(true)), &text("a/b")).ok().unwrap();
    assert!(matches!(probe.after_stat(Ok(true)), DirStep::Answer(true)));
    assert!(matches!(probe.after_stat(Ok(false)), DirStep::Answer(false)));
    match probe.after_stat(Err(service(ErrorKind::NotFound))) {
        DirStep::Probe(prefix) => assert_eq!(prefix, "a/b/"),
        _ => panic!("the prefix is listed"),
    }
    match probe.after_stat(Err(service(ErrorKind::PermissionDenied))) {
        DirStep::Fail(failure) => assert_eq!(failure.code, OdErrorCode::PermissionDenied),
        _ => panic!("other errors are reported"),
    }
    let blind = DirProbe {
        path: "a".to_string(),
        can_list: false,
    };
    assert!(matches!(
        blind.after_stat(Err(service(ErrorKind::NotFound))),
        DirStep::Answer(false)
    ));
    for (path, expected) in [("", ""), ("a/", "a/")] {
        let probe = DirProbe {
            path: path.to_string(),
            can_list: true,
        };
        match probe.after_stat(Err(service(ErrorKind::NotFound))) {
            DirStep::Probe(prefix) => assert_eq!(prefix, expected),
            _ => panic!("the prefix is listed"),
        }
    }
    assert_eq!(answer_code(&probe.after_list(Listed::Child)), 1);
    assert_eq!(answer_code(&probe.after_list(Listed::Nothing)), 0);
    let gone = service(ErrorKind::NotFound);
    assert_eq!(answer_code(&probe.after_list(Listed::NotOpened(gone))), 0);
    let broken = service(ErrorKind::NotFound);
    assert_eq!(answer_code(&probe.after_list(Listed::BrokeOff(broken))), -1);
    let denied = service(ErrorKind::PermissionDenied);
    assert_eq!(answer_code(&probe.after_list(Listed::NotOpened(denied))), -1);
    assert_eq!(said(od_dir_exists(None, &text("a"))), invalid("null operator or path"));
}

#[test]
fn opendal_version_roundtrip() {
    let s = locked_version("0.59.5", None);
    assert!(
        !s.is_empty() && s != "unknown",
        "opendal version unresolved: {s}"
    );
    assert!(
        s.chars().next().unwrap().is_ascii_digit(),
        "unexpected: {s}"
    );
}

#[test]
fn version_roundtrip() {
    let s = odop_version("0.1.0");
    assert!(s.contains("opendalfs-core"));
    assert_eq!(s, "opendalfs-core 0.1.0 (opendal 0.57)");
}

#[test]
fn locked_versions_name_their_commit() {
    assert_eq!(
        locked_version("0.58.0", Some("git+https://example.org/x?rev=a1b2c3d4#a1b2c3d4e5f6")),
        "0.58.0 (git a1b2c3d)"
    );
    assert_eq!(locked_version("0.58.0", Some("git+https://example.org/x#abc")), "0.58.0 (git abc)");
    assert_eq!(locked_version("0.58.0", Some("git+https://example.org/x#")), "0.58.0");
    assert_eq!(locked_version("0.58.0", Some("registry+https://example.org#abc")), "0.58.0");
    assert_eq!(locked_version("0.58.0", Some("git")), "0.58.0");
}

#[test]
fn a_crypto_provider_is_needed() {
    assert!(provider_ready(true, false, true).is_ok());
    assert!(provider_ready(false, true, true).is_ok());
    assert!(provider_ready(false, false, true).is_ok());
    assert_eq!(
        said(provider_ready(false, false, false)),
        (
            OdErrorCode::Unexpected,
            "failed to install rustls crypto provider".to_string()
        )
    );
}
