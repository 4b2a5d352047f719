use duckdb_opendal::capability::CapabilityFlags;
use duckdb_opendal::config::io::{DirectionConfig, IoConfig};
use duckdb_opendal::config::layer::Layer;
use duckdb_opendal::copy::{
    abort_writer, copy_options, od_table_copy_open, CopyMachine, CopyReply, CopyState,
    OdCopyOptions,
};
use duckdb_opendal::du::{
    after_stat, od_table_du_open, rollup, DuStep, DuTarget, OdDuCursor,
};
use duckdb_opendal::entry::{cstring, EntryMode, Metadata, OwnedRow};
use duckdb_opendal::error::{ErrorKind, Failure, OdErrorCode, ServiceError};
use duckdb_opendal::ffi::CText;
use duckdb_opendal::layers::{apply_layers, get};
use duckdb_opendal::lister::{od_list, od_list_entry, OdEntryList};
use duckdb_opendal::operator::OdOperator;
use duckdb_opendal::stat::OdMetadata;
use duckdb_opendal::table::{
    checked_time, list_options, od_glob_match, od_table_glob_open, od_table_list_open,
    od_table_stat_open, stat_cursor, stat_options, timestamp, CursorStep, ListOptions,
    OdListOptions, OdStatOptions, OdTableCursor, Pulled,
};

fn text(text: &str) -> CText {
    CText::Text(text.to_string())
}

fn operator() -> OdOperator {
    let unset = DirectionConfig {
        concurrent: None,
        chunk_size: None,
    };
    OdOperator {
        scheme: "memory".to_string(),
        io: IoConfig {
            read: unset,
            write: unset,
            concurrent_limit: None,
        },
        cap: CapabilityFlags {
            stat: true,
            read: true,
            write: true,
            list: true,
            create_dir: true,
            delete: true,
            rename: false,
            copy: true,
        },
        warning: None,
    }
}

fn crippled() -> OdOperator {
    let mut op = operator();
    op.cap.stat = false;
    op.cap.read = false;
    op.cap.write = false;
    op.cap.list = false;
    op
}

fn found(mode: EntryMode, content_length: u64) -> Metadata {
    Metadata {
        mode,
        content_length,
        cache_control: None,
        content_disposition: None,
        content_md5: None,
        content_type: None,
        content_encoding: None,
        etag: None,
        version: None,
        last_modified_ms: None,
        is_current: None,
        is_deleted: false,
        user_metadata: Vec::new(),
    }
}

fn file(content_length: u64) -> Metadata {
    found(EntryMode::File, content_length)
}

fn said<T>(outcome: Result<T, Failure>) -> (OdErrorCode, String) {
    match outcome {
        Ok(_) => panic!("accepted"),
        Err(failure) => (failure.code, failure.message),
    }
}

fn invalid(message: &str) -> (OdErrorCode, String) {
    (OdErrorCode::InvalidInput, message.to_string())
}

fn unexpected(message: &str) -> (OdErrorCode, String) {
    (OdErrorCode::Unexpected, message.to_string())
}

fn service(kind: ErrorKind) -> ServiceError {
    ServiceError {
        kind,
        message: "report".to_string(),
    }
}

fn listing() -> OdListOptions {
    OdListOptions {
        limit: 10,
        has_limit: 1,
        start_after: CText::Null,
        recursive: 0,
        versions: 1,
        deleted: 0,
    }
}

fn stat_raw() -> OdStatOptions {
    OdStatOptions {
        version: text("v1"),
        if_match: CText::Null,
        if_none_match: text("etag"),
        if_modified_since_ms: 12,
        has_if_modified_since: 1,
        if_unmodified_since_ms: 34,
        has_if_unmodified_since: 0,
    }
}

#[test]
fn times_are_checked() {
    assert_eq!(timestamp(5, 1, "t"), Ok(Some(5)));
    assert_eq!(timestamp(5, 0, "t"), Ok(None));
    assert_eq!(timestamp(i64::MAX, 0, "t"), Ok(None));
    assert!(timestamp(i64::MAX, 1, "if_match").unwrap_err().starts_with("invalid if_match: "));
    for (last, beyond) in [
        (253_402_207_200_000, 253_402_207_200_001),
        (-377_705_023_201_000, -377_705_023_201_001),
    ] {
        assert_eq!(timestamp(last, 1, "t"), Ok(Some(last)));
        assert!(timestamp(beyond, 1, "t").is_err());
    }
    assert_eq!(
        checked_time(5, 1, "t", Some("late".to_string())),
        Err("invalid t: late".to_string())
    );
    assert_eq!(checked_time(5, 0, "t", Some("late".to_string())), Ok(None));
}

#[test]
fn times_decide_on_stat_options() {
    let mut raw = stat_raw();
    raw.if_modified_since_ms = 0;
    assert!(stat_options(&raw).is_ok());
    raw.if_modified_since_ms = 253_402_207_200_001;
    assert!(stat_options(&raw).err().unwrap().starts_with("invalid if_modified_since: "));
    raw.has_if_modified_since = 0;
    assert!(od_table_stat_open(Some(&operator()), &text("p"), &raw).is_ok());
    raw.if_unmodified_since_ms = -377_705_023_201_001;
    raw.has_if_unmodified_since = 1;
    let (code, message) = said(od_table_stat_open(Some(&operator()), &text("p"), &raw));
    assert_eq!(code, OdErrorCode::InvalidInput);
    assert!(message.starts_with("invalid if_unmodified_since: "));
}

#[test]
fn options_are_decoded() {
    let options = stat_options(&stat_raw()).unwrap();
    assert_eq!(options.version.as_deref(), Some("v1"));
    assert_eq!(options.if_match, None);
    assert_eq!(options.if_none_match.as_deref(), Some("etag"));
    assert_eq!(options.if_modified_since, Some(12));
    assert_eq!(options.if_unmodified_since, None);
    let mut raw = stat_raw();
    raw.if_none_match = CText::NotUtf8;
    assert_eq!(stat_options(&raw).err().unwrap(), "if_none_match is not UTF-8");

    let options = list_options(&listing()).unwrap();
    assert_eq!(options.limit, Some(10));
    assert!(!options.recursive && options.versions && !options.deleted);
    let mut raw = listing();
    raw.start_after = CText::NotUtf8;
    raw.has_limit = 0;
    assert_eq!(list_options(&raw).err().unwrap(), "start_after is not UTF-8");
}

#[test]
fn entries_become_rows() {
    let mut metadata = file(7);
    metadata.etag = Some("e".to_string());
    metadata.is_current = Some(true);
    metadata.last_modified_ms = Some(-3);
    metadata.user_metadata = vec![
        ("b".to_string(), "2".to_string()),
        ("a".to_string(), "1".to_string()),
    ];
    let row = OwnedRow::from_parts("dir/sub/".to_string(), metadata).unwrap();
    assert_eq!((row.path.as_str(), row.name.as_str()), ("dir/sub/", "sub/"));
    assert_eq!(row.user_keys, ["a", "b"]);
    assert_eq!(row.user_values, ["1", "2"]);
    assert_eq!((row.mode, row.content_length), (1, 7));
    assert_eq!((row.last_modified_ms, row.has_last_modified), (-3, 1));
    assert_eq!((row.is_current, row.has_is_current, row.is_deleted), (1, 1, 0));
    assert_eq!(row.etag.as_deref(), Some("e"));

    let row = OwnedRow::from_parts("x".to_string(), found(EntryMode::Dir, 0)).unwrap();
    assert_eq!((row.mode, row.name.as_str()), (2, "x"));
    assert_eq!((row.last_modified_ms, row.has_last_modified), (0, 0));
    let row = OwnedRow::from_parts("/".to_string(), found(EntryMode::Unknown, 0)).unwrap();
    assert_eq!((row.mode, row.name.as_str()), (0, "/"));
}

#[test]
fn rows_hold_no_nul() {
    let refuse = |path: &str, change: fn(&mut Metadata)| {
        let mut metadata = file(1);
        change(&mut metadata);
        OwnedRow::from_parts(path.to_string(), metadata).err().unwrap()
    };
    assert_eq!(refuse("a\0", |_| {}), "OpenDAL path contains a NUL byte");
    assert_eq!(
        refuse("a\0", |m| m.user_metadata = vec![
            ("b\0".to_string(), String::new()),
            ("a".to_string(), "\0".to_string()),
        ]),
        "OpenDAL user metadata value contains a NUL byte"
    );
    assert_eq!(
        refuse("a", |m| m.user_metadata = vec![("b\0".to_string(), String::new())]),
        "OpenDAL user metadata key contains a NUL byte"
    );
    assert_eq!(
        refuse("a", |m| {
            m.cache_control = Some("\0".to_string());
            m.version = Some("\0".to_string());
        }),
        "OpenDAL cache_control contains a NUL byte"
    );
    assert_eq!(
        refuse("a", |m| m.content_disposition = Some("\0".to_string())),
        "OpenDAL content_disposition contains a NUL byte"
    );
    assert_eq!(
        refuse("a", |m| m.content_md5 = Some("\0".to_string())),
        "OpenDAL content_md5 contains a NUL byte"
    );
    assert_eq!(
        refuse("a", |m| m.content_type = Some("\0".to_string())),
        "OpenDAL content_type contains a NUL byte"
    );
    assert_eq!(
        refuse("a", |m| m.content_encoding = Some("\0".to_string())),
        "OpenDAL content_encoding contains a NUL byte"
    );
    assert_eq!(
        refuse("a", |m| m.etag = Some("\0".to_string())),
        "OpenDAL etag contains a NUL byte"
    );
    assert_eq!(
        refuse("a", |m| m.version = Some("\0".to_string())),
        "OpenDAL version contains a NUL byte"
    );
    assert_eq!(cstring("a".to_string(), "x"), Ok("a".to_string()));
}

#[test]
fn stat_scans_show_one_row() {
    let op = operator();
    let request = od_table_stat_open(Some(&op), &text("p"), &stat_raw()).ok().unwrap();
    assert_eq!(request.path, "p");
    let mut cursor = stat_cursor(request.path, file(3));
    let pulled = cursor.pull().unwrap();
    match cursor.next(pulled) {
        CursorStep::Row(row) => assert_eq!(row.path, "p"),
        _ => panic!("there is a row"),
    }
    let pulled = cursor.pull().unwrap();
    assert!(matches!(cursor.next(pulled), CursorStep::Done));
    assert_eq!(said(od_table_stat_open(None, &text("p"), &stat_raw())), invalid("null operator"));
    assert_eq!(
        said(od_table_stat_open(Some(&crippled()), &CText::Null, &stat_raw())),
        invalid("path is null or not UTF-8")
    );
    assert_eq!(
        said(od_table_stat_open(Some(&crippled()), &text("p"), &stat_raw())),
        (
            OdErrorCode::Unsupported,
            "service 'memory' does not support stat".to_string()
        )
    );
}

fn shown(cursor: &OdTableCursor, path: &str) -> bool {
    match cursor.next(Pulled::Entry(path.to_string(), file(1))) {
        CursorStep::Row(row) => {
            assert_eq!(row.path, path);
            true
        }
        CursorStep::Skip => false,
        _ => panic!("an entry is shown or not"),
    }
}

#[test]
fn list_scans_leave_the_directory_out() {
    let op = operator();
    let open = od_table_list_open(Some(&op), &text("/a/b/"), &CText::Null, &listing())
        .ok()
        .unwrap();
    assert_eq!(open.path, "/a/b/");
    assert!(!open.options.recursive);
    let mut cursor = open.cursor;
    assert!(cursor.pull().is_none());
    assert!(!shown(&cursor, "a/b"));
    assert!(!shown(&cursor, "a/b/"));
    assert!(shown(&cursor, "a/b/c"));
    assert!(shown(&cursor, "a/b//"));
    assert!(matches!(cursor.next(Pulled::End), CursorStep::Done));
    match cursor.next(Pulled::Failed(service(ErrorKind::NotFound))) {
        CursorStep::Fail(failure) => assert_eq!(failure.code, OdErrorCode::NotFound),
        _ => panic!("a failure is reported"),
    }
    match cursor.next(Pulled::Entry("a/b\0".to_string(), file(1))) {
        CursorStep::Fail(failure) => {
            assert_eq!(failure.code, OdErrorCode::Unexpected);
            assert_eq!(failure.message, "OpenDAL path contains a NUL byte");
        }
        _ => panic!("the row cannot be handed over"),
    }
    assert_eq!(
        said(od_table_list_open(Some(&op), &text("a"), &CText::NotUtf8, &listing())),
        invalid("glob is not UTF-8")
    );
    assert_eq!(
        said(od_table_list_open(Some(&crippled()), &text("a"), &CText::Null, &listing())),
        (
            OdErrorCode::Unsupported,
            "service 'memory' does not support list".to_string()
        )
    );
}

#[test]
fn glob_scans_list_the_static_prefix() {
    let op = operator();
    let open = od_table_glob_open(Some(&op), &text("/data/**/p-[0-9].csv"), listing())
        .ok()
        .unwrap();
    assert_eq!(open.path, "/data/");
    assert!(open.options.recursive);
    assert_eq!(open.cursor.glob.as_deref(), Some("data/**/p-[0-9].csv"));
    assert!(shown(&open.cursor, "data/x/y/p-3.csv"));
    assert!(shown(&open.cursor, "data/p-0.csv"));
    assert!(!shown(&open.cursor, "data/p-x.csv"));
    assert!(!shown(&open.cursor, "data/"));
    assert_eq!(
        said(od_table_glob_open(None, &CText::Null, listing())),
        invalid("pattern is null or not UTF-8")
    );
    assert_eq!(
        said(od_table_glob_open(None, &text("plain"), listing())),
        invalid("glob pattern has no wildcard")
    );
    assert_eq!(
        said(od_table_glob_open(None, &text("*\0"), listing())),
        invalid("glob pattern contains a NUL byte")
    );
    assert_eq!(
        said(od_table_glob_open(None, &text("*"), listing())),
        invalid("null operator")
    );
    assert_eq!(od_glob_match(&text("a/*"), &text("a/b")), 1);
    assert_eq!(od_glob_match(&text("a/*"), &text("a/b/c")), 0);
    assert_eq!(od_glob_match(&CText::Null, &text("a")), 0);
}

fn usage(cursor: &mut OdDuCursor) -> Vec<(String, u64, u64)> {
    let mut rows = Vec::new();
    while let Some(row) = cursor.next_row() {
        rows.push((row.directory.clone(), row.file_count, row.total_size));
    }
    rows
}

#[test]
fn usage_is_grouped_by_parent() {
    let entries = vec![
        ("b/two".to_string(), file(2)),
        ("a/x/one".to_string(), file(10)),
        ("a/x/".to_string(), found(EntryMode::Dir, 99)),
        ("a/x/three".to_string(), file(30)),
        ("top".to_string(), file(5)),
    ];
    let mut cursor = rollup(&entries, None).ok().unwrap();
    assert_eq!(
        usage(&mut cursor),
        [
            ("".to_string(), 1, 5),
            ("a/x".to_string(), 2, 40),
            ("b".to_string(), 1, 2)
        ]
    );
    assert!(cursor.next_row().is_none());
    let pattern = "a/**".to_string();
    let mut cursor = rollup(&entries, Some(&pattern)).ok().unwrap();
    assert_eq!(usage(&mut cursor), [("a/x".to_string(), 2, 40)]);
    assert_eq!(usage(&mut rollup(&Vec::new(), None).ok().unwrap()), []);
}

#[test]
fn usage_that_does_not_fit_is_refused() {
    let entries = vec![
        ("a/one".to_string(), file(u64::MAX)),
        ("b/two".to_string(), file(u64::MAX)),
    ];
    assert_eq!(rollup(&entries, None).ok().unwrap().rows.len(), 2);
    let entries = vec![
        ("a/one".to_string(), file(u64::MAX)),
        ("a/two".to_string(), file(1)),
    ];
    assert_eq!(said(rollup(&entries, None)), unexpected("du byte count overflow"));
    let entries = vec![("a\0/one".to_string(), file(1))];
    assert_eq!(
        said(rollup(&entries, None)),
        unexpected("OpenDAL du directory contains a NUL byte")
    );
}

#[test]
fn usage_scans_go_by_their_target() {
    let op = operator();
    match od_table_du_open(Some(&op), &text("/a/*/b"), &listing()).ok().unwrap() {
        DuStep::List {
            path,
            options,
            pattern,
        } => {
            assert_eq!(path, "/a/");
            assert!(options.recursive && options.versions);
            assert_eq!(pattern.as_deref(), Some("a/*/b"));
        }
        _ => panic!("globs are listed"),
    }
    let options = match od_table_du_open(Some(&op), &text("a"), &listing()).ok().unwrap() {
        DuStep::Stat { target, options } => {
            assert_eq!(target, "a");
            options
        }
        _ => panic!("other targets are looked at"),
    };
    match after_stat("a".to_string(), options, Ok(found(EntryMode::Dir, 0))).ok().unwrap() {
        DuTarget::Directory { path, options } => {
            assert_eq!(path, "a/");
            assert!(options.recursive);
        }
        _ => panic!("directories are listed"),
    }
    let options = || ListOptions {
        limit: None,
        start_after: None,
        recursive: false,
        versions: false,
        deleted: false,
    };
    match after_stat("d/a".to_string(), options(), Ok(file(3))).ok().unwrap() {
        DuTarget::File(entries) => assert_eq!(
            usage(&mut rollup(&entries, None).ok().unwrap()),
            [("d".to_string(), 1, 3)]
        ),
        _ => panic!("a file is all there is"),
    }
    assert_eq!(
        said(after_stat("a".to_string(), options(), Err(service(ErrorKind::NotFound)))),
        (OdErrorCode::NotFound, "report".to_string())
    );
    assert_eq!(said(od_table_du_open(None, &text("a"), &listing())), invalid("null operator"));
    assert_eq!(
        said(od_table_du_open(Some(&op), &CText::Null, &listing())),
        invalid("target is null or not UTF-8")
    );
}

#[test]
fn listings_are_indexed() {
    let op = operator();
    let request = od_list(Some(&op), &text("a/"), 1).ok().unwrap();
    assert_eq!((request.path.as_str(), request.recursive), ("a/", true));
    assert_eq!(said(od_list(Some(&op), &CText::Null, 1)), invalid("null operator or path"));
    assert_eq!(
        said(od_list(Some(&op), &CText::NotUtf8, 1)),
        invalid("path is null or not UTF-8")
    );
    let mut modified = file(3);
    modified.last_modified_ms = Some(77);
    let list = OdEntryList {
        entries: vec![
            ("a/one.txt".to_string(), modified),
            ("a/b/".to_string(), found(EntryMode::Dir, 0)),
            ("x\0".to_string(), file(0)),
        ],
    };
    assert_eq!(list.len(), 3);
    let one = od_list_entry(Some(&list), 0, true).ok().unwrap();
    assert_eq!((one.path.as_str(), one.name.as_str()), ("a/one.txt", "one.txt"));
    assert_eq!((one.content_length, one.last_modified_ms, one.is_dir), (3, 77, 0));
    let two = od_list_entry(Some(&list), 1, true).ok().unwrap();
    assert_eq!((two.name.as_str(), two.last_modified_ms, two.is_dir), ("b/", -1, 1));
    assert_eq!(od_list_entry(Some(&list), 2, true).ok().unwrap().path, "");
    assert_eq!(said(od_list_entry(Some(&list), 3, true)), invalid("index out of bounds"));
    assert_eq!(
        said(od_list_entry(Some(&list), 0, false)),
        invalid("null list or out parameter")
    );
    assert_eq!(said(od_list_entry(None, 0, true)), invalid("null list or out parameter"));
    let shown = OdMetadata::of(&found(EntryMode::Dir, 0));
    assert_eq!((shown.last_modified_ms, shown.is_dir), (-1, 1));
}

fn copy_raw() -> OdCopyOptions {
    OdCopyOptions {
        if_not_exists: 0,
        if_match: CText::Null,
        source_version: CText::Null,
        source_content_length_hint: 0,
        has_source_content_length_hint: 0,
        concurrent: 0,
        has_concurrent: 0,
        chunk_size: 0,
        has_chunk_size: 0,
    }
}

#[test]
fn accepts_zero_content_length_hint() {
    let options = copy_options(&OdCopyOptions {
        if_not_exists: 0,
        if_match: CText::Null,
        source_version: CText::Null,
        source_content_length_hint: 0,
        has_source_content_length_hint: 1,
        concurrent: 0,
        has_concurrent: 0,
        chunk_size: 0,
        has_chunk_size: 0,
    })
    .unwrap();
    assert_eq!(options.source_content_length_hint, Some(0));
}

#[test]
fn copy_options_are_checked() {
    let mut raw = copy_raw();
    raw.has_concurrent = 1;
    assert_eq!(copy_options(&raw).err().unwrap(), "copy concurrent must be positive");
    raw.concurrent = 2;
    raw.has_chunk_size = 1;
    assert_eq!(copy_options(&raw).err().unwrap(), "copy chunk_size must be positive");
    raw.chunk_size = 3;
    raw.source_version = CText::NotUtf8;
    assert_eq!(copy_options(&raw).err().unwrap(), "source_version is not UTF-8");
    raw.source_version = text("v");
    let options = copy_options(&raw).unwrap();
    assert_eq!((options.concurrent, options.chunk), (2, Some(3)));
    assert_eq!(options.source_version.as_deref(), Some("v"));
}

fn machine(same: bool, raw: OdCopyOptions) -> CopyMachine {
    let op = operator();
    od_table_copy_open(Some(&op), &text("from"), Some(&op), &text("to"), same, &raw)
        .ok()
        .unwrap()
}

fn failure(machine: CopyMachine) -> (OdErrorCode, String) {
    said(machine.outcome().unwrap())
}

#[test]
fn copies_are_refused() {
    let op = operator();
    let (from, to) = (text("from"), text("to"));
    assert_eq!(
        said(od_table_copy_open(None, &from, Some(&op), &to, false, &copy_raw())),
        invalid("null source or destination operator")
    );
    assert_eq!(
        said(od_table_copy_open(Some(&op), &CText::Null, Some(&op), &to, false, &copy_raw())),
        invalid("source is null or not UTF-8")
    );
    assert_eq!(
        said(od_table_copy_open(Some(&op), &from, Some(&op), &CText::Null, false, &copy_raw())),
        invalid("destination is null or not UTF-8")
    );
    for (source, destination, operation) in [
        (crippled(), operator(), "read"),
        (operator(), crippled(), "write"),
    ] {
        let mut copy = od_table_copy_open(
            Some(&source),
            &from,
            Some(&destination),
            &to,
            false,
            &copy_raw(),
        )
        .ok()
        .unwrap();
        copy.advance(CopyReply::Metadata(file(3)));
        assert_eq!(
            failure(copy),
            (
                OdErrorCode::Unsupported,
                format!("service 'memory' does not support {operation}")
            )
        );
    }
}

#[test]
fn wrong_hints_stop_copies() {
    let mut raw = copy_raw();
    raw.source_content_length_hint = 10;
    raw.has_source_content_length_hint = 1;
    let mut copy = machine(true, raw);
    copy.advance(CopyReply::Metadata(file(11)));
    assert_eq!(
        failure(copy),
        invalid("source_content_length_hint=10 does not match source size 11")
    );
}

#[test]
fn streams_copy_everything_in_chunks() {
    let mut raw = copy_raw();
    raw.chunk_size = 4;
    raw.has_chunk_size = 1;
    let mut copy = machine(false, raw);
    let mut ranges = Vec::new();
    loop {
        let reply = match &copy.state {
            CopyState::StatSource => CopyReply::Metadata(file(10)),
            CopyState::OpenReader { size } => {
                let options = copy.reader_options(*size);
                assert_eq!(options.content_length_hint, 10);
                assert_eq!((options.concurrent, options.chunk), (1, Some(4)));
                CopyReply::Opened
            }
            CopyState::OpenWriter { .. } => {
                assert_eq!(copy.write_options().concurrent, 0);
                CopyReply::Opened
            }
            CopyState::Reading { size, offset } => {
                ranges.push(copy.range(*size, *offset));
                CopyReply::Read
            }
            CopyState::Writing { .. } => CopyReply::Written,
            CopyState::ClosingWriter { .. } => CopyReply::Closed(file(0)),
            CopyState::StatDestination { bytes, .. } => {
                assert_eq!(*bytes, 10);
                CopyReply::Metadata(file(10))
            }
            _ => break,
        };
        copy.advance(reply);
    }
    assert_eq!(ranges, [(0, 4), (4, 8), (8, 10)]);
    let mut cursor = copy.outcome().unwrap().ok().unwrap();
    let (bytes, row) = cursor.next_row().unwrap();
    assert_eq!((bytes, row.path.as_str(), row.content_length), (10, "to", 10));
    assert!(cursor.next_row().is_none());
}

#[test]
fn empty_sources_are_copied_too() {
    let mut copy = machine(false, copy_raw());
    copy.advance(CopyReply::Metadata(file(0)));
    copy.advance(CopyReply::Opened);
    copy.advance(CopyReply::Opened);
    assert!(matches!(copy.state, CopyState::ClosingWriter { size: 0 }));
    assert_eq!(copy.range(100 << 20, 0), (0, 8 << 20));
    assert_eq!(copy.range(u64::MAX, u64::MAX - 1), (u64::MAX - 1, u64::MAX));
}

#[test]
fn services_copy_by_themselves() {
    let mut raw = copy_raw();
    raw.if_not_exists = 1;
    let mut copy = machine(true, raw);
    copy.advance(CopyReply::Metadata(file(9)));
    let options = copy.copier_options(9);
    assert!(options.if_not_exists);
    assert_eq!(options.source_content_length_hint, Some(9));
    copy.advance(CopyReply::Opened);
    copy.advance(CopyReply::Bytes(4));
    copy.advance(CopyReply::Exhausted);
    copy.advance(CopyReply::Closed(file(9)));
    // The destination is committed: not being able to look at it is no failure.
    copy.advance(CopyReply::Failed(service(ErrorKind::PermissionDenied)));
    let mut cursor = copy.outcome().unwrap().ok().unwrap();
    assert_eq!(cursor.next_row().unwrap().0, 9);
}

#[test]
fn copiers_that_fail_are_aborted() {
    let mut copy = machine(true, copy_raw());
    copy.advance(CopyReply::Metadata(file(9)));
    copy.advance(CopyReply::Opened);
    copy.advance(CopyReply::Bytes(u64::MAX));
    copy.advance(CopyReply::Bytes(1));
    assert!(matches!(copy.state, CopyState::AbortingCopier { .. }));
    copy.advance(CopyReply::AbortFailed("ignored".to_string()));
    assert_eq!(failure(copy), unexpected("copy byte count overflow"));

    let mut copy = machine(true, copy_raw());
    copy.advance(CopyReply::Metadata(file(9)));
    copy.advance(CopyReply::Opened);
    copy.advance(CopyReply::Failed(service(ErrorKind::NotFound)));
    copy.advance(CopyReply::Aborted);
    assert_eq!(failure(copy), (OdErrorCode::NotFound, "report".to_string()));
}

#[test]
fn transfers_that_fail_are_aborted() {
    for stage in 0..3 {
        let mut copy = machine(false, copy_raw());
        copy.advance(CopyReply::Metadata(file(9)));
        copy.advance(CopyReply::Opened);
        copy.advance(CopyReply::Opened);
        if stage > 0 {
            copy.advance(CopyReply::Read);
        }
        if stage > 1 {
            copy.advance(CopyReply::Written);
        }
        copy.advance(CopyReply::Failed(service(ErrorKind::AlreadyExists)));
        assert!(matches!(copy.state, CopyState::AbortingWriter { .. }));
        if stage == 1 {
            copy.advance(CopyReply::AbortFailed("abort".to_string()));
            match &copy.state {
                CopyState::Describing { primary, context } => {
                    assert_eq!(primary.kind, ErrorKind::AlreadyExists);
                    assert_eq!(primary.message, "report");
                    assert_eq!(*context, ("abort_error".to_string(), "abort".to_string()));
                }
                _ => panic!("the error is described"),
            }
            copy.advance(CopyReply::Described("report, and more".to_string()));
            assert_eq!(
                failure(copy),
                (OdErrorCode::AlreadyExists, "report, and more".to_string())
            );
        } else {
            copy.advance(CopyReply::Aborted);
            assert_eq!(failure(copy), (OdErrorCode::AlreadyExists, "report".to_string()));
        }
    }
    let error = abort_writer(service(ErrorKind::NotFound), Some("both".to_string()));
    assert_eq!(error.primary.kind, ErrorKind::NotFound);
    assert_eq!(error.primary.message, "report");
    assert_eq!(
        error.context,
        Some(("abort_error".to_string(), "both".to_string()))
    );
    let error = abort_writer(service(ErrorKind::NotFound), None);
    assert_eq!(error.primary.message, "report");
    assert_eq!(error.context, None);
}

#[test]
fn copies_fail_before_anything_is_open() {
    for replies in 0..3 {
        let mut copy = machine(false, copy_raw());
        let opening = [CopyReply::Metadata(file(9)), CopyReply::Opened];
        for reply in opening.into_iter().take(replies) {
            copy.advance(reply);
        }
        assert!(machine(false, copy_raw()).outcome().is_none());
        copy.advance(CopyReply::Failed(service(ErrorKind::NotFound)));
        assert_eq!(failure(copy), (OdErrorCode::NotFound, "report".to_string()));
    }
}

fn options(pairs: &[(&str, &str)]) -> Vec<(String, String)> {
    pairs
        .iter()
        .map(|(key, value)| (key.to_string(), value.to_string()))
        .collect()
}

#[test]
fn layers_are_read_leniently() {
    let opts = options(&[
        ("retry.max_times", "3"),
        ("retry.max_times", "4"),
        ("retry.min_delay_ms", "soon"),
        ("retry.max_delay_ms", "20"),
        ("timeout.seconds", "30"),
        ("concurrent_limit", "8"),
        ("unknown", "x"),
    ]);
    let layers = apply_layers(&opts, None, true).unwrap();
    assert_eq!(layers.len(), 3);
    assert!(matches!(
        layers[0],
        Layer::Retry {
            max_times: Some(3),
            factor: None,
            jitter: false,
            min_delay: None,
            max_delay: Some(20_000_000),
        }
    ));
    assert!(matches!(
        layers[1],
        Layer::Timeout {
            operation: Some(30_000_000_000),
            io: None
        }
    ));
    assert!(matches!(layers[2], Layer::ConcurrentLimit(8)));
    assert_eq!(get(&opts, "retry.max_times").map(|s| s.as_str()), Some("3"));
    assert!(apply_layers(&options(&[]), None, true).unwrap().is_empty());
    let factor = Some(2f32.to_bits());
    let layers = apply_layers(&options(&[("retry.factor", "2")]), factor, true).unwrap();
    assert!(matches!(layers[0], Layer::Retry { factor: Some(bits), .. } if bits == 2f32.to_bits()));
}

#[test]
fn unknown_keys_change_no_layer() {
    let known = [("timeout.seconds", "30")];
    let more = [("timeout.seconds", "30"), ("cache.shards", "2"), ("io.read.chunk", "1")];
    for opts in [options(&known), options(&more)] {
        let layers = apply_layers(&opts, None, true).unwrap();
        assert_eq!(layers.len(), 1);
        assert!(matches!(
            layers[0],
            Layer::Timeout {
                operation: Some(30_000_000_000),
                io: None
            }
        ));
    }
}

#[test]
fn caches_are_asked_for_in_mebibytes() {
    let opts = options(&[
        ("foyer.enable", "1"),
        ("foyer.memory_mb", "0"),
        ("foyer.disk_path", "/d"),
        ("foyer.block_mb", "2"),
    ]);
    match &apply_layers(&opts, None, true).unwrap()[0] {
        Layer::Cache(cache) => {
            assert_eq!((cache.memory_size, cache.shards), (1 << 20, 4));
            assert_eq!(cache.admits, None);
            let disk = cache.disk.as_ref().unwrap();
            assert_eq!((disk.path.as_str(), disk.namespace.clone()), ("/d", None));
            assert_eq!((disk.size, disk.block_size), (1024 << 20, 2 << 20));
        }
        _ => panic!("a cache is asked for"),
    }
    match &apply_layers(&opts, None, false).unwrap()[0] {
        Layer::Cache(cache) => assert!(cache.disk.is_none()),
        _ => panic!("a cache is asked for"),
    }
    let huge = options(&[("foyer.enable", "true"), ("foyer.memory_mb", "99999999999999999")]);
    assert!(apply_layers(&huge, None, true).is_none());
    let off = options(&[("foyer.enable", "yes"), ("foyer.memory_mb", "99999999999999999")]);
    assert!(apply_layers(&off, None, true).unwrap().is_empty());
}
