use duckdb_opendal::capability::CapabilityFlags;
use duckdb_opendal::config::layer::Layer;
use duckdb_opendal::copy::{od_table_copy_open, CopyReply, CopyState, OdCopyOptions};
use duckdb_opendal::du::rollup;
use duckdb_opendal::entry::{EntryMode, Metadata};
use duckdb_opendal::error::{ErrorKind, OdErrorCode, ServiceError};
use duckdb_opendal::ffi::CText;
use duckdb_opendal::io::IoOptions;
use duckdb_opendal::layers::apply_layers;
use duckdb_opendal::lister::{od_list, od_list_entry, OdEntryList};
use duckdb_opendal::mutate::{od_remove, od_rename, odop_remove};
use duckdb_opendal::operator::{
    built_from_scheme, built_operator, od_operator_new, odop_operator_new, operator_input,
    OdOperator,
};
use duckdb_opendal::reader::{od_reader_open, od_reader_read, ReadStep};
use duckdb_opendal::stat::{
    answer_code, od_dir_exists, od_exists, od_stat, odop_stat, DirStep, Listed, OdMetadata,
    OdopMetadata,
};
use duckdb_opendal::table::{
    od_table_glob_open, od_table_stat_open, stat_cursor, CursorStep, OdListOptions, OdStatOptions,
    Pulled,
};
use duckdb_opendal::writer::{
    od_writer_abort, od_writer_close, od_writer_open, od_writer_write, WriteStep,
};

fn text(text: &str) -> CText {
    CText::Text(text.to_string())
}

fn block_on<F: std::future::Future>(future: F) -> F::Output {
    tokio::runtime::Builder::new_multi_thread()
        .worker_threads(1)
        .build()
        .unwrap()
        .block_on(future)
}

fn metadata(from: &opendal::Metadata) -> Metadata {
    Metadata {
        mode: match from.mode() {
            opendal::EntryMode::FILE => EntryMode::File,
            opendal::EntryMode::DIR => EntryMode::Dir,
            _ => EntryMode::Unknown,
        },
        content_length: from.content_length(),
        cache_control: from.cache_control().map(str::to_string),
        content_disposition: from.content_disposition().map(str::to_string),
        content_md5: from.content_md5().map(str::to_string),
        content_type: from.content_type().map(str::to_string),
        content_encoding: from.content_encoding().map(str::to_string),
        etag: from.etag().map(str::to_string),
        version: from.version().map(str::to_string),
        last_modified_ms: from.last_modified().map(|time| time.into_inner().as_millisecond()),
        is_current: from.is_current(),
        is_deleted: from.is_deleted(),
        user_metadata: Vec::new(),
    }
}

fn service_error(error: &opendal::Error) -> ServiceError {
    ServiceError {
        kind: ErrorKind::from_name(error.kind().into_static()),
        message: error.to_string(),
    }
}

fn texts(list: &[&str]) -> Vec<CText> {
    list.iter().map(|item| text(item)).collect()
}

fn flags(op: &opendal::Operator) -> CapabilityFlags {
    let capability = op.info().capability();
    CapabilityFlags {
        stat: capability.stat,
        read: capability.read,
        write: capability.write,
        list: capability.list,
        create_dir: capability.create_dir,
        delete: capability.delete,
        rename: capability.rename,
        copy: capability.copy,
    }
}

/// An operator for the memory service, built as the library decides.
fn memory(keys: &[&str], values: &[&str]) -> (opendal::Operator, OdOperator, Vec<Layer>) {
    opendal::init_default_registry();
    let input = operator_input(
        &text("memory"),
        None,
        None,
        0,
        Some(&texts(keys)),
        Some(&texts(values)),
        keys.len(),
        &CText::Null,
    )
    .ok()
    .unwrap();
    let request = od_operator_new(input, None).ok().unwrap();
    let service = request.service.iter().cloned();
    let op = opendal::Operator::from_uri((request.uri.as_str(), service)).unwrap();
    let kept = built_operator(&request, flags(&op), None);
    (op, kept, request.config.apply_layers())
}

fn write(op: &opendal::Operator, path: &str, bytes: &str) {
    block_on(op.write(path, bytes.to_string().into_bytes())).unwrap();
}

#[test]
fn lib_memory_operator_write_stat_read() {
    let (op, kept, _) = memory(&[], &[]);
    assert_eq!(kept.scheme, "memory");
    let data = "hello opendal fs";
    write(&op, "greeting.txt", data);

    let path = od_stat(Some(&kept), &text("greeting.txt"), true).ok().unwrap();
    let found = OdMetadata::of(&metadata(&block_on(op.stat(&path)).unwrap()));
    assert_eq!(found.content_length, data.len() as u64);
    assert_eq!(found.is_dir, 0);

    let request = od_reader_open(Some(&kept), &text("greeting.txt")).ok().unwrap();
    let reader = block_on(op.reader(&request.path)).unwrap();
    match od_reader_read(true, 6, 6, true).ok().unwrap() {
        ReadStep::Range { start, end } => {
            let bytes = block_on(reader.read(start..end)).unwrap().to_vec();
            assert_eq!(bytes.len(), 6);
            assert_eq!(bytes, "openda".as_bytes());
        }
        ReadStep::Nothing => panic!("there is something to read"),
    }
    let failure = od_reader_read(true, u64::MAX, 2, true).err().unwrap();
    assert_eq!(failure.code, OdErrorCode::InvalidInput);
    assert!(failure.message.contains("range overflows"), "{}", failure.message);
}

#[test]
fn lib_memory_list_and_exists() {
    let (op, kept, _) = memory(&[], &[]);
    write(&op, "a/one.txt", "11");
    write(&op, "a/two.txt", "222");
    for (path, there) in [("a/one.txt", true), ("a/nope.txt", false)] {
        let path = od_exists(Some(&kept), &text(path)).ok().unwrap();
        assert_eq!(block_on(op.exists(&path)).unwrap(), there);
    }
    let request = od_list(Some(&kept), &text("a/"), 1).ok().unwrap();
    assert!(request.recursive);
    let options = opendal::options::ListOptions {
        recursive: request.recursive,
        ..Default::default()
    };
    let entries = block_on(op.list_options(&request.path, options)).unwrap();
    let list = OdEntryList {
        entries: entries
            .into_iter()
            .map(|entry| (entry.path().to_string(), metadata(entry.metadata())))
            .collect(),
    };
    let mut files = 0;
    for index in 0..list.len() {
        let entry = od_list_entry(Some(&list), index, true).ok().unwrap();
        if entry.is_dir == 0 {
            files += 1;
            assert!(entry.name == "one.txt" || entry.name == "two.txt");
        }
    }
    assert_eq!(files, 2);
}

#[test]
fn memory_operator_with_config_sections() {
    let (op, kept, layers) = memory(
        &["retry.max_times", "timeout.operation_timeout", "io.concurrent_limit"],
        &["3", "30", "8"],
    );
    assert!(matches!(layers[0], Layer::Retry { max_times: Some(3), .. }));
    assert!(matches!(
        layers[1],
        Layer::Timeout {
            operation: Some(30_000_000_000),
            io: None
        }
    ));
    assert!(matches!(layers[2], Layer::ConcurrentLimit(8)));
    assert_eq!(layers.len(), 3);
    write(&op, "layered.txt", "ok");
    let path = od_stat(Some(&kept), &text("layered.txt"), true).ok().unwrap();
    let shown = OdMetadata::of(&found(&op, &path).ok().unwrap());
    assert_eq!(shown.content_length, 2);
}

#[test]
fn memory_operator_with_io_options() {
    let (op, kept, _) = memory(
        &[
            "io.write.concurrent",
            "io.write.chunk_size",
            "io.read.concurrent",
            "io.read.chunk_size",
        ],
        &["4", "1048576", "2", "262144"],
    );
    assert_eq!(kept.io.write.concurrent.map(|value| value.get()), Some(4));
    assert_eq!(kept.io.write_chunk(), Some(1048576));
    assert_eq!(kept.io.read.concurrent.map(|value| value.get()), Some(2));
    assert_eq!(kept.io.read_chunk(), Some(262144));

    let opened = od_writer_open(Some(&kept), &text("tuned.txt")).ok().unwrap();
    assert_eq!((opened.concurrent, opened.chunk), (Some(4), Some(1048576)));
    let options = opendal::options::WriteOptions {
        concurrent: opened.concurrent.unwrap(),
        chunk: opened.chunk,
        ..Default::default()
    };
    let data = "tuned io";
    assert_eq!(
        od_writer_write(Some(&opened), data.len() as u64, true).ok(),
        Some(WriteStep::Bytes(data.len()))
    );
    assert!(od_writer_close(Some(&opened)).is_ok());
    block_on(async {
        let mut writer = op.writer_options(&opened.path, options).await.unwrap();
        writer.write(data.to_string().into_bytes()).await.unwrap();
        writer.close().await.unwrap();
    });
    let request = od_reader_open(Some(&kept), &text("tuned.txt")).ok().unwrap();
    let options = opendal::options::ReaderOptions {
        concurrent: request.concurrent.unwrap(),
        chunk: request.chunk,
        ..Default::default()
    };
    let bytes = block_on(async {
        let reader = op.reader_options(&request.path, options).await.unwrap();
        reader.read(0..data.len() as u64).await.unwrap().to_vec()
    });
    assert_eq!(bytes, data.as_bytes());
}

fn found(op: &opendal::Operator, path: &str) -> Result<Metadata, ServiceError> {
    block_on(op.stat(path))
        .map(|found| metadata(&found))
        .map_err(|error| service_error(&error))
}

#[test]
fn directories_of_a_service_are_probed() {
    let (op, kept, _) = memory(&[], &[]);
    write(&op, "a/b/one.txt", "1");
    for (path, code) in [("a/b", 1), ("a/b/one.txt", 0), ("z", 0)] {
        let probe = od_dir_exists(Some(&kept), &text(path)).ok().unwrap();
        let stat = found(&op, &probe.path).map(|found| found.mode == EntryMode::Dir);
        let answer = match probe.after_stat(stat) {
            DirStep::Answer(answer) => Ok(answer),
            DirStep::Fail(failure) => Err(failure),
            DirStep::Probe(prefix) => probe.after_list(match block_on(op.list(&prefix)) {
                Ok(entries) if entries.is_empty() => Listed::Nothing,
                Ok(_) => Listed::Child,
                Err(error) => Listed::NotOpened(service_error(&error)),
            }),
        };
        assert_eq!(answer_code(&answer), code, "{path}");
    }
}

fn list_raw() -> OdListOptions {
    OdListOptions {
        limit: 0,
        has_limit: 0,
        start_after: CText::Null,
        recursive: 0,
        versions: 0,
        deleted: 0,
    }
}

#[test]
fn globs_and_usage_of_a_service() {
    let (op, kept, _) = memory(&[], &[]);
    for (path, bytes) in [
        ("data/part-1.csv", "1"),
        ("data/x/part-2.csv", "22"),
        ("data/x/y/part-3.csv", "333"),
        ("data/x/y/other.txt", "4444"),
        ("elsewhere/part-5.csv", "55555"),
    ] {
        write(&op, path, bytes);
    }
    let open = od_table_glob_open(Some(&kept), &text("data/**/part-[0-9].csv"), list_raw())
        .ok()
        .unwrap();
    assert!(open.options.recursive);
    let options = opendal::options::ListOptions {
        recursive: true,
        ..Default::default()
    };
    let entries: Vec<(String, Metadata)> = block_on(op.list_options(&open.path, options))
        .unwrap()
        .into_iter()
        .map(|entry| (entry.path().to_string(), metadata(entry.metadata())))
        .collect();
    let mut shown = Vec::new();
    let mut files = Vec::new();
    for (path, _) in &entries {
        let stat = found(&op, path).ok().unwrap();
        match open.cursor.next(Pulled::Entry(path.clone(), stat)) {
            CursorStep::Row(row) => {
                shown.push(row.path);
                files.push((path.clone(), found(&op, path).ok().unwrap()));
            }
            CursorStep::Skip => {}
            _ => panic!("entries are shown or not"),
        }
    }
    shown.sort();
    assert_eq!(
        shown,
        ["data/part-1.csv", "data/x/part-2.csv", "data/x/y/part-3.csv"]
    );
    let mut usage = rollup(&files, None).ok().unwrap();
    let mut rows = Vec::new();
    while let Some(row) = usage.next_row() {
        rows.push((row.directory.clone(), row.file_count, row.total_size));
    }
    assert_eq!(
        rows,
        [
            ("data".to_string(), 1, 1),
            ("data/x".to_string(), 1, 2),
            ("data/x/y".to_string(), 1, 3)
        ]
    );
}

#[test]
fn the_entry_of_a_service_is_shown() {
    let (op, kept, _) = memory(&[], &[]);
    write(&op, "a/one.txt", "1");
    let raw = OdStatOptions {
        version: CText::Null,
        if_match: CText::Null,
        if_none_match: CText::Null,
        if_modified_since_ms: 0,
        has_if_modified_since: 0,
        if_unmodified_since_ms: 0,
        has_if_unmodified_since: 0,
    };
    let request = od_table_stat_open(Some(&kept), &text("a/one.txt"), &raw).ok().unwrap();
    let stat = found(&op, &request.path).ok().unwrap();
    let mut cursor = stat_cursor(request.path, stat);
    let pulled = cursor.pull().unwrap();
    match cursor.next(pulled) {
        CursorStep::Row(row) => {
            assert_eq!((row.path.as_str(), row.name.as_str()), ("a/one.txt", "one.txt"));
            assert_eq!((row.mode, row.content_length), (1, 1));
        }
        _ => panic!("there is a row"),
    }
}

#[test]
fn copies_run_through_services() {
    let (from, source, _) = memory(&[], &[]);
    let (to, destination, _) = memory(&[], &[]);
    let data = "bounded chunks, one after the other";
    write(&from, "in.txt", data);
    let raw = OdCopyOptions {
        if_not_exists: 0,
        if_match: CText::Null,
        source_version: CText::Null,
        source_content_length_hint: data.len() as u64,
        has_source_content_length_hint: 1,
        concurrent: 0,
        has_concurrent: 0,
        chunk_size: 8,
        has_chunk_size: 1,
    };
    let mut copy = od_table_copy_open(
        Some(&source),
        &text("in.txt"),
        Some(&destination),
        &text("out/copy.txt"),
        false,
        &raw,
    )
    .ok()
    .unwrap();
    block_on(async {
        let mut reader = None;
        let mut writer = None;
        let mut chunk = opendal::Buffer::new();
        loop {
            let reply = match &copy.state {
                CopyState::StatSource => {
                    CopyReply::Metadata(metadata(&from.stat(&copy.job.source).await.unwrap()))
                }
                CopyState::OpenReader { .. } => {
                    reader = Some(from.reader(&copy.job.source).await.unwrap());
                    CopyReply::Opened
                }
                CopyState::OpenWriter { .. } => {
                    writer = Some(to.writer(&copy.job.destination).await.unwrap());
                    CopyReply::Opened
                }
                CopyState::Reading { size, offset } => {
                    let (start, end) = copy.range(*size, *offset);
                    assert!(end - start <= 8);
                    chunk = reader.as_ref().unwrap().read(start..end).await.unwrap();
                    CopyReply::Read
                }
                CopyState::Writing { .. } => {
                    writer.as_mut().unwrap().write(chunk.clone()).await.unwrap();
                    CopyReply::Written
                }
                CopyState::ClosingWriter { .. } => {
                    CopyReply::Closed(metadata(&writer.as_mut().unwrap().close().await.unwrap()))
                }
                CopyState::StatDestination { .. } => CopyReply::Metadata(metadata(
                    &to.stat(&copy.job.destination).await.unwrap(),
                )),
                _ => break,
            };
            copy.advance(reply);
        }
    });
    let (bytes, row) = copy.outcome().unwrap().ok().unwrap().next_row().unwrap();
    assert_eq!(bytes, data.len() as u64);
    assert_eq!((row.path.as_str(), row.content_length), ("out/copy.txt", bytes));
    assert_eq!(block_on(to.read("out/copy.txt")).unwrap().to_vec(), data.as_bytes());
}

#[test]
fn s3_operator_from_uri_extracts_bucket() {
    opendal::init_default_registry();
    let keys = texts(&["endpoint", "region", "access_key_id", "secret_access_key"]);
    let values = texts(&["http://127.0.0.1:1", "us-east-1", "x", "y"]);
    let input = operator_input(
        &text("s3://my-bucket"),
        Some(&keys),
        Some(&values),
        keys.len(),
        None,
        None,
        0,
        &CText::Null,
    )
    .ok()
    .unwrap();
    let request = od_operator_new(input, None).ok().unwrap();
    let service = request.service.iter().cloned();
    let op = opendal::Operator::from_uri((request.uri.as_str(), service)).unwrap();
    let kept = built_operator(&request, flags(&op), None);
    assert_eq!(op.info().name(), "my-bucket");
    assert_eq!(kept.scheme, "s3");
}

#[test]
fn memory_operator_with_layers() {
    let keys = texts(&["retry.max_times", "timeout.seconds", "concurrent_limit"]);
    let values = texts(&["3", "30", "8"]);
    let request = odop_operator_new(
        &text("memory"),
        None,
        None,
        0,
        Some(&keys),
        Some(&values),
        keys.len(),
    )
    .ok()
    .unwrap();
    let layers = apply_layers(&request.layers, None, false).unwrap();
    assert!(matches!(layers[0], Layer::Retry { max_times: Some(3), .. }));
    assert!(matches!(
        layers[1],
        Layer::Timeout {
            operation: Some(30_000_000_000),
            io: None
        }
    ));
    assert!(matches!(layers[2], Layer::ConcurrentLimit(8)));
    opendal::init_default_registry();
    let service = request.service.iter().cloned();
    let op = opendal::Operator::via_iter(&request.scheme, service).unwrap();
    let kept = built_from_scheme(&request, flags(&op), &IoOptions::unset());
    write(&op, "layered.txt", "ok");
    let path = odop_stat(Some(&kept), &text("layered.txt")).ok().unwrap();
    let shown = OdopMetadata::of(&found(&op, &path).ok().unwrap());
    assert_eq!(shown.content_length, 2);
    assert_eq!(odop_remove(Some(&kept), &text(&path), 0).ok(), Some((path, false)));
}

#[test]
fn memory_writer_and_mutations() {
    let (op, kept, _) = memory(&[], &[]);
    let path = text("out/greeting.txt");
    let exists = |path: &CText| {
        let path = od_exists(Some(&kept), path).ok().unwrap();
        block_on(op.exists(&path)).unwrap()
    };
    let refusal = |code: Option<OdErrorCode>| assert_eq!(code, Some(OdErrorCode::InvalidInput));

    let mut opened = od_writer_open(Some(&kept), &path).ok().unwrap();
    refusal(od_writer_write(Some(&opened), u64::MAX, true).err().map(|e| e.code));
    let closed = block_on(async {
        let mut writer = op.writer(&opened.path).await.unwrap();
        for part in ["hello ", "world"] {
            assert_eq!(
                od_writer_write(Some(&opened), part.len() as u64, true).ok(),
                Some(WriteStep::Bytes(part.len()))
            );
            writer.write(part.to_string().into_bytes()).await.unwrap();
        }
        assert!(od_writer_close(Some(&opened)).is_ok());
        writer.close().await.map(|_| ()).map_err(|error| service_error(&error))
    });
    assert!(opened.after_close(closed).is_ok());
    refusal(od_writer_write(Some(&opened), 5, true).err().map(|e| e.code));
    refusal(od_writer_close(Some(&opened)).err().map(|e| e.code));
    refusal(od_writer_abort(Some(&opened)).err().map(|e| e.code));

    let stat = od_stat(Some(&kept), &path, true).ok().unwrap();
    let shown = OdMetadata::of(&found(&op, &stat).ok().unwrap());
    assert_eq!(shown.content_length, 11);
    let request = od_reader_open(Some(&kept), &path).ok().unwrap();
    assert_eq!(od_reader_read(true, 0, 0, false).ok(), Some(ReadStep::Nothing));
    match od_reader_read(true, 0, 11, true).ok().unwrap() {
        ReadStep::Range { start, end } => {
            let bytes = block_on(async {
                let reader = op.reader(&request.path).await.unwrap();
                reader.read(start..end).await.unwrap().to_vec()
            });
            assert_eq!(bytes.len(), 11);
            assert_eq!(bytes, "hello world".as_bytes());
        }
        ReadStep::Nothing => panic!("there is something to read"),
    }
    refusal(od_stat(Some(&kept), &path, false).err().map(|e| e.code));

    let remove = |path: &CText| {
        let (path, recursive) = od_remove(Some(&kept), path, 0).ok().unwrap();
        assert!(!recursive);
        block_on(op.delete(&path)).unwrap();
    };
    let renamed = text("out/renamed.txt");
    match od_rename(Some(&kept), &path, &renamed) {
        Ok((from, to)) => {
            block_on(op.rename(&from, &to)).unwrap();
            assert!(!exists(&path));
            assert!(exists(&renamed));
            remove(&renamed);
            assert!(!exists(&renamed));
        }
        Err(failure) => {
            assert_eq!(failure.code, OdErrorCode::Unsupported);
            remove(&path);
            assert!(!exists(&path));
        }
    }
}
