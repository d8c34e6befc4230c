//! Paths, metadata, conditions, ranges, errors and the builder.

use hdfs_native::HdfsError;
use hdfs_native_object_store::conditions::GetOptions;
use hdfs_native_object_store::error::{
    from_client, generic_error, generic_message, store_error, to_object_store_err, ErrorSource,
    FileError, StoreError,
};
use hdfs_native_object_store::get::serve;
use hdfs_native_object_store::meta::{
    get_etag, get_object_meta, FileStatus, ObjectMeta, Timestamp, MAX_SECS, MIN_SECS,
};
use hdfs_native_object_store::numeral::{write_decimal, write_hexadecimal};
use hdfs_native_object_store::path::{make_absolute_dir, make_absolute_file, Path, PathError};
use hdfs_native_object_store::range::{resolve, ByteRange, GetRange};
use hdfs_native_object_store::{HdfsObjectStore, HdfsObjectStoreBuilder};
use std::collections::HashMap;

fn path(text: &str) -> Path {
    Path::parse(text).unwrap()
}

fn file(text: &str, length: usize, modification_time: u64) -> FileStatus {
    FileStatus { path: text.to_string(), length, isdir: false, modification_time }
}

fn options() -> GetOptions {
    GetOptions::unconditional(false)
}

fn message(source: &ErrorSource) -> String {
    match source {
        ErrorSource::Message(text) => text.clone(),
        other => panic!("not a message: {:?}", other),
    }
}

#[test]
fn parse_drops_one_slash_at_each_end() {
    assert_eq!(path("foo/bar").as_str(), "foo/bar");
    assert_eq!(path("/foo/bar").as_str(), "foo/bar");
    assert_eq!(path("/foo/bar/").as_str(), "foo/bar");
    assert_eq!(path("").as_str(), "");
    assert_eq!(path("/").as_str(), "");
    assert_eq!(path("/.a/..b/c.").as_str(), ".a/..b/c.");
    assert_eq!(path("/\u{e4}/\u{1f600}").as_str(), "\u{e4}/\u{1f600}");
}

#[test]
fn parse_refuses_empty_segments() {
    for text in ["//", "/foo//bar", "//foo", "foo//"] {
        match Path::parse(text) {
            Err(PathError::EmptySegment { path }) => assert_eq!(path, text),
            other => panic!("{:?}", other),
        }
    }
}

#[test]
fn parse_refuses_bad_segments() {
    for text in ["/foo/./bar", "..", "/foo/..", "a\u{1}b", "a\u{7f}", "a/b\n/c"] {
        match Path::parse(text) {
            Err(PathError::BadSegment { path, .. }) => assert_eq!(path, text),
            other => panic!("{:?}", other),
        }
    }
}

#[test]
fn parse_reports_the_first_fault() {
    assert!(matches!(Path::parse("a/./b//c"), Err(PathError::BadSegment { .. })));
    assert!(matches!(Path::parse("a//b/./c"), Err(PathError::EmptySegment { .. })));
}

#[test]
fn parent_is_all_but_the_last_segment() {
    assert_eq!(path("a/b/c").parent().unwrap().as_str(), "a/b");
    assert_eq!(path("a/b").parent().unwrap().as_str(), "a");
    assert_eq!(path("\u{e4}\u{f6}/b").parent().unwrap().as_str(), "\u{e4}\u{f6}");
    assert!(path("a").parent().is_none());
    assert!(path("").parent().is_none());
}

#[test]
fn absolute_paths() {
    assert_eq!(make_absolute_file(&path("foo/bar")), "/foo/bar");
    assert_eq!(make_absolute_file(&path("")), "/");
    assert_eq!(make_absolute_dir(&path("foo/bar")), "/foo/bar/");
    assert_eq!(make_absolute_dir(&path("")), "/");
}

#[test]
fn absolute_paths_parse_back() {
    for text in ["", "a", "a/b c/d"] {
        let object = path(text);
        assert_eq!(path(&make_absolute_file(&object)).as_str(), text);
        assert_eq!(path(&make_absolute_dir(&object)).as_str(), text);
    }
}

#[test]
fn numerals() {
    for n in [0, 1, 9, 10, 15, 16, 99, 100, 255, 256, 4096, 1234567890, u64::MAX] {
        assert_eq!(write_decimal(n), format!("{}", n));
        assert_eq!(write_hexadecimal(n), format!("{:x}", n));
    }
}

#[test]
fn etag_is_time_and_size() {
    assert_eq!(get_etag(&file("/a", 0, 0)), "0-0");
    assert_eq!(get_etag(&file("/a", 4096, 1_700_000_000_000)), "18bcfe56800-1000");
    assert_eq!(get_etag(&file("/a", 255, u64::MAX)), "ffffffffffffffff-ff");
}

#[test]
fn etag_tells_versions_apart() {
    let tags = [
        get_etag(&file("/a", 0x11, 0x1)),
        get_etag(&file("/a", 0x1, 0x11)),
        get_etag(&file("/a", 0x1, 0x1)),
        get_etag(&file("/a", 0x11, 0x11)),
    ];
    for i in 0..tags.len() {
        for j in 0..i {
            assert_ne!(tags[i], tags[j]);
        }
    }
    assert_eq!(get_etag(&file("/b", 0x11, 0x1)), tags[0]);
}

#[test]
fn object_meta_of_a_file() {
    let meta = get_object_meta(&file("/foo/bar", 12, 1_700_000_000_123)).unwrap();
    assert_eq!(meta.location.as_str(), "foo/bar");
    assert_eq!(meta.last_modified.secs(), 1_700_000_000);
    assert_eq!(meta.last_modified.nanos(), 123_000_000);
    assert_eq!(meta.size, 12);
    assert_eq!(meta.e_tag, Some("18bcfe5687b-c".to_string()));
    assert_eq!(meta.version, None);
}

#[test]
fn object_meta_of_times_before_the_epoch() {
    // The time is taken as signed: this is one millisecond before the epoch.
    let meta = get_object_meta(&file("/a", 0, u64::MAX)).unwrap();
    assert_eq!((meta.last_modified.secs(), meta.last_modified.nanos()), (-1, 999_000_000));
}

#[test]
fn object_meta_at_the_bounds_of_time() {
    let last = (MAX_SECS * 1000 + 999) as u64;
    let meta = get_object_meta(&file("/a", 0, last)).unwrap();
    assert_eq!((meta.last_modified.secs(), meta.last_modified.nanos()), (MAX_SECS, 999_000_000));
    let first = (MIN_SECS * 1000) as u64;
    let meta = get_object_meta(&file("/a", 0, first)).unwrap();
    assert_eq!((meta.last_modified.secs(), meta.last_modified.nanos()), (MIN_SECS, 0));
    for millis in [last + 1, first - 1, i64::MAX as u64, i64::MIN as u64] {
        match get_object_meta(&file("/a", 0, millis)) {
            Err(StoreError::Generic { store, source }) => {
                assert_eq!(store, "HFDS");
                assert_eq!(message(&source), "Last modified timestamp out of bounds");
            }
            other => panic!("{:?}", other),
        }
    }
}

#[test]
fn object_meta_of_a_bad_path() {
    match get_object_meta(&file("/a//b", 0, u64::MAX / 2)) {
        Err(StoreError::InvalidPath(PathError::EmptySegment { path })) => {
            assert_eq!(path, "/a//b");
        }
        other => panic!("{:?}", other),
    }
}

#[test]
fn timestamps_match_those_of_chrono() {
    let seconds = [MIN_SECS - 1, MIN_SECS, -61, -60, -1, 0, 59, 60, MAX_SECS, MAX_SECS + 1];
    for secs in seconds {
        for nanos in [0, 999_999_999, 1_000_000_000, 1_999_999_999, 2_000_000_000] {
            let ours = Timestamp::new(secs, nanos);
            let theirs = chrono::DateTime::from_timestamp(secs, nanos);
            assert_eq!(ours.is_some(), theirs.is_some(), "{} {}", secs, nanos);
            if let (Some(a), Some(b)) = (ours, theirs) {
                assert_eq!(a.secs(), b.timestamp());
                assert_eq!(a.nanos(), b.timestamp_subsec_nanos());
            }
        }
    }
}

fn served(options: &GetOptions) -> Result<(ObjectMeta, ByteRange), StoreError> {
    serve(&path("a/b"), options, &file("/a/b", 100, 1_000_500))
}

fn range_of(range: GetRange) -> Result<(u64, u64), String> {
    let mut wanted = options();
    wanted.range = Some(range);
    match served(&wanted) {
        Ok((_, bytes)) => Ok((bytes.start, bytes.end)),
        Err(StoreError::Generic { store, source: ErrorSource::Range(e) }) => {
            assert_eq!(store, "HFDS");
            assert_eq!((e.range, e.length), (range, 100));
            Err(e.text)
        }
        Err(other) => panic!("{:?}", other),
    }
}

#[test]
fn whole_object_is_served() {
    let (meta, bytes) = served(&options()).unwrap();
    assert_eq!(bytes, ByteRange { start: 0, end: 100 });
    assert_eq!(meta.location.as_str(), "a/b");
    assert_eq!(meta.size, 100);
}

#[test]
fn head_serves_no_bytes() {
    let mut wanted = GetOptions::unconditional(true);
    wanted.range = Some(GetRange::Offset(1000));
    let (meta, bytes) = served(&wanted).unwrap();
    assert_eq!(bytes, ByteRange { start: 0, end: 0 });
    assert_eq!(meta.e_tag, Some("f4434-64".to_string()));
}

#[test]
fn ranges_are_cut_off() {
    assert_eq!(range_of(GetRange::Bounded { start: 10, end: 20 }), Ok((10, 20)));
    assert_eq!(range_of(GetRange::Bounded { start: 10, end: 1000 }), Ok((10, 100)));
    assert_eq!(range_of(GetRange::Bounded { start: 0, end: u64::MAX }), Ok((0, 100)));
    assert_eq!(range_of(GetRange::Offset(0)), Ok((0, 100)));
    assert_eq!(range_of(GetRange::Offset(99)), Ok((99, 100)));
    assert_eq!(range_of(GetRange::Suffix(0)), Ok((100, 100)));
    assert_eq!(range_of(GetRange::Suffix(30)), Ok((70, 100)));
    assert_eq!(range_of(GetRange::Suffix(100)), Ok((0, 100)));
    assert_eq!(range_of(GetRange::Suffix(101)), Ok((0, 100)));
}

#[test]
fn ranges_without_bytes_are_refused() {
    assert_eq!(
        range_of(GetRange::Bounded { start: 20, end: 20 }),
        Err("Range started at 20 and ended at 20".to_string())
    );
    assert_eq!(
        range_of(GetRange::Bounded { start: 200, end: 10 }),
        Err("Range started at 200 and ended at 10".to_string())
    );
    let late = "Wanted range starting at 100, but object was only 100 bytes long".to_string();
    assert_eq!(range_of(GetRange::Bounded { start: 100, end: 101 }), Err(late.clone()));
    assert_eq!(range_of(GetRange::Offset(100)), Err(late));
}

#[test]
fn directories_are_not_found() {
    let status =
        FileStatus { path: "/a//b".to_string(), length: 0, isdir: true, modification_time: 0 };
    match serve(&path("a/b"), &options(), &status) {
        Err(StoreError::NotFound { path, source }) => {
            assert_eq!(path, "a/b");
            assert_eq!(message(&source), "Head cannot be called on a directory");
        }
        other => panic!("{:?}", other),
    }
}

fn refusal(options: &GetOptions) -> Option<(&'static str, String, String)> {
    match served(options) {
        Ok(_) => None,
        Err(StoreError::Precondition { path, source }) => {
            Some(("precondition", path, message(&source)))
        }
        Err(StoreError::NotModified { path, source }) => {
            Some(("not modified", path, message(&source)))
        }
        Err(other) => panic!("{:?}", other),
    }
}

#[test]
fn if_match() {
    let mut wanted = options();
    for list in ["f4434-64", "*", "x, f4434-64", " f4434-64 ,y", "x,\u{2003}f4434-64\t"] {
        wanted.if_match = Some(list.to_string());
        assert_eq!(refusal(&wanted), None);
    }
    for list in ["x", "", "*,x", "f4434", "\u{200b}f4434-64"] {
        wanted.if_match = Some(list.to_string());
        let text = format!("f4434-64 does not match {}", list);
        assert_eq!(refusal(&wanted), Some(("precondition", "a/b".to_string(), text)));
    }
}

#[test]
fn if_none_match() {
    let mut wanted = options();
    for list in ["x", "", "f4434-6"] {
        wanted.if_none_match = Some(list.to_string());
        assert_eq!(refusal(&wanted), None);
    }
    for list in ["f4434-64", "*", "x, f4434-64"] {
        wanted.if_none_match = Some(list.to_string());
        let text = format!("f4434-64 matches {}", list);
        assert_eq!(refusal(&wanted), Some(("not modified", "a/b".to_string(), text)));
    }
}

#[test]
fn if_unmodified_since() {
    let mut wanted = options();
    for (secs, nanos) in [(1000, 500_000_000), (1000, 500_000_001), (1001, 0)] {
        wanted.if_unmodified_since = Timestamp::new(secs, nanos);
        assert_eq!(refusal(&wanted), None);
    }
    wanted.if_unmodified_since = Timestamp::new(1000, 0);
    let text = "1970-01-01 00:16:40 UTC < 1970-01-01 00:16:40.500 UTC".to_string();
    assert_eq!(refusal(&wanted), Some(("precondition", "a/b".to_string(), text)));
    // A list of ETags comes first.
    wanted.if_match = Some("*".to_string());
    assert_eq!(refusal(&wanted), None);
}

#[test]
fn if_modified_since() {
    let mut wanted = options();
    for (secs, nanos) in [(1000, 499_999_999), (999, 999_999_999), (-5, 0)] {
        wanted.if_modified_since = Timestamp::new(secs, nanos);
        assert_eq!(refusal(&wanted), None);
    }
    wanted.if_modified_since = Timestamp::new(1000, 500_000_000);
    let text = "1970-01-01 00:16:40.500 UTC >= 1970-01-01 00:16:40.500 UTC".to_string();
    assert_eq!(refusal(&wanted), Some(("not modified", "a/b".to_string(), text)));
    // A list of ETags comes first.
    wanted.if_none_match = Some("x".to_string());
    assert_eq!(refusal(&wanted), None);
}

#[test]
fn a_failed_condition_comes_before_no_news() {
    let mut wanted = options();
    wanted.if_match = Some("x".to_string());
    wanted.if_none_match = Some("*".to_string());
    assert_eq!(refusal(&wanted).unwrap().0, "precondition");
}

#[test]
fn own_etag_is_recognised() {
    let (meta, _) = served(&options()).unwrap();
    let mut wanted = options();
    wanted.if_match = meta.e_tag.clone();
    assert_eq!(refusal(&wanted), None);
    let mut known = options();
    known.if_none_match = meta.e_tag;
    assert_eq!(refusal(&known).unwrap().0, "not modified");
}

#[test]
fn client_errors_are_told_apart() {
    let told = |e: HdfsError| from_client::<()>(Err(e)).unwrap_err();
    match told(HdfsError::FileNotFound("/a".to_string())) {
        FileError::FileNotFound(path) => assert_eq!(path, "/a"),
        other => panic!("{:?}", other),
    }
    match told(HdfsError::AlreadyExists("/b".to_string())) {
        FileError::AlreadyExists(path) => assert_eq!(path, "/b"),
        other => panic!("{:?}", other),
    }
    match told(HdfsError::InvalidPath("why".to_string())) {
        FileError::InvalidPath(reason) => assert_eq!(reason, "why"),
        other => panic!("{:?}", other),
    }
    match told(HdfsError::OperationFailed("no".to_string())) {
        FileError::Other(HdfsError::OperationFailed(text)) => assert_eq!(text, "no"),
        other => panic!("{:?}", other),
    }
    assert!(matches!(told(HdfsError::ChecksumError), FileError::Other(HdfsError::ChecksumError)));
    assert!(matches!(from_client(Ok(7)), Ok(7)));
}

#[test]
fn store_errors_of_file_errors() {
    match store_error(FileError::FileNotFound("/a".to_string())) {
        StoreError::NotFound { path, source: ErrorSource::Hdfs(FileError::FileNotFound(same)) } => {
            assert_eq!((path.as_str(), same.as_str()), ("/a", "/a"));
        }
        other => panic!("{:?}", other),
    }
    match store_error(FileError::AlreadyExists("/a".to_string())) {
        StoreError::AlreadyExists {
            path,
            source: ErrorSource::Hdfs(FileError::AlreadyExists(same)),
        } => {
            assert_eq!((path.as_str(), same.as_str()), ("/a", "/a"));
        }
        other => panic!("{:?}", other),
    }
    match to_object_store_err::<()>(Err(FileError::InvalidPath("why".to_string()))) {
        Err(StoreError::Generic {
            store,
            source: ErrorSource::Hdfs(FileError::InvalidPath(reason)),
        }) => {
            assert_eq!((store, reason.as_str()), ("HdfsObjectStore", "why"));
        }
        other => panic!("{:?}", other),
    }
    match store_error(FileError::Other(HdfsError::ChecksumError)) {
        StoreError::Generic {
            store,
            source: ErrorSource::Hdfs(FileError::Other(HdfsError::ChecksumError)),
        } => assert_eq!(store, "HdfsObjectStore"),
        other => panic!("{:?}", other),
    }
    assert!(matches!(to_object_store_err(Ok(3)), Ok(3)));
}

#[test]
fn generic_errors_carry_a_message() {
    for e in [generic_message("oops"), generic_error(ErrorSource::Message("oops".to_string()))] {
        match e {
            StoreError::Generic { store, source } => {
                assert_eq!(store, "HFDS");
                assert_eq!(message(&source), "oops");
            }
            other => panic!("{:?}", other),
        }
    }
}

#[test]
fn builder_builds_for_a_name_node() {
    let builder = HdfsObjectStoreBuilder::new().with_url("hdfs://localhost:9000".to_string());
    let store = builder.build().unwrap();
    assert_eq!(store.name(), "HdfsObjectStore");
    assert!(HdfsObjectStore::with_url("hdfs://127.0.0.1:9000").is_ok());
}

#[test]
fn builder_builds_for_a_name_service() {
    let config = HashMap::from([
        ("dfs.ha.namenodes.ns".to_string(), "nn1,nn2".to_string()),
        ("dfs.namenode.rpc-address.ns.nn1".to_string(), "nn1.example.com:9000".to_string()),
        ("dfs.namenode.rpc-address.ns.nn2".to_string(), "nn2.example.com:9000".to_string()),
    ]);
    assert!(HdfsObjectStore::with_config("hdfs://ns", config).is_ok());
    // Without the settings, no name node is known for the service.
    let config = HashMap::from([("dfs.ha.namenodes.ns".to_string(), "nn1".to_string())]);
    let store = HdfsObjectStoreBuilder::new()
        .with_url("hdfs://ns".to_string())
        .with_config(config)
        .build();
    assert!(matches!(store, Err(StoreError::Generic { store: "HdfsObjectStore", .. })));
}

#[test]
fn builder_hands_on_the_default_address() {
    let config = HashMap::from([("fs.defaultFS".to_string(), "hdfs://localhost:9000".to_string())]);
    assert!(HdfsObjectStoreBuilder::default().with_config(config).build().is_ok());
}

#[test]
fn builder_takes_a_runtime() {
    let runtime = tokio::runtime::Runtime::new().unwrap();
    let store = HdfsObjectStoreBuilder::new()
        .with_url("hdfs://localhost:9000".to_string())
        .with_io_runtime(runtime.handle().clone())
        .build()
        .unwrap();
    assert_eq!(store.io_runtime().as_ref().unwrap().id(), runtime.handle().id());
    let store = HdfsObjectStore::with_url("hdfs://localhost:9000").unwrap();
    assert!(store.io_runtime().is_none());
}

#[test]
fn builder_reports_errors_of_the_client() {
    match HdfsObjectStore::with_url("no address") {
        Err(StoreError::Generic {
            store,
            source: ErrorSource::Hdfs(FileError::Other(HdfsError::UrlParseError(_))),
        }) => assert_eq!(store, "HdfsObjectStore"),
        other => panic!("{:?}", other),
    }
    match HdfsObjectStore::with_url("s3://bucket") {
        Err(StoreError::Generic {
            source: ErrorSource::Hdfs(FileError::Other(HdfsError::InvalidArgument(text))),
            ..
        }) => assert_eq!(text, "Only `hdfs` and `viewfs` schemes are supported"),
        other => panic!("{:?}", other),
    }
}

#[test]
fn store_keeps_its_client() {
    let client =
        hdfs_native::ClientBuilder::new().with_url("hdfs://127.0.0.1:9000").build().unwrap();
    let text = format!("{:?}", client);
    let store = HdfsObjectStore::new(client.clone());
    assert_eq!(format!("{:?}", store.client()), text);
    assert!(store.io_runtime().is_none());
    let store = HdfsObjectStore::from(client);
    assert_eq!(format!("{:?}", store.client()), text);
    assert!(store.io_runtime().is_none());
    let failed = HdfsObjectStore::from_client(Err(FileError::FileNotFound("/c".to_string())), None);
    assert!(matches!(failed, Err(StoreError::NotFound { .. })));
}

#[test]
fn range_errors_are_those_of_object_store() {
    let ranges = [
        (GetRange::Bounded { start: 20, end: 20 }, object_store::GetRange::Bounded(20..20)),
        (GetRange::Bounded { start: 7, end: 3 }, object_store::GetRange::Bounded(7..3)),
        (GetRange::Bounded { start: 5, end: 9 }, object_store::GetRange::Bounded(5..9)),
        (GetRange::Bounded { start: 1, end: 9 }, object_store::GetRange::Bounded(1..9)),
        (GetRange::Offset(5), object_store::GetRange::Offset(5)),
        (GetRange::Offset(2), object_store::GetRange::Offset(2)),
        (GetRange::Suffix(9), object_store::GetRange::Suffix(9)),
    ];
    for (ours, theirs) in ranges {
        match (resolve(&ours, 5), theirs.as_range(5)) {
            (Ok(bytes), Ok(range)) => assert_eq!((bytes.start, bytes.end), (range.start, range.end)),
            (Err(e), Err(error)) => {
                assert_eq!(e.text, error.to_string());
                assert_eq!((e.range, e.length), (ours, 5));
            }
            (r, _) => panic!("{:?}", r),
        }
    }
}
