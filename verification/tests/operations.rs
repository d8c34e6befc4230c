//! Whole operations, run against a small file system in memory.

use hdfs_native::HdfsError;
use hdfs_native_object_store::conditions::GetOptions;
use hdfs_native_object_store::copy::{CopyMode, CopyOperation};
use hdfs_native_object_store::delete::DeleteOperation;
use hdfs_native_object_store::error::{ErrorSource, FileError, StoreError};
use hdfs_native_object_store::get::{GetOperation, GetResult};
use hdfs_native_object_store::list::{list_directory, list_entry, DelimitedListing, ListResult};
use hdfs_native_object_store::meta::{FileStatus, ObjectMeta};
use hdfs_native_object_store::multipart::{
    part_result, resume_upload, start_upload, HdfsMultipartWriter, WriterTask,
};
use hdfs_native_object_store::path::{make_absolute_file, Path, PathError};
use hdfs_native_object_store::put::{PutMode, PutOperation, PutResult};
use hdfs_native_object_store::range::GetRange;
use hdfs_native_object_store::rename::{RenameOperation, RenameTargetMode};
use hdfs_native_object_store::request::{Progress, Reply, Request};
use hdfs_native_object_store::tmp::TmpFile;
use std::collections::BTreeMap;

struct Disk {
    files: BTreeMap<String, (Vec<u8>, u64)>,
    now: u64,
    writing: String,
    opened: Vec<u8>,
    stream: Vec<u8>,
    read: Vec<u8>,
    calls: Vec<String>,
    /// The number of the call that fails.
    fault: Option<usize>,
}

fn failed(text: &str) -> FileError {
    FileError::Other(HdfsError::OperationFailed(text.to_string()))
}

impl Disk {
    fn new() -> Disk {
        Disk {
            files: BTreeMap::new(),
            now: 1_700_000_000_000,
            writing: String::new(),
            opened: Vec::new(),
            stream: Vec::new(),
            read: Vec::new(),
            calls: Vec::new(),
            fault: None,
        }
    }

    fn with(files: &[(&str, &str)]) -> Disk {
        let mut disk = Disk::new();
        for (name, content) in files {
            disk.files.insert(name.to_string(), (content.as_bytes().to_vec(), 1_000));
        }
        disk
    }

    fn content(&self, name: &str) -> Option<String> {
        self.files.get(name).map(|f| String::from_utf8(f.0.clone()).unwrap())
    }

    fn names(&self) -> Vec<&str> {
        self.files.keys().map(|k| k.as_str()).collect()
    }

    fn append(&mut self, bytes: &[u8]) {
        self.files.get_mut(&self.writing).unwrap().0.extend_from_slice(bytes);
    }

    fn status(&self, name: &str) -> FileStatus {
        let (content, modification_time) = &self.files[name];
        FileStatus {
            path: name.to_string(),
            length: content.len(),
            isdir: false,
            modification_time: *modification_time,
        }
    }

    fn call(&mut self, request: &Request, payload: &[Vec<u8>]) -> Reply {
        let number = self.calls.len();
        self.calls.push(format!("{:?}", request));
        if self.fault == Some(number) {
            return Reply::Failed(failed("broken"));
        }
        match request {
            Request::GetFileInfo { path } | Request::Open { path }
                if !self.files.contains_key(path) =>
            {
                Reply::Failed(FileError::FileNotFound(path.clone()))
            }
            Request::GetFileInfo { path } => Reply::Status(self.status(path)),
            Request::Open { path } => {
                self.opened = self.files[path].0.clone();
                Reply::Opened { length: self.opened.len() }
            }
            Request::Create { path, overwrite } => {
                if self.files.contains_key(path) && !overwrite {
                    return Reply::Failed(FileError::AlreadyExists(path.clone()));
                }
                self.files.insert(path.clone(), (Vec::new(), self.now));
                self.writing = path.clone();
                Reply::Done
            }
            Request::Write { chunk } => {
                self.append(&payload[*chunk]);
                Reply::Done
            }
            Request::WriteRead => {
                let bytes = self.read.clone();
                self.append(&bytes);
                Reply::Done
            }
            Request::Rename { from, to, overwrite } => {
                if self.files.contains_key(to) && !overwrite {
                    return Reply::Failed(FileError::AlreadyExists(to.clone()));
                }
                match self.files.remove(from) {
                    Some(file) => {
                        self.files.insert(to.clone(), file);
                        Reply::Done
                    }
                    None => Reply::Failed(FileError::FileNotFound(from.clone())),
                }
            }
            Request::Delete { path, .. } => {
                self.files.remove(path);
                Reply::Done
            }
            Request::Stream { offset, length } => {
                self.stream = self.opened[*offset..*offset + *length].to_vec();
                Reply::Done
            }
            Request::ReadNext => {
                if self.stream.is_empty() {
                    return Reply::End;
                }
                let rest = self.stream.split_off(self.stream.len().min(3));
                self.read = std::mem::replace(&mut self.stream, rest);
                Reply::Chunk
            }
            Request::Close | Request::MakeDirs { .. } | Request::AbortTask => Reply::Done,
            Request::ReceivePart | Request::JoinTask => panic!("{:?}", request),
        }
    }

    fn put(&mut self, name: &str, mode: PutMode, chunks: &[&str]) -> Result<PutResult, StoreError> {
        let payload: Vec<Vec<u8>> = chunks.iter().map(|c| c.as_bytes().to_vec()).collect();
        let mut progress = PutOperation::start(path(name), mode, payload.len());
        loop {
            match progress {
                Progress::Ended(r) => return r,
                Progress::Pending(op) => {
                    let reply = self.call(&op.request(), &payload);
                    assert!(op.accepts(&reply));
                    progress = op.resume(reply);
                }
            }
        }
    }

    fn get(&mut self, name: &str, options: GetOptions) -> Result<(GetResult, String), StoreError> {
        let mut progress = Progress::Pending(GetOperation::start(path(name), options));
        loop {
            match progress {
                Progress::Ended(r) => {
                    return r.map(|result: GetResult| {
                        let bytes = match result.content {
                            Some((offset, length)) => self.opened[offset..offset + length].to_vec(),
                            None => Vec::new(),
                        };
                        (result, String::from_utf8(bytes).unwrap())
                    });
                }
                Progress::Pending(op) => {
                    let request = op.request();
                    let reply = self.call(&request, &[]);
                    assert!(request.answered_by(&reply));
                    progress = op.resume(reply);
                }
            }
        }
    }

    fn copy(&mut self, from: &str, to: &str, mode: CopyMode) -> Result<(), StoreError> {
        let mut progress = Progress::Pending(CopyOperation::start(path(from), path(to), mode));
        loop {
            match progress {
                Progress::Ended(r) => return r,
                Progress::Pending(op) => {
                    let request = op.request();
                    let reply = self.call(&request, &[]);
                    assert!(request.answered_by(&reply));
                    progress = op.resume(reply);
                }
            }
        }
    }

    fn rename(&mut self, from: &str, to: &str, mode: RenameTargetMode) -> Result<(), StoreError> {
        let mut progress = Progress::Pending(RenameOperation::start(path(from), path(to), mode));
        loop {
            match progress {
                Progress::Ended(r) => return r,
                Progress::Pending(op) => {
                    let request = op.request();
                    let reply = self.call(&request, &[]);
                    assert!(request.answered_by(&reply));
                    progress = op.resume(reply);
                }
            }
        }
    }

    fn delete(&mut self, name: &str) -> Result<Path, StoreError> {
        self.delete_item(Ok(path(name)))
    }

    fn delete_item(&mut self, location: Result<Path, StoreError>) -> Result<Path, StoreError> {
        let mut progress = DeleteOperation::start(location);
        loop {
            match progress {
                Progress::Ended(r) => return r,
                Progress::Pending(op) => {
                    let request = op.request();
                    let reply = self.call(&request, &[]);
                    assert!(request.answered_by(&reply));
                    progress = op.resume(reply);
                }
            }
        }
    }

    fn upload(&mut self, name: &str) -> Result<HdfsMultipartWriter, StoreError> {
        let mut progress = start_upload(&path(name));
        loop {
            match progress {
                Progress::Ended(r) => return r,
                Progress::Pending(tmp) => {
                    let reply = self.call(&tmp.request(), &[]);
                    assert!(tmp.can_go_on(&reply));
                    progress = resume_upload(tmp, reply);
                }
            }
        }
    }

    /// Runs the task of an upload; gives back the answers to the parts.
    fn write_parts(
        &mut self,
        parts: &[&[&str]],
    ) -> (Vec<Result<(), StoreError>>, Result<(), StoreError>) {
        let mut answers = Vec::new();
        let mut received = 0;
        let mut payload: Vec<Vec<u8>> = Vec::new();
        let mut task = WriterTask::start();
        loop {
            let request = task.request();
            let reply = match request {
                Request::ReceivePart if received < parts.len() => {
                    payload = parts[received].iter().map(|c| c.as_bytes().to_vec()).collect();
                    received += 1;
                    Reply::Part { chunks: payload.len() }
                }
                Request::ReceivePart => Reply::NoMoreParts,
                _ => self.call(&request, &payload),
            };
            assert!(request.answered_by(&reply));
            let step = task.resume(reply);
            answers.extend(step.answer);
            match step.progress {
                Progress::Pending(next) => task = next,
                Progress::Ended(r) => return (answers, r),
            }
        }
    }

    fn complete(
        &mut self,
        upload: &mut HdfsMultipartWriter,
        task: Result<(), StoreError>,
    ) -> Result<PutResult, StoreError> {
        let mut ended = Some(task);
        let mut progress = upload.complete();
        loop {
            match progress {
                Progress::Ended(r) => return r,
                Progress::Pending(op) => {
                    let request = op.request();
                    let reply = match request {
                        Request::JoinTask => Reply::TaskEnded(Ok(ended.take().unwrap())),
                        _ => self.call(&request, &[]),
                    };
                    assert!(request.answered_by(&reply));
                    progress = op.resume(reply);
                }
            }
        }
    }

    fn abort(&mut self, upload: &mut HdfsMultipartWriter) -> Result<(), StoreError> {
        let mut progress = upload.abort();
        loop {
            match progress {
                Progress::Ended(r) => return r,
                Progress::Pending(op) => {
                    let request = op.request();
                    let reply = self.call(&request, &[]);
                    assert!(request.answered_by(&reply));
                    progress = op.resume(reply);
                }
            }
        }
    }

    /// What the file system lists: all files below a directory, or the files
    /// and directories in it.
    fn entries(&self, dir: &str, recursive: bool) -> Vec<Result<FileStatus, FileError>> {
        if self.files.contains_key(dir) {
            return vec![Ok(self.status(dir))];
        }
        let start = if dir == "/" { "/".to_string() } else { format!("{}/", dir) };
        let mut entries: BTreeMap<String, FileStatus> = BTreeMap::new();
        for name in self.files.keys().filter(|name| name.starts_with(&start)) {
            let rest = &name[start.len()..];
            for (at, _) in rest.match_indices('/') {
                let path = format!("{}{}", start, &rest[..at]);
                if recursive || at == rest.find('/').unwrap() {
                    let status = FileStatus {
                        path: path.clone(),
                        length: 0,
                        isdir: true,
                        modification_time: 0,
                    };
                    entries.insert(path, status);
                }
            }
            if recursive || !rest.contains('/') {
                entries.insert(name.clone(), self.status(name));
            }
        }
        if entries.is_empty() && dir != "/" {
            return vec![Err(FileError::FileNotFound(dir.to_string()))];
        }
        entries.into_values().map(Ok).collect()
    }

    fn list(&self, prefix: Option<&str>) -> Vec<String> {
        let prefix = prefix.map(path);
        let dir = list_directory(prefix.as_ref());
        let entries = self.entries(&dir, true).into_iter();
        let listed = entries.filter_map(|entry| list_entry(&dir, entry));
        listed.map(|meta| meta.unwrap().location.as_str().to_string()).collect()
    }

    fn list_with_delimiter(&self, prefix: Option<&str>) -> Result<ListResult, StoreError> {
        let prefix = prefix.map(path);
        let mut listing = DelimitedListing::start(prefix.as_ref());
        for entry in self.entries(listing.directory(), false) {
            listing.add_entry(entry)?;
        }
        listing.finish()
    }
}

fn path(text: &str) -> Path {
    Path::parse(text).unwrap()
}

fn whole() -> GetOptions {
    GetOptions::unconditional(false)
}

fn texts(paths: &[Path]) -> Vec<&str> {
    paths.iter().map(|p| p.as_str()).collect()
}

fn locations(metas: &[ObjectMeta]) -> Vec<&str> {
    metas.iter().map(|m| m.location.as_str()).collect()
}

fn is_broken(e: &StoreError) -> bool {
    matches!(
        e,
        StoreError::Generic {
            store: "HdfsObjectStore",
            source: ErrorSource::Hdfs(FileError::Other(HdfsError::OperationFailed(_))),
        }
    )
}

fn generic_text(e: StoreError) -> String {
    match e {
        StoreError::Generic { store: "HFDS", source: ErrorSource::Message(text) } => text,
        StoreError::Generic { store: "HFDS", source: ErrorSource::Range(e) } => e.text,
        other => panic!("{:?}", other),
    }
}

fn exists_already(e: StoreError) -> String {
    match e {
        StoreError::AlreadyExists { path, .. } => path,
        other => panic!("{:?}", other),
    }
}

fn not_found(e: StoreError) -> String {
    match e {
        StoreError::NotFound { path, .. } => path,
        other => panic!("{:?}", other),
    }
}

#[test]
fn temporary_names_are_those_of_the_standard_library() {
    for name in ["name", "dir/name", "a/b/c.txt", ".hidden", "\u{e4}/\u{1f600}x", "a/..b"] {
        let location = path(name);
        let mut tmp = TmpFile::start(&location).unwrap();
        let file = std::path::PathBuf::from(make_absolute_file(&location));
        let file_name = file.file_name().unwrap().to_str().unwrap().to_string();
        let base = file.with_file_name(format!(".{}.tmp", file_name));
        for index in 1..12 {
            let expected = format!("{}.{}", base.to_str().unwrap(), index);
            assert_eq!(tmp.path(), expected);
            let reply = Reply::Failed(FileError::AlreadyExists(expected));
            assert!(tmp.can_go_on(&reply));
            tmp.resume(reply);
        }
        assert_eq!(tmp.file(), make_absolute_file(&location));
    }
    let tmp = TmpFile::start(&path("dir/name")).unwrap();
    assert_eq!(tmp.path(), "/dir/.name.tmp.1");
}

#[test]
fn the_root_has_no_temporary_file() {
    match TmpFile::start(&path("")) {
        Err(StoreError::Generic {
            store,
            source: ErrorSource::Hdfs(FileError::InvalidPath(reason)),
        }) => {
            assert_eq!((store, reason.as_str()), ("HdfsObjectStore", "path missing filename"));
        }
        other => panic!("{:?}", other),
    }
    let mut disk = Disk::new();
    assert!(disk.put("", PutMode::Overwrite, &["x"]).is_err());
    assert!(disk.put("", PutMode::Create, &["x"]).is_err());
    assert!(disk.upload("").is_err());
    assert!(disk.files.is_empty());
}

#[test]
fn put_makes_its_calls_in_order() {
    let mut disk = Disk::with(&[("/d/.n.tmp.1", "other")]);
    disk.put("d/n", PutMode::Create, &["ab", "", "c"]).unwrap();
    assert_eq!(
        disk.calls,
        [
            "GetFileInfo { path: \"/d/n\" }",
            "Create { path: \"/d/.n.tmp.1\", overwrite: false }",
            "Create { path: \"/d/.n.tmp.2\", overwrite: false }",
            "Write { chunk: 0 }",
            "Write { chunk: 1 }",
            "Write { chunk: 2 }",
            "Close",
            "Rename { from: \"/d/.n.tmp.2\", to: \"/d/n\", overwrite: false }",
            "GetFileInfo { path: \"/d/n\" }",
        ]
    );
    assert_eq!(disk.content("/d/n").unwrap(), "abc");
    assert_eq!(disk.content("/d/.n.tmp.1").unwrap(), "other");
    assert_eq!(disk.names(), ["/d/.n.tmp.1", "/d/n"]);
}

#[test]
fn put_answers_with_the_etag() {
    let mut disk = Disk::new();
    let result = disk.put("a", PutMode::Overwrite, &["hello", " world"]).unwrap();
    assert_eq!(result.e_tag, Some("18bcfe56800-b".to_string()));
    assert_eq!(result.version, None);
    let (got, text) = disk.get("a", whole()).unwrap();
    assert_eq!(text, "hello world");
    assert_eq!(got.meta.e_tag, result.e_tag);
    assert_eq!((got.range.start, got.range.end), (0, 11));
}

#[test]
fn put_of_nothing_makes_an_empty_object() {
    let mut disk = Disk::new();
    disk.put("a", PutMode::Overwrite, &[]).unwrap();
    assert_eq!(disk.content("/a").unwrap(), "");
    assert_eq!(disk.get("a", whole()).unwrap().1, "");
}

#[test]
fn put_create_keeps_an_object_that_exists() {
    let mut disk = Disk::with(&[("/a", "old")]);
    let e = disk.put("a", PutMode::Create, &["new"]).unwrap_err();
    assert_eq!(exists_already(e), "/a");
    assert_eq!(disk.content("/a").unwrap(), "old");
    assert_eq!(disk.names(), ["/a"]);
    disk.put("a", PutMode::Overwrite, &["new"]).unwrap();
    assert_eq!(disk.content("/a").unwrap(), "new");
}

#[test]
fn put_update_is_not_implemented() {
    let mut disk = Disk::with(&[("/a", "old")]);
    match disk.put("a", PutMode::Update, &["new"]) {
        Err(StoreError::NotImplemented { operation, implementer }) => {
            assert_eq!(operation, "PutOptions with Update precondition");
            assert_eq!(implementer, "HdfsObjectStore");
        }
        other => panic!("{:?}", other),
    }
    assert!(disk.calls.is_empty());
}

#[test]
fn put_is_atomic_whichever_call_fails() {
    for fault in 0..8 {
        let mut disk = Disk::with(&[("/d/a", "old"), ("/d/b", "other")]);
        disk.fault = Some(fault);
        let result = disk.put("d/a", PutMode::Overwrite, &["n", "e", "w"]);
        let renamed = fault > 5;
        assert_eq!(disk.content("/d/a").unwrap(), if renamed { "new" } else { "old" });
        assert_eq!(disk.content("/d/b").unwrap(), "other");
        assert_eq!(result.is_ok(), fault > 6, "{}", fault);
        if let Err(e) = result {
            assert!(is_broken(&e));
        }
    }
}

#[test]
fn put_goes_on_where_the_first_look_fails() {
    let mut disk = Disk::new();
    disk.fault = Some(0);
    disk.put("a", PutMode::Create, &["x"]).unwrap();
    assert_eq!(disk.content("/a").unwrap(), "x");
    let mut disk = Disk::with(&[("/a", "old")]);
    disk.fault = Some(0);
    let e = disk.put("a", PutMode::Create, &["x"]).unwrap_err();
    assert_eq!(exists_already(e), "/a");
    assert_eq!(disk.content("/a").unwrap(), "old");
}

#[test]
fn get_serves_ranges() {
    let mut disk = Disk::with(&[("/d/a", "0123456789")]);
    let mut ranged = |range: GetRange| {
        let mut options = whole();
        options.range = Some(range);
        disk.get("d/a", options).map(|(_, text)| text)
    };
    assert_eq!(ranged(GetRange::Bounded { start: 2, end: 5 }).unwrap(), "234");
    assert_eq!(ranged(GetRange::Bounded { start: 8, end: 50 }).unwrap(), "89");
    assert_eq!(ranged(GetRange::Offset(7)).unwrap(), "789");
    assert_eq!(ranged(GetRange::Suffix(3)).unwrap(), "789");
    assert_eq!(
        generic_text(ranged(GetRange::Offset(10)).unwrap_err()),
        "Wanted range starting at 10, but object was only 10 bytes long"
    );
}

#[test]
fn get_head_opens_nothing() {
    let mut disk = Disk::with(&[("/d/a", "0123456789")]);
    let (got, text) = disk.get("d/a", GetOptions::unconditional(true)).unwrap();
    assert_eq!((got.content, text.as_str()), (None, ""));
    assert_eq!((got.range.start, got.range.end, got.meta.size), (0, 0, 10));
    assert_eq!(disk.calls, ["GetFileInfo { path: \"/d/a\" }"]);
}

#[test]
fn get_of_a_missing_object() {
    let mut disk = Disk::new();
    assert_eq!(not_found(disk.get("d/a", whole()).unwrap_err()), "/d/a");
}

#[test]
fn get_reports_failures() {
    for fault in 0..2 {
        let mut disk = Disk::with(&[("/a", "x")]);
        disk.fault = Some(fault);
        assert!(is_broken(&disk.get("a", whole()).unwrap_err()));
    }
}

#[test]
fn copy_copies_all_bytes() {
    let mut disk = Disk::with(&[("/a", "0123456789"), ("/c", "old")]);
    disk.copy("a", "b", CopyMode::Create).unwrap();
    disk.copy("a", "c", CopyMode::Overwrite).unwrap();
    for name in ["/a", "/b", "/c"] {
        assert_eq!(disk.content(name).unwrap(), "0123456789");
    }
    let mut disk = Disk::with(&[("/a", "")]);
    disk.copy("a", "b", CopyMode::Create).unwrap();
    assert_eq!(disk.content("/b").unwrap(), "");
}

#[test]
fn copy_makes_its_calls_in_order() {
    let mut disk = Disk::with(&[("/a", "01234")]);
    disk.copy("a", "b", CopyMode::Create).unwrap();
    assert_eq!(
        disk.calls,
        [
            "GetFileInfo { path: \"/b\" }",
            "Open { path: \"/a\" }",
            "Stream { offset: 0, length: 5 }",
            "Create { path: \"/b\", overwrite: false }",
            "ReadNext",
            "WriteRead",
            "ReadNext",
            "WriteRead",
            "ReadNext",
            "Close",
        ]
    );
}

#[test]
fn copy_create_keeps_an_object_that_exists() {
    let mut disk = Disk::with(&[("/a", "new"), ("/b", "old")]);
    let e = disk.copy("a", "b", CopyMode::Create).unwrap_err();
    assert_eq!(exists_already(e), "/b");
    assert_eq!(disk.content("/b").unwrap(), "old");
}

#[test]
fn copy_of_a_missing_object() {
    for mode in [CopyMode::Create, CopyMode::Overwrite] {
        let mut disk = Disk::new();
        assert_eq!(not_found(disk.copy("a", "b", mode).unwrap_err()), "/a");
        assert!(disk.files.is_empty());
    }
}

#[test]
fn copy_reports_failures() {
    for fault in 0..10 {
        let mut disk = Disk::with(&[("/a", "01234")]);
        disk.fault = Some(fault);
        assert!(is_broken(&disk.copy("a", "b", CopyMode::Create).unwrap_err()));
        assert_eq!(disk.content("/a").unwrap(), "01234");
    }
}

#[test]
fn rename_makes_the_parent_first() {
    let mut disk = Disk::with(&[("/a", "x")]);
    disk.rename("a", "d/e/b", RenameTargetMode::Overwrite).unwrap();
    assert_eq!(
        disk.calls,
        [
            "MakeDirs { path: \"/d/e/\", permission: 493, create_parent: true }",
            "Rename { from: \"/a\", to: \"/d/e/b\", overwrite: true }",
        ]
    );
    assert_eq!(disk.names(), ["/d/e/b"]);
    disk.calls.clear();
    disk.rename("d/e/b", "c", RenameTargetMode::Create).unwrap();
    assert_eq!(disk.calls, ["Rename { from: \"/d/e/b\", to: \"/c\", overwrite: false }"]);
    assert_eq!(disk.content("/c").unwrap(), "x");
}

#[test]
fn rename_create_keeps_an_object_that_exists() {
    let mut disk = Disk::with(&[("/a", "new"), ("/b", "old")]);
    let e = disk.rename("a", "b", RenameTargetMode::Create).unwrap_err();
    assert_eq!(exists_already(e), "/b");
    assert_eq!(disk.content("/a").unwrap(), "new");
    assert_eq!(disk.content("/b").unwrap(), "old");
    disk.rename("a", "b", RenameTargetMode::Overwrite).unwrap();
    assert_eq!(disk.names(), ["/b"]);
    assert_eq!(disk.content("/b").unwrap(), "new");
}

#[test]
fn rename_moves_nothing_without_a_parent() {
    for fault in 0..2 {
        let mut disk = Disk::with(&[("/a", "x")]);
        disk.fault = Some(fault);
        assert!(is_broken(&disk.rename("a", "d/b", RenameTargetMode::Overwrite).unwrap_err()));
        assert_eq!(disk.names(), ["/a"]);
        assert_eq!(disk.calls.len(), fault + 1);
    }
}

#[test]
fn deleted_objects_are_gone() {
    let mut disk = Disk::with(&[("/d/a", "x"), ("/d/b", "y")]);
    assert_eq!(disk.delete("d/a").unwrap().as_str(), "d/a");
    assert_eq!(disk.calls, ["Delete { path: \"/d/a\", recursive: false }"]);
    assert_eq!(not_found(disk.get("d/a", whole()).unwrap_err()), "/d/a");
    assert_eq!(disk.names(), ["/d/b"]);
    assert_eq!(disk.delete("d/a").unwrap().as_str(), "d/a");
    disk.fault = Some(disk.calls.len());
    assert!(is_broken(&disk.delete("d/b").unwrap_err()));
}

#[test]
fn upload_is_published_when_completed() {
    let mut disk = Disk::with(&[("/d/.a.tmp.1", "other"), ("/d/a", "old")]);
    let mut upload = disk.upload("d/a").unwrap();
    assert_eq!((upload.tmp_filename(), upload.final_filename()), ("/d/.a.tmp.2", "/d/a"));
    assert!(upload.put_part().is_ok());
    let (answers, task) = disk.write_parts(&[&["01", "2"], &[], &["345"]]);
    assert_eq!(answers.len(), 3);
    assert!(answers.iter().all(|answer| answer.is_ok()));
    assert_eq!(disk.content("/d/a").unwrap(), "old");
    let result = disk.complete(&mut upload, task).unwrap();
    assert_eq!((result.e_tag, result.version), (None, None));
    assert_eq!(disk.content("/d/a").unwrap(), "012345");
    assert_eq!(disk.names(), ["/d/.a.tmp.1", "/d/a"]);
    assert_eq!(
        disk.calls.last().unwrap(),
        "Rename { from: \"/d/.a.tmp.2\", to: \"/d/a\", overwrite: true }"
    );
}

#[test]
fn uploads_do_not_mix() {
    let mut disk = Disk::new();
    let mut first = disk.upload("a").unwrap();
    let mut second = disk.upload("a").unwrap();
    assert_ne!(first.tmp_filename(), second.tmp_filename());
    disk.writing = second.tmp_filename().to_string();
    let (_, task) = disk.write_parts(&[&["second"]]);
    disk.complete(&mut second, task).unwrap();
    disk.writing = first.tmp_filename().to_string();
    let (_, task) = disk.write_parts(&[&["first"]]);
    disk.complete(&mut first, task).unwrap();
    assert_eq!(disk.content("/a").unwrap(), "first");
    assert_eq!(disk.names(), ["/a"]);
}

#[test]
fn upload_publishes_nothing_after_a_failed_write() {
    let mut disk = Disk::with(&[("/a", "old")]);
    let mut upload = disk.upload("a").unwrap();
    disk.fault = Some(disk.calls.len() + 2);
    let (answers, task) = disk.write_parts(&[&["0"], &["1", "2"], &["3"]]);
    assert_eq!(answers.len(), 2);
    assert!(answers[0].is_ok());
    assert!(is_broken(answers[1].as_ref().unwrap_err()));
    assert_eq!(disk.content("/.a.tmp.1").unwrap(), "01");
    assert_eq!(disk.content("/a").unwrap(), "old");
    let e = disk.complete(&mut upload, task).unwrap_err();
    assert_eq!(generic_text(e), "Failed to write all parts");
    assert_eq!(disk.content("/a").unwrap(), "old");
}

#[test]
fn upload_publishes_nothing_after_a_failed_close() {
    let mut disk = Disk::with(&[("/a", "old")]);
    let mut upload = disk.upload("a").unwrap();
    disk.fault = Some(disk.calls.len() + 1);
    let (answers, task) = disk.write_parts(&[&["0"]]);
    assert!(answers[0].is_ok());
    assert!(is_broken(&disk.complete(&mut upload, task).unwrap_err()));
    assert_eq!(disk.content("/a").unwrap(), "old");
}

#[test]
fn upload_publishes_nothing_without_its_task() {
    let runtime = tokio::runtime::Runtime::new().unwrap();
    let task = runtime.spawn(std::future::pending::<()>());
    task.abort();
    let error = runtime.block_on(task).unwrap_err();
    let mut upload = HdfsMultipartWriter::new("/.a.tmp.1".to_string(), "/a".to_string());
    match upload.complete() {
        Progress::Pending(op) => match op.resume(Reply::TaskEnded(Err(error))) {
            Progress::Ended(Err(StoreError::JoinError(e))) => assert!(e.is_cancelled()),
            other => panic!("{:?}", other),
        },
        other => panic!("{:?}", other),
    }
}

#[test]
fn aborted_upload_leaves_nothing() {
    let mut disk = Disk::with(&[("/a", "old")]);
    let mut upload = disk.upload("a").unwrap();
    disk.abort(&mut upload).unwrap();
    assert_eq!(disk.names(), ["/a"]);
    assert_eq!(
        disk.calls[1..],
        ["AbortTask", "Delete { path: \"/.a.tmp.1\", recursive: false }"]
    );
    let mut upload = disk.upload("a").unwrap();
    disk.fault = Some(disk.calls.len() + 1);
    assert!(is_broken(&disk.abort(&mut upload).unwrap_err()));
}

#[test]
fn upload_ends_once() {
    let twice = "Cannot call abort or complete multiple times";
    let mut disk = Disk::new();
    let mut completed = disk.upload("a").unwrap();
    let (_, task) = disk.write_parts(&[&["x"]]);
    disk.complete(&mut completed, task).unwrap();
    let mut aborted = disk.upload("a").unwrap();
    disk.abort(&mut aborted).unwrap();
    let calls = disk.calls.len();
    for upload in [&mut completed, &mut aborted] {
        assert_eq!(
            generic_text(upload.put_part().unwrap_err()),
            "Cannot put part after completing or aborting"
        );
        assert_eq!(generic_text(disk.complete(upload, Ok(())).unwrap_err()), twice);
        assert_eq!(generic_text(disk.abort(upload).unwrap_err()), twice);
    }
    assert_eq!(disk.calls.len(), calls);
    assert_eq!(disk.content("/a").unwrap(), "x");
}

#[test]
fn parts_without_an_answer_failed() {
    assert_eq!(generic_text(part_result(None).unwrap_err()), "Write task failed");
    assert!(part_result(Some(Ok(()))).is_ok());
    assert!(is_broken(
        &part_result(Some(Err(StoreError::Generic {
            store: "HdfsObjectStore",
            source: ErrorSource::Hdfs(failed("x")),
        })))
        .unwrap_err()
    ));
}

#[test]
fn list_goes_by_segments() {
    let disk = Disk::with(&[
        ("/foo/bar/x", "1"),
        ("/foo/bar/y/z", "22"),
        ("/foo/bar_baz/x", "333"),
        ("/top", "4444"),
    ]);
    assert_eq!(disk.list(Some("foo/bar")), ["foo/bar/x", "foo/bar/y/z"]);
    assert_eq!(disk.list(Some("foo")), ["foo/bar/x", "foo/bar/y/z", "foo/bar_baz/x"]);
    let all = ["foo/bar/x", "foo/bar/y/z", "foo/bar_baz/x", "top"];
    assert_eq!(disk.list(None), all);
    assert_eq!(disk.list(Some("")), all);
}

#[test]
fn list_ignores_what_is_no_object_below_the_prefix() {
    let disk = Disk::with(&[("/foo/bar", "1")]);
    assert!(disk.list(Some("foo/bar")).is_empty());
    assert!(disk.list(Some("missing")).is_empty());
    assert!(Disk::new().list(None).is_empty());
}

#[test]
fn list_says_what_get_says() {
    let mut disk = Disk::new();
    disk.put("d/a", PutMode::Create, &["hello"]).unwrap();
    let (got, _) = disk.get("d/a", whole()).unwrap();
    let listed = list_entry(&"/d".to_string(), Ok(disk.status("/d/a"))).unwrap().unwrap();
    assert_eq!(format!("{:?}", listed), format!("{:?}", got.meta));
}

#[test]
fn list_reports_failures() {
    let dir = "/d".to_string();
    assert!(is_broken(&list_entry(&dir, Err(failed("x"))).unwrap().unwrap_err()));
    let status =
        FileStatus { path: "/d//a".to_string(), length: 0, isdir: false, modification_time: 0 };
    match list_entry(&dir, Ok(status)) {
        Some(Err(StoreError::InvalidPath(PathError::EmptySegment { path }))) => {
            assert_eq!(path, "/d//a");
        }
        other => panic!("{:?}", other),
    }
}

#[test]
fn list_with_delimiter_parts_directories_and_objects() {
    let disk = Disk::with(&[
        ("/foo/a", "1"),
        ("/foo/bar/x", "1"),
        ("/foo/bar/y", "1"),
        ("/foo/baz/x/y", "1"),
        ("/foo/z", "22"),
        ("/foobar/q", "1"),
    ]);
    let result = disk.list_with_delimiter(Some("foo")).unwrap();
    assert_eq!(texts(&result.common_prefixes), ["foo/bar", "foo/baz"]);
    assert_eq!(locations(&result.objects), ["foo/a", "foo/z"]);
    assert_eq!(result.objects[1].size, 2);
    let result = disk.list_with_delimiter(None).unwrap();
    assert_eq!(texts(&result.common_prefixes), ["foo", "foobar"]);
    assert!(result.objects.is_empty());
    for prefix in ["missing", "foo/a"] {
        let result = disk.list_with_delimiter(Some(prefix)).unwrap();
        assert!(result.common_prefixes.is_empty() && result.objects.is_empty());
    }
}

#[test]
fn list_with_delimiter_reports_failures() {
    let status = |path: &str, isdir: bool| FileStatus {
        path: path.to_string(),
        length: 0,
        isdir,
        modification_time: 0,
    };
    let mut listing = DelimitedListing::start(Some(&path("d")));
    assert_eq!(listing.directory(), "/d");
    listing.add_entry(Ok(status("/d/x", false))).unwrap();
    assert!(is_broken(&listing.add_entry(Err(failed("x"))).unwrap_err()));
    // A bad directory is reported before a bad file that comes first.
    listing.add_entry(Ok(status("/d/./file", false))).unwrap();
    listing.add_entry(Ok(status("/d//dir", true))).unwrap();
    match listing.finish() {
        Err(StoreError::InvalidPath(PathError::EmptySegment { path })) => {
            assert_eq!(path, "/d//dir");
        }
        other => panic!("{:?}", other),
    }
    let mut listing = DelimitedListing::start(None);
    listing.add_entry(Ok(status("/d/./file", false))).unwrap();
    match listing.finish() {
        Err(StoreError::InvalidPath(PathError::BadSegment { path, .. })) => {
            assert_eq!(path, "/d/./file");
        }
        other => panic!("{:?}", other),
    }
}

#[test]
fn replies_have_to_fit() {
    let ask = Request::GetFileInfo { path: "/a".to_string() };
    assert!(!ask.answered_by(&Reply::Done));
    assert!(ask.answered_by(&Reply::Failed(failed("x"))));
    assert!(!Request::JoinTask.answered_by(&Reply::Failed(failed("x"))));
    assert!(!Request::AbortTask.answered_by(&Reply::Failed(failed("x"))));
    assert!(Request::JoinTask.answered_by(&Reply::TaskEnded(Ok(Ok(())))));
    assert!(Request::Close.answered_by(&Reply::Done));
    assert!(!Request::Close.answered_by(&Reply::End));
    assert!(Request::ReadNext.answered_by(&Reply::End));
}

#[test]
fn reads_follow_copies_moves_and_uploads() {
    let mut disk = Disk::new();
    disk.put("d/a", PutMode::Create, &["hello ", "world"]).unwrap();
    disk.copy("d/a", "b", CopyMode::Create).unwrap();
    assert_eq!(disk.get("b", whole()).unwrap().1, "hello world");
    disk.rename("d/a", "e/c", RenameTargetMode::Create).unwrap();
    assert_eq!(disk.get("e/c", whole()).unwrap().1, "hello world");
    assert_eq!(not_found(disk.get("d/a", whole()).unwrap_err()), "/d/a");
    let mut upload = disk.upload("b").unwrap();
    let (_, task) = disk.write_parts(&[&["by"], &["e"]]);
    disk.complete(&mut upload, task).unwrap();
    assert_eq!(disk.get("b", whole()).unwrap().1, "bye");
}

#[test]
fn temporary_names_tell_files_apart() {
    let names = ["a", "a.tmp", ".a.tmp", "a.tmp.1", ".a.tmp.1", "d/a", "d/.a"];
    let mut seen = Vec::new();
    for name in names {
        let mut tmp = TmpFile::start(&path(name)).unwrap();
        for _ in 0..12 {
            assert!(!seen.contains(&tmp.path()));
            assert_ne!(tmp.path(), tmp.file());
            seen.push(tmp.path());
            tmp.resume(Reply::Failed(FileError::AlreadyExists(String::new())));
        }
    }
}

#[test]
fn listings_agree() {
    let disk = Disk::with(&[("/d/a", "1"), ("/d/b", "22"), ("/d/e/c", "333")]);
    let result = disk.list_with_delimiter(Some("d")).unwrap();
    let all = disk.list(Some("d"));
    assert_eq!(all, ["d/a", "d/b", "d/e/c"]);
    for object in locations(&result.objects) {
        assert!(all.iter().any(|listed| listed == object));
    }
    assert_eq!(result.common_prefixes.len() + result.objects.len(), 3);
}

/// The task of one of several uploads that take turns.
struct Writer {
    upload: HdfsMultipartWriter,
    parts: Vec<Vec<Vec<u8>>>,
    received: usize,
    task: Option<WriterTask>,
    result: Option<Result<(), StoreError>>,
}

impl Writer {
    fn new(disk: &mut Disk, name: &str, prefix: &str) -> Writer {
        let parts = (0..5).map(|part| {
            vec![format!("{}:", prefix).into_bytes(), format!("{:05},", part).into_bytes()]
        });
        Writer {
            upload: disk.upload(name).unwrap(),
            parts: parts.collect(),
            received: 0,
            task: Some(WriterTask::start()),
            result: None,
        }
    }

    fn content(&self) -> String {
        String::from_utf8(self.parts.concat().concat()).unwrap()
    }

    fn step(&mut self, disk: &mut Disk) {
        let task = match self.task.take() {
            Some(task) => task,
            None => return,
        };
        disk.writing = self.upload.tmp_filename().to_string();
        let request = task.request();
        let reply = match request {
            Request::ReceivePart if self.received < self.parts.len() => {
                self.received += 1;
                Reply::Part { chunks: self.parts[self.received - 1].len() }
            }
            Request::ReceivePart => Reply::NoMoreParts,
            _ => disk.call(&request, &self.parts[self.received - 1]),
        };
        assert!(request.answered_by(&reply));
        match task.resume(reply).progress {
            Progress::Pending(next) => self.task = Some(next),
            Progress::Ended(r) => self.result = Some(r),
        }
    }

    fn complete(&mut self, disk: &mut Disk) {
        while self.result.is_none() {
            self.step(disk);
        }
        disk.complete(&mut self.upload, self.result.take().unwrap()).unwrap();
    }
}

#[test]
fn interleaved_uploads_do_not_mix() {
    for order in 0..256u32 {
        let mut disk = Disk::with(&[("/race", "old"), ("/other", "kept")]);
        let mut first = Writer::new(&mut disk, "race", "1");
        let mut second = Writer::new(&mut disk, "race", "2");
        for turn in 0..40 {
            if (order >> (turn % 8)) & 1 == 0 {
                first.step(&mut disk);
            } else {
                second.step(&mut disk);
            }
            assert_eq!(disk.content("/race").unwrap(), "old");
        }
        first.complete(&mut disk);
        assert_eq!(disk.content("/race").unwrap(), first.content());
        second.complete(&mut disk);
        assert_eq!(disk.content("/race").unwrap(), second.content());
        assert_eq!(disk.get("race", whole()).unwrap().1, second.content());
        assert_eq!(disk.names(), ["/other", "/race"]);
        assert_eq!(disk.content("/other").unwrap(), "kept");
    }
}

#[test]
fn upload_start_adds_one_empty_file() {
    let mut disk = Disk::with(&[("/d/.a.tmp.1", "other"), ("/d/a", "old")]);
    disk.upload("d/a").unwrap();
    assert_eq!(disk.names(), ["/d/.a.tmp.1", "/d/.a.tmp.2", "/d/a"]);
    assert_eq!(disk.content("/d/.a.tmp.1").unwrap(), "other");
    assert_eq!(disk.content("/d/.a.tmp.2").unwrap(), "");
    assert_eq!(disk.content("/d/a").unwrap(), "old");
    let mut disk = Disk::with(&[("/d/a", "old")]);
    disk.fault = Some(0);
    assert!(is_broken(&disk.upload("d/a").unwrap_err()));
    assert_eq!(disk.names(), ["/d/a"]);
}

#[test]
fn failed_copy_touches_only_its_place() {
    for fault in 0..9 {
        let mut disk = Disk::with(&[("/a", "01234"), ("/b", "old"), ("/c", "kept")]);
        disk.fault = Some(fault);
        assert!(is_broken(&disk.copy("a", "b", CopyMode::Overwrite).unwrap_err()));
        assert_eq!(disk.content("/a").unwrap(), "01234");
        assert_eq!(disk.content("/c").unwrap(), "kept");
        assert_eq!(disk.names(), ["/a", "/b", "/c"]);
    }
}

#[test]
fn put_gives_its_etag_after_a_failed_look() {
    let mut disk = Disk::new();
    disk.fault = Some(0);
    let put = disk.put("a", PutMode::Create, &["x", "yz"]).unwrap();
    let (got, text) = disk.get("a", whole()).unwrap();
    assert_eq!(text, "xyz");
    assert_eq!(got.meta.e_tag, put.e_tag);
}

#[test]
fn listing_takes_the_entries_that_count_in_order() {
    let status = |path: &str, isdir: bool| FileStatus {
        path: path.to_string(),
        length: 0,
        isdir,
        modification_time: 0,
    };
    let entries = || {
        vec![
            Ok(status("/d/z", false)),
            Ok(status("/d", true)),
            Err(FileError::FileNotFound("/d".to_string())),
            Ok(status("/d/y", true)),
            Ok(status("/d/a", false)),
        ]
    };
    let mut listing = DelimitedListing::start(Some(&path("d")));
    for entry in entries() {
        listing.add_entry(entry).unwrap();
    }
    let result = listing.finish().unwrap();
    assert_eq!(texts(&result.common_prefixes), ["d/y"]);
    assert_eq!(locations(&result.objects), ["d/z", "d/a"]);
    let dir = "/d".to_string();
    let listed = entries().into_iter().filter_map(|entry| list_entry(&dir, entry));
    let metas: Vec<ObjectMeta> = listed.map(|meta| meta.unwrap()).collect();
    assert_eq!(locations(&metas), ["d/z", "d/a"]);
}

#[test]
fn deletions_are_answered_item_by_item() {
    let mut disk = Disk::with(&[("/a", "1"), ("/b", "2"), ("/c", "3"), ("/d", "4")]);
    disk.fault = Some(1);
    let given = object_store::Error::NotImplemented {
        operation: "x".to_string(),
        implementer: "y".to_string(),
    };
    let items = vec![
        Ok(path("a")),
        Err(StoreError::Given(given)),
        Ok(path("b")),
        Ok(path("missing")),
        Ok(path("c")),
    ];
    let answers: Vec<Result<Path, StoreError>> =
        items.into_iter().map(|item| disk.delete_item(item)).collect();
    assert_eq!(answers.len(), 5);
    assert_eq!(answers[0].as_ref().unwrap().as_str(), "a");
    match &answers[1] {
        Err(StoreError::Given(object_store::Error::NotImplemented { operation, .. })) => {
            assert_eq!(operation, "x");
        }
        other => panic!("{:?}", other),
    }
    assert!(is_broken(answers[2].as_ref().unwrap_err()));
    assert_eq!(answers[3].as_ref().unwrap().as_str(), "missing");
    assert_eq!(answers[4].as_ref().unwrap().as_str(), "c");
    assert_eq!(disk.names(), ["/b", "/d"]);
    let deleted = ["/a", "/b", "/missing", "/c"];
    let calls: Vec<String> = deleted
        .iter()
        .map(|name| format!("Delete {{ path: {:?}, recursive: false }}", name))
        .collect();
    assert_eq!(disk.calls, calls);
}

#[test]
fn listings_follow_puts_and_deletions() {
    let mut disk = Disk::with(&[("/d/a", "1"), ("/db", "2")]);
    assert_eq!(disk.list(Some("d")), ["d/a"]);
    let put = disk.put("d/e/c", PutMode::Create, &["x"]).unwrap();
    assert_eq!(disk.list(Some("d")), ["d/a", "d/e/c"]);
    assert_eq!(disk.list(Some("d/e")), ["d/e/c"]);
    assert_eq!(disk.list(None), ["d/a", "d/e/c", "db"]);
    let result = disk.list_with_delimiter(Some("d")).unwrap();
    assert_eq!(texts(&result.common_prefixes), ["d/e"]);
    assert_eq!(locations(&result.objects), ["d/a"]);
    let result = disk.list_with_delimiter(Some("d/e")).unwrap();
    assert_eq!(result.objects[0].e_tag, put.e_tag);
    disk.delete("d/a").unwrap();
    assert_eq!(disk.list(Some("d")), ["d/e/c"]);
    disk.delete("d/e/c").unwrap();
    assert!(disk.list(Some("d")).is_empty());
    assert_eq!(disk.list(None), ["db"]);
}
