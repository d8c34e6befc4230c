//! A file system to run the operations of the store against.
//!
//! The laws about whole operations speak of what they do to such a disk: which
//! files there are, and what they hold.

use crate::error::FileErrorView;
use crate::meta::FileStatusView;
use crate::request::{ReplyView, RequestView};
use vstd::prelude::*;

verus! {

/// A file.
pub struct File {
    pub content: Seq<u8>,
    pub modified: nat,
    /// No more is written to it. The bytes of a file that is not closed may
    /// never reach the disk.
    pub closed: bool,
}

/// A disk: its files by their paths, and the files that are open.
pub struct Disk {
    pub files: Map<Seq<char>, File>,
    /// The time that a new file is given.
    pub now: nat,
    /// The file that is open for writing.
    pub writing: Seq<char>,
    /// What the file that is open for reading holds.
    pub opened: Seq<u8>,
    /// What is left of the stream that is being read.
    pub stream: Seq<u8>,
    /// The chunk that was read last.
    pub read: Seq<u8>,
    /// The largest chunk that a stream gives.
    pub chunk_size: nat,
}

/// All bytes of a sequence of chunks.
pub open spec fn joined(chunks: Seq<Seq<u8>>) -> Seq<u8>
    decreases chunks.len(),
{
    if chunks.len() == 0 {
        Seq::empty()
    } else {
        joined(chunks.drop_last()) + chunks.last()
    }
}

impl Disk {
    pub open spec fn has(self, path: Seq<char>) -> bool {
        self.files.contains_key(path)
    }

    /// What the disk says of a file.
    pub open spec fn status(self, path: Seq<char>) -> FileStatusView {
        FileStatusView {
            path,
            length: self.files[path].content.len(),
            isdir: false,
            modification_time: self.files[path].modified,
        }
    }

    /// The disk with `bytes` behind what the file that is open for writing
    /// holds. What is written to a closed file is lost.
    pub open spec fn append(self, bytes: Seq<u8>) -> Disk {
        let file = self.files[self.writing];
        if file.closed {
            self
        } else {
            Disk {
                files: self.files.insert(
                    self.writing,
                    File { content: file.content + bytes, ..file },
                ),
                ..self
            }
        }
    }

    /// The disk with the file that was open for writing closed.
    pub open spec fn close(self) -> Disk {
        if self.has(self.writing) {
            let file = File { closed: true, ..self.files[self.writing] };
            Disk { files: self.files.insert(self.writing, file), ..self }
        } else {
            self
        }
    }

    /// The files of the disk without `path` and all that lies below it.
    pub open spec fn without_tree(self, path: Seq<char>) -> Map<Seq<char>, File> {
        self.files.remove_keys(
            Set::new(|p: Seq<char>| p == path || path.push('/').is_prefix_of(p)),
        )
    }

    /// Answers a call. `payload` is what an operation that writes has to write.
    pub open spec fn call(self, request: RequestView, payload: Seq<Seq<u8>>) -> (Disk, ReplyView) {
        match request {
            RequestView::GetFileInfo { path } => if self.has(path) {
                (self, ReplyView::Status(self.status(path)))
            } else {
                (self, ReplyView::Failed(FileErrorView::FileNotFound(path)))
            },
            RequestView::Create { path, overwrite } => if self.has(path) && !overwrite {
                (self, ReplyView::Failed(FileErrorView::AlreadyExists(path)))
            } else {
                let file = File { content: Seq::empty(), modified: self.now, closed: false };
                let files = self.files.insert(path, file);
                (Disk { files, writing: path, ..self }, ReplyView::Done)
            },
            RequestView::Write { chunk } => (self.append(payload[chunk as int]), ReplyView::Done),
            RequestView::WriteRead => (self.append(self.read), ReplyView::Done),
            RequestView::Rename { from, to, overwrite } => if !self.has(from) {
                (self, ReplyView::Failed(FileErrorView::FileNotFound(from)))
            } else if self.has(to) && !overwrite {
                (self, ReplyView::Failed(FileErrorView::AlreadyExists(to)))
            } else {
                let files = self.files.remove(from).insert(to, self.files[from]);
                (Disk { files, ..self }, ReplyView::Done)
            },
            RequestView::Delete { path, recursive } => {
                let files = if recursive {
                    self.without_tree(path)
                } else {
                    self.files.remove(path)
                };
                (Disk { files, ..self }, ReplyView::Done)
            },
            RequestView::Open { path } => if self.has(path) {
                let opened = self.files[path].content;
                (Disk { opened, ..self }, ReplyView::Opened { length: opened.len() })
            } else {
                (self, ReplyView::Failed(FileErrorView::FileNotFound(path)))
            },
            RequestView::Stream { offset, length } => {
                let stream = self.opened.subrange(offset as int, (offset + length) as int);
                (Disk { stream, ..self }, ReplyView::Done)
            },
            RequestView::ReadNext => if self.stream.len() == 0 {
                (self, ReplyView::End)
            } else {
                let size = if self.chunk_size < self.stream.len() {
                    self.chunk_size as int
                } else {
                    self.stream.len() as int
                };
                let (read, stream) = (self.stream.take(size), self.stream.skip(size));
                (Disk { read, stream, ..self }, ReplyView::Chunk)
            },
            RequestView::Close => (self.close(), ReplyView::Done),
            RequestView::MakeDirs { .. } => (self, ReplyView::Done),
            RequestView::ReceivePart | RequestView::JoinTask | RequestView::AbortTask => {
                arbitrary()
            },
        }
    }

    /// Answers a call, or fails it with the given error and stays as it is.
    pub open spec fn call_or_fail(
        self,
        request: RequestView,
        payload: Seq<Seq<u8>>,
        fault: Option<FileErrorView>,
    ) -> (Disk, ReplyView) {
        match fault {
            Some(e) => (self, ReplyView::Failed(e)),
            None => self.call(request, payload),
        }
    }
}

} // verus!
