//! The conversation between an operation of the store and the file system.
//!
//! An operation is a state machine: it requests one call at a time, is told how
//! the call went, and ends with a result.

use crate::error::{FileError, FileErrorView, StoreError, StoreErrorView};
use crate::meta::{FileStatus, FileStatusView};
use vstd::prelude::*;

verus! {

/// A call that an operation waits for.
#[derive(Debug)]
pub enum Request {
    /// Asks what is at a path.
    GetFileInfo { path: String },
    /// Creates a file, with its missing parents, and opens it for writing.
    Create { path: String, overwrite: bool },
    /// Writes a chunk of the payload, counted from zero, to the created file.
    Write { chunk: usize },
    /// Closes the created file.
    Close,
    Rename { from: String, to: String, overwrite: bool },
    Delete { path: String, recursive: bool },
    MakeDirs { path: String, permission: u32, create_parent: bool },
    /// Opens a file for reading.
    Open { path: String },
    /// Starts to read `length` bytes of the open file, `offset` bytes into it.
    Stream { offset: usize, length: usize },
    /// Reads the next chunk of the stream.
    ReadNext,
    /// Writes the chunk that was read last to the created file.
    WriteRead,
    /// Waits for the next part of an upload.
    ReceivePart,
    /// Waits for the task that writes an upload to end.
    JoinTask,
    /// Stops the task that writes an upload.
    AbortTask,
}

pub enum RequestView {
    GetFileInfo { path: Seq<char> },
    Create { path: Seq<char>, overwrite: bool },
    Write { chunk: nat },
    Close,
    Rename { from: Seq<char>, to: Seq<char>, overwrite: bool },
    Delete { path: Seq<char>, recursive: bool },
    MakeDirs { path: Seq<char>, permission: nat, create_parent: bool },
    Open { path: Seq<char> },
    Stream { offset: nat, length: nat },
    ReadNext,
    WriteRead,
    ReceivePart,
    JoinTask,
    AbortTask,
}

impl View for Request {
    type V = RequestView;

    open spec fn view(&self) -> RequestView {
        match self {
            Request::GetFileInfo { path } => RequestView::GetFileInfo { path: path@ },
            Request::Create { path, overwrite } => {
                RequestView::Create { path: path@, overwrite: *overwrite }
            },
            Request::Write { chunk } => RequestView::Write { chunk: *chunk as nat },
            Request::Close => RequestView::Close,
            Request::Rename { from, to, overwrite } => {
                RequestView::Rename { from: from@, to: to@, overwrite: *overwrite }
            },
            Request::Delete { path, recursive } => {
                RequestView::Delete { path: path@, recursive: *recursive }
            },
            Request::MakeDirs { path, permission, create_parent } => {
                RequestView::MakeDirs {
                    path: path@,
                    permission: *permission as nat,
                    create_parent: *create_parent,
                }
            },
            Request::Open { path } => RequestView::Open { path: path@ },
            Request::Stream { offset, length } => {
                RequestView::Stream { offset: *offset as nat, length: *length as nat }
            },
            Request::ReadNext => RequestView::ReadNext,
            Request::WriteRead => RequestView::WriteRead,
            Request::ReceivePart => RequestView::ReceivePart,
            Request::JoinTask => RequestView::JoinTask,
            Request::AbortTask => RequestView::AbortTask,
        }
    }
}

/// How a call went.
#[derive(Debug)]
pub enum Reply {
    /// What is at the path that was asked for.
    Status(FileStatus),
    /// The file is open for reading; it has `length` bytes.
    Opened { length: usize },
    /// A chunk was read.
    Chunk,
    /// The stream has no more chunks.
    End,
    /// A part of an upload came in; it has `chunks` chunks.
    Part { chunks: usize },
    /// No more parts of the upload will come.
    NoMoreParts,
    /// The task that writes an upload ended, or could not be joined.
    TaskEnded(Result<Result<(), StoreError>, tokio::task::JoinError>),
    /// The call succeeded.
    Done,
    /// The call failed.
    Failed(FileError),
}

pub enum ReplyView {
    Status(FileStatusView),
    Opened { length: nat },
    Chunk,
    End,
    Part { chunks: nat },
    NoMoreParts,
    TaskEnded(Result<Result<(), StoreErrorView>, tokio::task::JoinError>),
    Done,
    Failed(FileErrorView),
}

impl View for Reply {
    type V = ReplyView;

    open spec fn view(&self) -> ReplyView {
        match self {
            Reply::Status(status) => ReplyView::Status(status@),
            Reply::Opened { length } => ReplyView::Opened { length: *length as nat },
            Reply::Chunk => ReplyView::Chunk,
            Reply::End => ReplyView::End,
            Reply::Part { chunks } => ReplyView::Part { chunks: *chunks as nat },
            Reply::NoMoreParts => ReplyView::NoMoreParts,
            Reply::TaskEnded(Ok(Ok(()))) => ReplyView::TaskEnded(Ok(Ok(()))),
            Reply::TaskEnded(Ok(Err(e))) => ReplyView::TaskEnded(Ok(Err(e@))),
            Reply::TaskEnded(Err(e)) => ReplyView::TaskEnded(Err(*e)),
            Reply::Done => ReplyView::Done,
            Reply::Failed(e) => ReplyView::Failed(e@),
        }
    }
}

impl RequestView {
    /// The calls that end with nothing but success or failure.
    pub open spec fn is_plain(self) -> bool {
        match self {
            RequestView::GetFileInfo { .. } => false,
            RequestView::Open { .. } => false,
            RequestView::ReadNext => false,
            RequestView::ReceivePart => false,
            RequestView::JoinTask => false,
            _ => true,
        }
    }

    /// `reply` is an answer to this call: a file system call may fail, and each
    /// call has its own way to succeed.
    pub open spec fn answered_by(self, reply: ReplyView) -> bool {
        match reply {
            ReplyView::Failed(_) => {
                !(self is ReceivePart || self is JoinTask || self is AbortTask)
            },
            ReplyView::Status(_) => self is GetFileInfo,
            ReplyView::Opened { .. } => self is Open,
            ReplyView::Chunk | ReplyView::End => self is ReadNext,
            ReplyView::Part { .. } | ReplyView::NoMoreParts => self is ReceivePart,
            ReplyView::TaskEnded(_) => self is JoinTask,
            ReplyView::Done => self.is_plain(),
        }
    }
}

/// Where an operation stands.
#[derive(Debug)]
pub enum Progress<Op, T> {
    /// It waits for the answer to its request.
    Pending(Op),
    /// It has ended.
    Ended(Result<T, StoreError>),
}

pub enum ProgressView<Op, T> {
    Pending(Op),
    Ended(Result<T, StoreErrorView>),
}

impl<Op: View, T: View> View for Progress<Op, T> {
    type V = ProgressView<Op::V, T::V>;

    open spec fn view(&self) -> ProgressView<Op::V, T::V> {
        match self {
            Progress::Pending(op) => ProgressView::Pending(op@),
            Progress::Ended(Ok(value)) => ProgressView::Ended(Ok(value@)),
            Progress::Ended(Err(e)) => ProgressView::Ended(Err(e@)),
        }
    }
}

impl Request {
    /// Whether `reply` is an answer to this call.
    pub fn answered_by(&self, reply: &Reply) -> (r: bool)
        ensures
            r == self@.answered_by(reply@),
    {
        match (reply, self) {
            (Reply::Failed(_), Request::ReceivePart) => false,
            (Reply::Failed(_), Request::JoinTask) => false,
            (Reply::Failed(_), Request::AbortTask) => false,
            (Reply::Failed(_), _) => true,
            (Reply::Status(_), Request::GetFileInfo { .. }) => true,
            (Reply::Opened { .. }, Request::Open { .. }) => true,
            (Reply::Chunk, Request::ReadNext) => true,
            (Reply::End, Request::ReadNext) => true,
            (Reply::Part { .. }, Request::ReceivePart) => true,
            (Reply::NoMoreParts, Request::ReceivePart) => true,
            (Reply::TaskEnded(_), Request::JoinTask) => true,
            (Reply::Done, Request::GetFileInfo { .. }) => false,
            (Reply::Done, Request::Open { .. }) => false,
            (Reply::Done, Request::ReadNext) => false,
            (Reply::Done, Request::ReceivePart) => false,
            (Reply::Done, Request::JoinTask) => false,
            (Reply::Done, _) => true,
            _ => false,
        }
    }
}

/// Every call can be answered: a call of the file system may fail with any error,
/// and each call has its own way to succeed. What stands for no call of the file
/// system does not fail.
pub proof fn law_every_call_has_its_answers(
    request: RequestView,
    e: FileErrorView,
    status: FileStatusView,
    number: nat,
    task: Result<Result<(), StoreErrorView>, tokio::task::JoinError>,
)
    ensures
        match request {
            RequestView::GetFileInfo { .. } => {
                request.answered_by(ReplyView::Failed(e)) && request.answered_by(
                    ReplyView::Status(status),
                )
            },
            RequestView::Open { .. } => {
                request.answered_by(ReplyView::Failed(e)) && request.answered_by(
                    ReplyView::Opened { length: number },
                )
            },
            RequestView::ReadNext => {
                request.answered_by(ReplyView::Failed(e)) && request.answered_by(ReplyView::Chunk)
                    && request.answered_by(ReplyView::End)
            },
            RequestView::ReceivePart => {
                request.answered_by(ReplyView::Part { chunks: number }) && request.answered_by(
                    ReplyView::NoMoreParts,
                )
            },
            RequestView::JoinTask => request.answered_by(ReplyView::TaskEnded(task)),
            RequestView::AbortTask => request.answered_by(ReplyView::Done),
            _ => {
                request.answered_by(ReplyView::Failed(e)) && request.answered_by(ReplyView::Done)
            },
        },
{
}

} // verus!
