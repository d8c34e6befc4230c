//! What the values that go in and out of the store stand for: nothing that they
//! hold is lost or changed on the way into the laws.

use crate::conditions::GetOptions;
use crate::error::{
    ErrorSource, ErrorSourceView, FileError, FileErrorView, StoreError, StoreErrorView,
};
use crate::get::GetResult;
use crate::list::ListResult;
use crate::meta::{FileStatus, ObjectMeta};
use crate::multipart::WriterStep;
use crate::put::PutResult;
use crate::range::RangeError;
use crate::request::{Progress, ProgressView, Reply, ReplyView, Request, RequestView};
use vstd::prelude::*;

verus! {

/// `text` is the text of `s`, or both are missing.
pub open spec fn same_text(s: Option<String>, text: Option<Seq<char>>) -> bool {
    match (s, text) {
        (Some(s), Some(text)) => s@ == text,
        (None, None) => true,
        _ => false,
    }
}

/// A request for an object stands for its own conditions, range and kind.
pub proof fn law_options_stand_for_themselves(options: GetOptions)
    ensures
        same_text(options.if_match, options@.if_match),
        same_text(options.if_none_match, options@.if_none_match),
        match (options.if_modified_since, options@.if_modified_since) {
            (Some(time), Some(same)) => time@ == same,
            (None, None) => true,
            _ => false,
        },
        match (options.if_unmodified_since, options@.if_unmodified_since) {
            (Some(time), Some(same)) => time@ == same,
            (None, None) => true,
            _ => false,
        },
        options@.range == options.range,
        options@.head == options.head,
{
}

/// A status stands for its own path, length, kind and time.
pub proof fn law_status_stands_for_itself(status: FileStatus)
    ensures
        status@.path == status.path@,
        status@.length == status.length,
        status@.isdir == status.isdir,
        status@.modification_time == status.modification_time,
{
}

/// What the store says of an object stands for its own path, time, size and tags.
pub proof fn law_meta_stands_for_itself(meta: ObjectMeta)
    ensures
        meta@.location == meta.location@,
        meta@.last_modified == meta.last_modified@,
        meta@.size == meta.size,
        same_text(meta.e_tag, meta@.e_tag),
        same_text(meta.version, meta@.version),
{
}

/// The answers of the store stand for their own parts.
pub proof fn law_answers_stand_for_themselves(
    got: GetResult,
    put: PutResult,
    listed: ListResult,
    step: WriterStep,
)
    ensures
        got@.meta == got.meta@,
        got@.range == got.range,
        got@.content == got.content,
        same_text(put.e_tag, put@.e_tag),
        same_text(put.version, put@.version),
        listed@.common_prefixes.len() == listed.common_prefixes@.len(),
        forall|i: int|
            0 <= i < listed.common_prefixes@.len() ==> #[trigger] listed@.common_prefixes[i]
                == listed.common_prefixes@[i]@,
        listed@.objects.len() == listed.objects@.len(),
        forall|i: int|
            0 <= i < listed.objects@.len() ==> #[trigger] listed@.objects[i]
                == listed.objects@[i]@,
        match (step.answer, step@.answer) {
            (None, None) => true,
            (Some(Ok(())), Some(Ok(()))) => true,
            (Some(Err(e)), Some(Err(same))) => e@ == same,
            _ => false,
        },
        step@.progress == step.progress@,
{
}

/// Where an operation stands is what it says: pending with the operation itself,
/// or ended with the result itself.
pub proof fn law_progress_stands_for_itself<Op: View, T: View>(progress: Progress<Op, T>)
    ensures
        match (progress, progress@) {
            (Progress::Pending(op), ProgressView::Pending(same)) => op@ == same,
            (Progress::Ended(Ok(value)), ProgressView::Ended(Ok(same))) => value@ == same,
            (Progress::Ended(Err(e)), ProgressView::Ended(Err(same))) => e@ == same,
            _ => false,
        },
{
}

/// A call stands for itself: it has the same kind, paths, numbers and flags.
pub proof fn law_request_stands_for_itself(request: Request)
    ensures
        match (request, request@) {
            (Request::GetFileInfo { path }, RequestView::GetFileInfo { path: same }) => {
                path@ == same
            },
            (
                Request::Create { path, overwrite },
                RequestView::Create { path: same, overwrite: flag },
            ) => path@ == same && overwrite == flag,
            (Request::Write { chunk }, RequestView::Write { chunk: same }) => chunk == same,
            (Request::Close, RequestView::Close) => true,
            (
                Request::Rename { from, to, overwrite },
                RequestView::Rename { from: same_from, to: same_to, overwrite: flag },
            ) => from@ == same_from && to@ == same_to && overwrite == flag,
            (
                Request::Delete { path, recursive },
                RequestView::Delete { path: same, recursive: flag },
            ) => path@ == same && recursive == flag,
            (
                Request::MakeDirs { path, permission, create_parent },
                RequestView::MakeDirs { path: same, permission: number, create_parent: flag },
            ) => path@ == same && permission == number && create_parent == flag,
            (Request::Open { path }, RequestView::Open { path: same }) => path@ == same,
            (
                Request::Stream { offset, length },
                RequestView::Stream { offset: same_offset, length: same_length },
            ) => offset == same_offset && length == same_length,
            (Request::ReadNext, RequestView::ReadNext) => true,
            (Request::WriteRead, RequestView::WriteRead) => true,
            (Request::ReceivePart, RequestView::ReceivePart) => true,
            (Request::JoinTask, RequestView::JoinTask) => true,
            (Request::AbortTask, RequestView::AbortTask) => true,
            _ => false,
        },
{
}

/// The answer to a call stands for itself.
pub proof fn law_reply_stands_for_itself(reply: Reply)
    ensures
        match (reply, reply@) {
            (Reply::Status(status), ReplyView::Status(same)) => status@ == same,
            (Reply::Opened { length }, ReplyView::Opened { length: same }) => length == same,
            (Reply::Chunk, ReplyView::Chunk) => true,
            (Reply::End, ReplyView::End) => true,
            (Reply::Part { chunks }, ReplyView::Part { chunks: same }) => chunks == same,
            (Reply::NoMoreParts, ReplyView::NoMoreParts) => true,
            (Reply::TaskEnded(Ok(Ok(()))), ReplyView::TaskEnded(Ok(Ok(())))) => true,
            (Reply::TaskEnded(Ok(Err(e))), ReplyView::TaskEnded(Ok(Err(same)))) => e@ == same,
            (Reply::TaskEnded(Err(e)), ReplyView::TaskEnded(Err(same))) => e == same,
            (Reply::Done, ReplyView::Done) => true,
            (Reply::Failed(e), ReplyView::Failed(same)) => e@ == same,
            _ => false,
        },
{
}

/// The failure of a call stands for itself.
pub proof fn law_failure_stands_for_itself(e: FileError)
    ensures
        match (e, e@) {
            (FileError::FileNotFound(path), FileErrorView::FileNotFound(same)) => path@ == same,
            (FileError::AlreadyExists(path), FileErrorView::AlreadyExists(same)) => path@ == same,
            (FileError::InvalidPath(reason), FileErrorView::InvalidPath(same)) => reason@ == same,
            (FileError::Other(error), FileErrorView::Other(same)) => error == same,
            _ => false,
        },
{
}

/// What lies behind an error stands for itself.
pub proof fn law_source_stands_for_itself(source: ErrorSource, range: RangeError)
    ensures
        match (source, source@) {
            (ErrorSource::Hdfs(e), ErrorSourceView::Hdfs(same)) => e@ == same,
            (ErrorSource::Range(e), ErrorSourceView::Range(same)) => e@ == same,
            (ErrorSource::Message(text), ErrorSourceView::Message(same)) => text@ == same,
            _ => false,
        },
        range@.range == range.range,
        range@.length == range.length,
        range@.text == range.text@,
{
}

/// An error of the store stands for itself.
pub proof fn law_error_stands_for_itself(e: StoreError)
    ensures
        match (e, e@) {
            (
                StoreError::Generic { store, source },
                StoreErrorView::Generic { store: same, source: behind },
            ) => store@ == same && source@ == behind,
            (
                StoreError::NotFound { path, source },
                StoreErrorView::NotFound { path: same, source: behind },
            ) => path@ == same && source@ == behind,
            (
                StoreError::AlreadyExists { path, source },
                StoreErrorView::AlreadyExists { path: same, source: behind },
            ) => path@ == same && source@ == behind,
            (StoreError::InvalidPath(source), StoreErrorView::InvalidPath(same)) => {
                source@ == same
            },
            (
                StoreError::Precondition { path, source },
                StoreErrorView::Precondition { path: same, source: behind },
            ) => path@ == same && source@ == behind,
            (
                StoreError::NotModified { path, source },
                StoreErrorView::NotModified { path: same, source: behind },
            ) => path@ == same && source@ == behind,
            (
                StoreError::NotImplemented { operation, implementer },
                StoreErrorView::NotImplemented { operation: same, implementer: who },
            ) => operation@ == same && implementer@ == who,
            (StoreError::JoinError(error), StoreErrorView::JoinError(same)) => error == same,
            (StoreError::Given(error), StoreErrorView::Given(same)) => error == same,
            _ => false,
        },
{
}

} // verus!
