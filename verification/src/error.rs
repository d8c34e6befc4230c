//! The errors of the file system client, those of the store, and the way from
//! the ones to the others.

use crate::path::{PathError, PathErrorView};
use crate::range::{RangeError, RangeErrorView};
use vstd::prelude::*;

verus! {

/// The error of the file system client.
#[verifier::external_type_specification]
#[verifier::external_body]
pub struct ExClientError(hdfs_native::HdfsError);

/// The error of a task that could not be joined.
#[verifier::external_type_specification]
#[verifier::external_body]
pub struct ExJoinError(tokio::task::JoinError);

/// An error of `object_store`.
#[verifier::external_type_specification]
#[verifier::external_body]
pub struct ExObjectStoreError(object_store::Error);

/// What the store has to know of a failed file system call.
#[derive(Debug)]
pub enum FileError {
    /// No file is at the path.
    FileNotFound(String),
    /// A file is at the path already.
    AlreadyExists(String),
    /// The path cannot name a file; the text says why.
    InvalidPath(String),
    /// Any other failure of the client.
    Other(hdfs_native::HdfsError),
}

pub enum FileErrorView {
    FileNotFound(Seq<char>),
    AlreadyExists(Seq<char>),
    InvalidPath(Seq<char>),
    Other(hdfs_native::HdfsError),
}

impl View for FileError {
    type V = FileErrorView;

    open spec fn view(&self) -> FileErrorView {
        match self {
            FileError::FileNotFound(path) => FileErrorView::FileNotFound(path@),
            FileError::AlreadyExists(path) => FileErrorView::AlreadyExists(path@),
            FileError::InvalidPath(reason) => FileErrorView::InvalidPath(reason@),
            FileError::Other(e) => FileErrorView::Other(*e),
        }
    }
}

/// What lies behind an error of the store.
#[derive(Debug)]
pub enum ErrorSource {
    Hdfs(FileError),
    Range(RangeError),
    Message(String),
}

pub enum ErrorSourceView {
    Hdfs(FileErrorView),
    Range(RangeErrorView),
    Message(Seq<char>),
}

impl View for ErrorSource {
    type V = ErrorSourceView;

    open spec fn view(&self) -> ErrorSourceView {
        match self {
            ErrorSource::Hdfs(e) => ErrorSourceView::Hdfs(e@),
            ErrorSource::Range(e) => ErrorSourceView::Range(e@),
            ErrorSource::Message(text) => ErrorSourceView::Message(text@),
        }
    }
}

/// An error of the store.
#[derive(Debug)]
pub enum StoreError {
    Generic { store: &'static str, source: ErrorSource },
    NotFound { path: String, source: ErrorSource },
    AlreadyExists { path: String, source: ErrorSource },
    InvalidPath(PathError),
    Precondition { path: String, source: ErrorSource },
    NotModified { path: String, source: ErrorSource },
    NotImplemented { operation: String, implementer: String },
    JoinError(tokio::task::JoinError),
    /// An error that was handed to the store in the place of a value.
    Given(object_store::Error),
}

pub enum StoreErrorView {
    Generic { store: Seq<char>, source: ErrorSourceView },
    NotFound { path: Seq<char>, source: ErrorSourceView },
    AlreadyExists { path: Seq<char>, source: ErrorSourceView },
    InvalidPath(PathErrorView),
    Precondition { path: Seq<char>, source: ErrorSourceView },
    NotModified { path: Seq<char>, source: ErrorSourceView },
    NotImplemented { operation: Seq<char>, implementer: Seq<char> },
    JoinError(tokio::task::JoinError),
    Given(object_store::Error),
}

impl View for StoreError {
    type V = StoreErrorView;

    open spec fn view(&self) -> StoreErrorView {
        match self {
            StoreError::Generic { store, source } => {
                StoreErrorView::Generic { store: store@, source: source@ }
            },
            StoreError::NotFound { path, source } => {
                StoreErrorView::NotFound { path: path@, source: source@ }
            },
            StoreError::AlreadyExists { path, source } => {
                StoreErrorView::AlreadyExists { path: path@, source: source@ }
            },
            StoreError::InvalidPath(source) => StoreErrorView::InvalidPath(source@),
            StoreError::Precondition { path, source } => {
                StoreErrorView::Precondition { path: path@, source: source@ }
            },
            StoreError::NotModified { path, source } => {
                StoreErrorView::NotModified { path: path@, source: source@ }
            },
            StoreError::NotImplemented { operation, implementer } => {
                StoreErrorView::NotImplemented {
                    operation: operation@,
                    implementer: implementer@,
                }
            },
            StoreError::JoinError(source) => StoreErrorView::JoinError(*source),
            StoreError::Given(e) => StoreErrorView::Given(*e),
        }
    }
}

/// The error of the store for what goes wrong in the store itself.
pub open spec fn generic_from(source: ErrorSourceView) -> StoreErrorView {
    StoreErrorView::Generic { store: "HFDS"@, source }
}

/// The error of the store that carries nothing but a message.
pub open spec fn generic(message: Seq<char>) -> StoreErrorView {
    generic_from(ErrorSourceView::Message(message))
}

/// The error of the store for a failed file system call: a missing file and a
/// file in the way keep their path, anything else is generic. The error of the
/// call is always the source.
pub open spec fn object_store_err(e: FileErrorView) -> StoreErrorView {
    match e {
        FileErrorView::FileNotFound(path) => {
            StoreErrorView::NotFound { path, source: ErrorSourceView::Hdfs(e) }
        },
        FileErrorView::AlreadyExists(path) => {
            StoreErrorView::AlreadyExists { path, source: ErrorSourceView::Hdfs(e) }
        },
        _ => StoreErrorView::Generic {
            store: "HdfsObjectStore"@,
            source: ErrorSourceView::Hdfs(e),
        },
    }
}

/// The result of a file system call as a result of the store.
pub open spec fn object_store_result<T>(
    res: Result<T, FileError>,
    r: Result<T, StoreError>,
) -> bool {
    match res {
        Ok(value) => r == Ok::<T, StoreError>(value),
        Err(e) => r matches Err(error) && error@ == object_store_err(e@),
    }
}

/// What the store has to know of an error of the client.
pub uninterp spec fn told_apart(e: hdfs_native::HdfsError) -> FileErrorView;

/// Tells the variants of `hdfs_native::HdfsError` apart.
///
/// Claimed of it: the outcome depends on the error alone, and an error that is
/// handed on whole is the error that was given. Which variant it was is left
/// unsaid: the client's error is opaque to proofs.
#[verifier::external_body]
fn classify(e: hdfs_native::HdfsError) -> (r: FileError)
    ensures
        r@ == told_apart(e),
        r matches FileError::Other(same) ==> same == e,
{
    match e {
        hdfs_native::HdfsError::FileNotFound(path) => FileError::FileNotFound(path),
        hdfs_native::HdfsError::AlreadyExists(path) => FileError::AlreadyExists(path),
        hdfs_native::HdfsError::InvalidPath(reason) => FileError::InvalidPath(reason),
        other => FileError::Other(other),
    }
}

/// The result of a call of the client, with its error told apart.
pub fn from_client<T>(res: Result<T, hdfs_native::HdfsError>) -> (r: Result<T, FileError>)
    ensures
        match res {
            Ok(value) => r == Ok::<T, FileError>(value),
            Err(e) => {
                &&& r matches Err(told)
                &&& told@ == told_apart(e)
                &&& told matches FileError::Other(same) ==> same == e
            },
        },
{
    match res {
        Ok(value) => Ok(value),
        Err(e) => Err(classify(e)),
    }
}

/// The error for what goes wrong in the store itself.
pub fn generic_error(source: ErrorSource) -> (e: StoreError)
    ensures
        e@ == generic_from(source@),
{
    StoreError::Generic { store: "HFDS", source }
}

/// An error that carries nothing but a message.
pub fn generic_message(message: &str) -> (e: StoreError)
    ensures
        e@ == generic(message@),
{
    generic_error(ErrorSource::Message(message.to_owned()))
}

/// Turns the error of a file system call into an error of the store.
pub fn to_object_store_err<T>(res: Result<T, FileError>) -> (r: Result<T, StoreError>)
    ensures
        object_store_result(res, r),
{
    match res {
        Ok(value) => Ok(value),
        Err(e) => Err(store_error(e)),
    }
}

/// The error of the store for a failed file system call.
pub fn store_error(e: FileError) -> (r: StoreError)
    ensures
        r@ == object_store_err(e@),
{
    match e {
        FileError::FileNotFound(path) => StoreError::NotFound {
            path: path.clone(),
            source: ErrorSource::Hdfs(FileError::FileNotFound(path)),
        },
        FileError::AlreadyExists(path) => StoreError::AlreadyExists {
            path: path.clone(),
            source: ErrorSource::Hdfs(FileError::AlreadyExists(path)),
        },
        other => StoreError::Generic {
            store: "HdfsObjectStore",
            source: ErrorSource::Hdfs(other),
        },
    }
}

} // verus!
