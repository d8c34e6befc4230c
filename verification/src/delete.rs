//! Deleting objects.

use crate::error::{object_store_err, store_error, StoreError, StoreErrorView};
use crate::path::{absolute_file, make_absolute_file, Path};
use crate::request::{Progress, ProgressView, Reply, ReplyView, Request, RequestView};
use vstd::prelude::*;

verus! {

/// The object to delete, or the error that came in its place.
pub open spec fn location_view(location: Result<Path, StoreError>) -> Result<
    Seq<char>,
    StoreErrorView,
> {
    match location {
        Ok(path) => Ok(path@),
        Err(e) => Err(e@),
    }
}

/// The call that deletes the object `location`.
pub open spec fn delete_call(location: Seq<char>) -> RequestView {
    RequestView::Delete { path: absolute_file(location), recursive: false }
}

/// A deletion that waits for its call.
pub struct DeleteView {
    pub location: Seq<char>,
}

/// The start of a deletion: an error in the place of the object is handed on.
pub open spec fn delete_start(location: Result<Seq<char>, StoreErrorView>) -> ProgressView<
    DeleteView,
    Seq<char>,
> {
    match location {
        Ok(location) => ProgressView::Pending(DeleteView { location }),
        Err(e) => ProgressView::Ended(Err(e)),
    }
}

impl DeleteView {
    /// The call that the deletion waits for.
    pub open spec fn request(self) -> RequestView {
        delete_call(self.location)
    }

    /// What the answer to that call leads to: the path itself, unless the call
    /// failed. That there was nothing to delete is no failure.
    pub open spec fn resume(self, reply: ReplyView) -> ProgressView<DeleteView, Seq<char>> {
        match reply {
            ReplyView::Failed(e) => ProgressView::Ended(Err(object_store_err(e))),
            _ => ProgressView::Ended(Ok(self.location)),
        }
    }
}

/// An object that is being deleted.
#[derive(Debug)]
pub struct DeleteOperation {
    location: Path,
}

impl View for DeleteOperation {
    type V = DeleteView;

    closed spec fn view(&self) -> DeleteView {
        DeleteView { location: self.location@ }
    }
}

impl DeleteOperation {
    /// Starts to delete an object, or hands on the error that came in its place.
    pub fn start(location: Result<Path, StoreError>) -> (r: Progress<DeleteOperation, Path>)
        ensures
            r@ == delete_start(location_view(location)),
    {
        match location {
            Ok(location) => Progress::Pending(DeleteOperation { location }),
            Err(e) => Progress::Ended(Err(e)),
        }
    }

    /// The call that the deletion waits for.
    pub fn request(&self) -> (r: Request)
        ensures
            r@ == self@.request(),
    {
        Request::Delete { path: make_absolute_file(&self.location), recursive: false }
    }

    /// Takes the answer to that call.
    pub fn resume(self, reply: Reply) -> (r: Progress<DeleteOperation, Path>)
        requires
            self@.request().answered_by(reply@),
        ensures
            r@ == self@.resume(reply@),
    {
        match reply {
            Reply::Failed(e) => Progress::Ended(Err(store_error(e))),
            _ => Progress::Ended(Ok(self.location)),
        }
    }
}

} // verus!
