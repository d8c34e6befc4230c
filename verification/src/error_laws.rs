//! What becomes of a failed file system call.

use crate::error::{
    generic, generic_from, object_store_err, ErrorSourceView, FileErrorView, StoreErrorView,
};
use crate::tmp::missing_filename;
use vstd::prelude::*;

verus! {

/// What a failed call becomes for the caller of the store: a missing file is not
/// found, a file in the way exists already, each under its own path, and anything
/// else is a generic error of the store. The failure is always the source, whole.
pub proof fn law_failure_keeps_kind_and_path(e: FileErrorView)
    ensures
        ({
            let error = object_store_err(e);
            &&& match e {
                FileErrorView::FileNotFound(path) => {
                    error matches StoreErrorView::NotFound { path: same, .. } && same == path
                },
                FileErrorView::AlreadyExists(path) => {
                    error matches StoreErrorView::AlreadyExists { path: same, .. } && same == path
                },
                _ => error matches StoreErrorView::Generic { store, .. } && store
                    == "HdfsObjectStore"@,
            }
            &&& match error {
                StoreErrorView::NotFound { source, .. } => source == ErrorSourceView::Hdfs(e),
                StoreErrorView::AlreadyExists { source, .. } => source == ErrorSourceView::Hdfs(e),
                StoreErrorView::Generic { source, .. } => source == ErrorSourceView::Hdfs(e),
                _ => false,
            }
        }),
{
}

/// Different failures become different errors.
pub proof fn law_failures_stay_apart(a: FileErrorView, b: FileErrorView)
    requires
        object_store_err(a) == object_store_err(b),
    ensures
        a == b,
{
    law_failure_keeps_kind_and_path(a);
    law_failure_keeps_kind_and_path(b);
}

/// What goes wrong in the store itself is a generic error under the store's own
/// mark, which no failed call becomes; its source is kept.
pub proof fn law_own_errors_are_marked(source: ErrorSourceView, message: Seq<char>)
    ensures
        generic_from(source) == (StoreErrorView::Generic { store: "HFDS"@, source }),
        generic(message) == (StoreErrorView::Generic {
            store: "HFDS"@,
            source: ErrorSourceView::Message(message),
        }),
        forall|e: FileErrorView| generic_from(source) != #[trigger] object_store_err(e),
        missing_filename() == (StoreErrorView::Generic {
            store: "HdfsObjectStore"@,
            source: ErrorSourceView::Hdfs(FileErrorView::InvalidPath("path missing filename"@)),
        }),
{
    reveal_strlit("HFDS");
    reveal_strlit("HdfsObjectStore");
    assert forall|e: FileErrorView| generic_from(source) != #[trigger] object_store_err(e) by {
        assert("HFDS"@.len() != "HdfsObjectStore"@.len());
    }
}

} // verus!
