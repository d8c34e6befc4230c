//! Moving an object.

use crate::error::{object_store_err, store_error};
use crate::path::{
    absolute_dir, absolute_file, last_slash, make_absolute_dir, make_absolute_file, parent_of, Path,
};
use crate::request::{Progress, ProgressView, Reply, ReplyView, Request, RequestView};
use vstd::prelude::*;

verus! {

/// What becomes of an object at the place that another one is moved to.
#[derive(Debug, Clone, Copy, PartialEq, Eq)]
pub enum RenameTargetMode {
    /// It is replaced.
    Overwrite,
    /// It stays, and the move fails.
    Create,
}

/// The permission of the directories that a move makes.
pub const PARENT_PERMISSION: u32 = 0o755;

/// A move that waits for a call.
pub enum RenameView {
    /// Makes the directory that the object is moved to.
    MakingParent { from: Seq<char>, to: Seq<char>, overwrite: bool },
    /// Moves the object.
    Renaming { from: Seq<char>, to: Seq<char>, overwrite: bool },
}

/// The start of a move: a new place below a directory needs that directory.
pub open spec fn rename_start(
    from: Seq<char>,
    to: Seq<char>,
    mode: RenameTargetMode,
) -> RenameView {
    let overwrite = mode is Overwrite;
    if last_slash(to) >= 0 {
        RenameView::MakingParent { from, to, overwrite }
    } else {
        RenameView::Renaming { from, to, overwrite }
    }
}

impl RenameView {
    /// The call that the move waits for.
    pub open spec fn request(self) -> RequestView {
        match self {
            RenameView::MakingParent { to, .. } => RequestView::MakeDirs {
                path: absolute_dir(parent_of(to)),
                permission: PARENT_PERMISSION as nat,
                create_parent: true,
            },
            RenameView::Renaming { from, to, overwrite } => RequestView::Rename {
                from: absolute_file(from),
                to: absolute_file(to),
                overwrite,
            },
        }
    }

    /// Where the move stands after the answer to that call.
    pub open spec fn resume(self, reply: ReplyView) -> ProgressView<RenameView, ()> {
        match (self, reply) {
            (_, ReplyView::Failed(e)) => ProgressView::Ended(Err(object_store_err(e))),
            (RenameView::MakingParent { from, to, overwrite }, _) => {
                ProgressView::Pending(RenameView::Renaming { from, to, overwrite })
            },
            (RenameView::Renaming { .. }, _) => ProgressView::Ended(Ok(())),
        }
    }
}

/// An object that is being moved.
#[derive(Debug)]
pub struct RenameOperation {
    from: Path,
    to: Path,
    overwrite: bool,
    /// The directory that has to be made first.
    parent: Option<Path>,
}

impl View for RenameOperation {
    type V = RenameView;

    closed spec fn view(&self) -> RenameView {
        let (from, to, overwrite) = (self.from@, self.to@, self.overwrite);
        if self.parent is Some {
            RenameView::MakingParent { from, to, overwrite }
        } else {
            RenameView::Renaming { from, to, overwrite }
        }
    }
}

impl RenameOperation {
    #[verifier::type_invariant]
    spec fn well_formed(self) -> bool {
        self.parent matches Some(parent) ==> parent@ == parent_of(self.to@)
    }

    /// Starts to move `from` to `to`.
    pub fn start(from: Path, to: Path, mode: RenameTargetMode) -> (op: RenameOperation)
        ensures
            op@ == rename_start(from@, to@, mode),
    {
        let parent: Option<Path> = to.parent();
        let overwrite: bool = match mode {
            RenameTargetMode::Overwrite => true,
            RenameTargetMode::Create => false,
        };
        RenameOperation { from, to, overwrite, parent }
    }

    /// The call that the move waits for.
    pub fn request(&self) -> (r: Request)
        ensures
            r@ == self@.request(),
    {
        proof {
            use_type_invariant(self);
        }
        match &self.parent {
            Some(parent) => Request::MakeDirs {
                path: make_absolute_dir(parent),
                permission: PARENT_PERMISSION,
                create_parent: true,
            },
            None => Request::Rename {
                from: make_absolute_file(&self.from),
                to: make_absolute_file(&self.to),
                overwrite: self.overwrite,
            },
        }
    }

    /// Takes the answer to that call.
    pub fn resume(self, reply: Reply) -> (r: Progress<RenameOperation, ()>)
        requires
            self@.request().answered_by(reply@),
        ensures
            r@ == self@.resume(reply@),
    {
        let RenameOperation { from, to, overwrite, parent } = self;
        match (parent, reply) {
            (_, Reply::Failed(e)) => Progress::Ended(Err(store_error(e))),
            (Some(_), _) => Progress::Pending(
                RenameOperation { from, to, overwrite, parent: None },
            ),
            (None, _) => Progress::Ended(Ok(())),
        }
    }
}

} // verus!
