//! Copying an object.

use crate::error::{object_store_err, store_error, FileError, FileErrorView};
use crate::path::{absolute_file, make_absolute_file, Path};
use crate::request::{Progress, ProgressView, Reply, ReplyView, Request, RequestView};
use vstd::prelude::*;

verus! {

/// What becomes of an object at the place of the copy.
#[derive(Debug, Clone, Copy, PartialEq, Eq)]
pub enum CopyMode {
    /// It is replaced.
    Overwrite,
    /// It stays, and the copy fails.
    Create,
}

/// What is to be copied.
pub struct CopyJob {
    pub from: Seq<char>,
    pub to: Seq<char>,
    /// Whether an object at the place of the copy is replaced.
    pub overwrite: bool,
}

/// A copy that waits for a call.
pub enum CopyView {
    /// Looks whether an object is at the place of the copy.
    Checking { job: CopyJob },
    /// Opens the object.
    Opening { job: CopyJob },
    /// Starts to read all `length` bytes of the object.
    Streaming { job: CopyJob, length: nat },
    /// Creates the copy.
    Creating { job: CopyJob },
    /// Reads the next chunk of the object.
    Reading { job: CopyJob },
    /// Writes that chunk to the copy.
    Writing { job: CopyJob },
    /// Closes the copy.
    Closing { job: CopyJob },
}

/// The start of a copy.
pub open spec fn copy_start(from: Seq<char>, to: Seq<char>, mode: CopyMode) -> CopyView {
    match mode {
        CopyMode::Create => CopyView::Checking { job: CopyJob { from, to, overwrite: false } },
        CopyMode::Overwrite => CopyView::Opening { job: CopyJob { from, to, overwrite: true } },
    }
}

impl CopyView {
    /// The call that the copy waits for.
    pub open spec fn request(self) -> RequestView {
        match self {
            CopyView::Checking { job } => RequestView::GetFileInfo { path: absolute_file(job.to) },
            CopyView::Opening { job } => RequestView::Open { path: absolute_file(job.from) },
            CopyView::Streaming { length, .. } => RequestView::Stream { offset: 0, length },
            CopyView::Creating { job } => RequestView::Create {
                path: absolute_file(job.to),
                overwrite: job.overwrite,
            },
            CopyView::Reading { .. } => RequestView::ReadNext,
            CopyView::Writing { .. } => RequestView::WriteRead,
            CopyView::Closing { .. } => RequestView::Close,
        }
    }

    /// Where the copy stands after the answer to that call.
    pub open spec fn resume(self, reply: ReplyView) -> ProgressView<CopyView, ()> {
        match (self, reply) {
            (
                CopyView::Checking { job },
                ReplyView::Failed(FileErrorView::FileNotFound(_)),
            ) => ProgressView::Pending(CopyView::Opening { job }),
            (_, ReplyView::Failed(e)) => ProgressView::Ended(Err(object_store_err(e))),
            (CopyView::Checking { job }, _) => ProgressView::Ended(
                Err(object_store_err(FileErrorView::AlreadyExists(absolute_file(job.to)))),
            ),
            (CopyView::Opening { job }, ReplyView::Opened { length }) => {
                ProgressView::Pending(CopyView::Streaming { job, length })
            },
            (CopyView::Streaming { job, .. }, _) => {
                ProgressView::Pending(CopyView::Creating { job })
            },
            (CopyView::Creating { job }, _) => ProgressView::Pending(CopyView::Reading { job }),
            (CopyView::Reading { job }, ReplyView::Chunk) => {
                ProgressView::Pending(CopyView::Writing { job })
            },
            (CopyView::Reading { job }, _) => ProgressView::Pending(CopyView::Closing { job }),
            (CopyView::Writing { job }, _) => ProgressView::Pending(CopyView::Reading { job }),
            (CopyView::Closing { .. }, _) => ProgressView::Ended(Ok(())),
            _ => arbitrary(),
        }
    }
}

#[derive(Debug)]
enum CopyStage {
    Checking,
    Opening,
    Streaming { length: usize },
    Creating,
    Reading,
    Writing,
    Closing,
}

/// An object that is being copied.
#[derive(Debug)]
pub struct CopyOperation {
    from: Path,
    to: Path,
    overwrite: bool,
    stage: CopyStage,
}

impl View for CopyOperation {
    type V = CopyView;

    closed spec fn view(&self) -> CopyView {
        let job = CopyJob { from: self.from@, to: self.to@, overwrite: self.overwrite };
        match self.stage {
            CopyStage::Checking => CopyView::Checking { job },
            CopyStage::Opening => CopyView::Opening { job },
            CopyStage::Streaming { length } => CopyView::Streaming { job, length: length as nat },
            CopyStage::Creating => CopyView::Creating { job },
            CopyStage::Reading => CopyView::Reading { job },
            CopyStage::Writing => CopyView::Writing { job },
            CopyStage::Closing => CopyView::Closing { job },
        }
    }
}

impl CopyOperation {
    /// Starts to copy `from` to `to`.
    pub fn start(from: Path, to: Path, mode: CopyMode) -> (op: CopyOperation)
        ensures
            op@ == copy_start(from@, to@, mode),
    {
        match mode {
            CopyMode::Create => {
                CopyOperation { from, to, overwrite: false, stage: CopyStage::Checking }
            },
            CopyMode::Overwrite => {
                CopyOperation { from, to, overwrite: true, stage: CopyStage::Opening }
            },
        }
    }

    /// The call that the copy waits for.
    pub fn request(&self) -> (r: Request)
        ensures
            r@ == self@.request(),
    {
        match &self.stage {
            CopyStage::Checking => Request::GetFileInfo { path: make_absolute_file(&self.to) },
            CopyStage::Opening => Request::Open { path: make_absolute_file(&self.from) },
            CopyStage::Streaming { length } => Request::Stream { offset: 0, length: *length },
            CopyStage::Creating => Request::Create {
                path: make_absolute_file(&self.to),
                overwrite: self.overwrite,
            },
            CopyStage::Reading => Request::ReadNext,
            CopyStage::Writing => Request::WriteRead,
            CopyStage::Closing => Request::Close,
        }
    }

    /// Takes the answer to that call.
    pub fn resume(self, reply: Reply) -> (r: Progress<CopyOperation, ()>)
        requires
            self@.request().answered_by(reply@),
        ensures
            r@ == self@.resume(reply@),
    {
        let CopyOperation { from, to, overwrite, stage } = self;
        let stage: CopyStage = match (stage, reply) {
            (CopyStage::Checking, Reply::Failed(FileError::FileNotFound(_))) => CopyStage::Opening,
            (_, Reply::Failed(e)) => {
                return Progress::Ended(Err(store_error(e)));
            },
            (CopyStage::Checking, _) => {
                let file: String = make_absolute_file(&to);
                return Progress::Ended(Err(store_error(FileError::AlreadyExists(file))));
            },
            (CopyStage::Opening, Reply::Opened { length }) => CopyStage::Streaming { length },
            (CopyStage::Opening, _) => vstd::pervasive::unreached(),
            (CopyStage::Streaming { .. }, _) => CopyStage::Creating,
            (CopyStage::Creating, _) => CopyStage::Reading,
            (CopyStage::Reading, Reply::Chunk) => CopyStage::Writing,
            (CopyStage::Reading, _) => CopyStage::Closing,
            (CopyStage::Writing, _) => CopyStage::Reading,
            (CopyStage::Closing, _) => {
                return Progress::Ended(Ok(()));
            },
        };
        Progress::Pending(CopyOperation { from, to, overwrite, stage })
    }
}

} // verus!
