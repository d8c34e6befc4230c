//! Writing an object.
//!
//! The payload goes to a temporary file beside the object, which takes the
//! place of the object only once all of it is written.

use crate::conditions::{unconditional, GetOptions};
use crate::error::{
    object_store_err, store_error, FileError, FileErrorView, StoreError, StoreErrorView,
};
use crate::get::{serve, served};
use crate::meta::text_of;
use crate::path::{absolute_file, make_absolute_file, Path};
use crate::request::{Progress, ProgressView, Reply, ReplyView, Request, RequestView};
use crate::tmp::{missing_filename, tmp_path, TmpFile, TmpFileView, TmpStep};
use vstd::prelude::*;

verus! {

/// What becomes of an object that exists already.
#[derive(Debug, Clone, Copy, PartialEq, Eq)]
pub enum PutMode {
    /// It stays, and the write fails.
    Create,
    /// It is replaced.
    Overwrite,
    /// It is replaced if it is a given version of the object.
    Update,
}

/// What a write is answered with.
#[derive(Debug)]
pub struct PutResult {
    pub e_tag: Option<String>,
    pub version: Option<String>,
}

pub struct PutResultView {
    pub e_tag: Option<Seq<char>>,
    pub version: Option<Seq<char>>,
}

impl View for PutResult {
    type V = PutResultView;

    open spec fn view(&self) -> PutResultView {
        PutResultView { e_tag: text_of(self.e_tag), version: text_of(self.version) }
    }
}

/// What is to be written.
pub struct PutTarget {
    pub location: Seq<char>,
    /// Whether an object that exists is replaced.
    pub overwrite: bool,
    /// The number of chunks of the payload.
    pub chunks: nat,
}

/// A write that waits for a call.
pub enum PutView {
    /// Looks whether the object exists.
    Checking { target: PutTarget },
    /// Tries to create the temporary file with this index.
    Opening { target: PutTarget, index: nat },
    /// Writes the chunk behind the first `written` ones.
    Writing { target: PutTarget, index: nat, written: nat },
    /// Closes the temporary file.
    Closing { target: PutTarget, index: nat },
    /// Puts the temporary file in the place of the object.
    Renaming { target: PutTarget, index: nat },
    /// Looks at the object that was written.
    Heading { target: PutTarget },
}

/// The error for an update.
pub open spec fn update_not_implemented() -> StoreErrorView {
    StoreErrorView::NotImplemented {
        operation: "PutOptions with Update precondition"@,
        implementer: "HdfsObjectStore"@,
    }
}

impl PutTarget {
    /// The file that holds the object.
    pub open spec fn file(self) -> Seq<char> {
        absolute_file(self.location)
    }

    /// The temporary file with this index.
    pub open spec fn tmp(self, index: nat) -> Seq<char> {
        tmp_path(self.file(), index)
    }

    /// Goes on to the first temporary file.
    pub open spec fn open(self) -> ProgressView<PutView, PutResultView> {
        if self.location.len() == 0 {
            ProgressView::Ended(Err(missing_filename()))
        } else {
            ProgressView::Pending(PutView::Opening { target: self, index: 1 })
        }
    }

    /// Goes on behind the first `written` chunks.
    pub open spec fn write(self, index: nat, written: nat) -> PutView {
        if written < self.chunks {
            PutView::Writing { target: self, index, written }
        } else {
            PutView::Closing { target: self, index }
        }
    }
}

/// The start of a write.
pub open spec fn put_start(location: Seq<char>, mode: PutMode, chunks: nat) -> ProgressView<
    PutView,
    PutResultView,
> {
    match mode {
        PutMode::Create => {
            let target = PutTarget { location, overwrite: false, chunks };
            ProgressView::Pending(PutView::Checking { target })
        },
        PutMode::Overwrite => PutTarget { location, overwrite: true, chunks }.open(),
        PutMode::Update => ProgressView::Ended(Err(update_not_implemented())),
    }
}

impl PutView {
    pub open spec fn target(self) -> PutTarget {
        match self {
            PutView::Checking { target } => target,
            PutView::Opening { target, .. } => target,
            PutView::Writing { target, .. } => target,
            PutView::Closing { target, .. } => target,
            PutView::Renaming { target, .. } => target,
            PutView::Heading { target } => target,
        }
    }

    /// The call that the write waits for.
    pub open spec fn request(self) -> RequestView {
        match self {
            PutView::Checking { target } => RequestView::GetFileInfo { path: target.file() },
            PutView::Opening { target, index } => {
                RequestView::Create { path: target.tmp(index), overwrite: false }
            },
            PutView::Writing { written, .. } => RequestView::Write { chunk: written },
            PutView::Closing { .. } => RequestView::Close,
            PutView::Renaming { target, index } => {
                RequestView::Rename {
                    from: target.tmp(index),
                    to: target.file(),
                    overwrite: target.overwrite,
                }
            },
            PutView::Heading { target } => RequestView::GetFileInfo { path: target.file() },
        }
    }

    /// `reply` answers that call, and a name is left if it asks for another
    /// temporary file.
    pub open spec fn accepts(self, reply: ReplyView) -> bool {
        &&& self.request().answered_by(reply)
        &&& self matches PutView::Opening { target, index } ==> (TmpFileView {
            file: target.file(),
            index,
        }).can_go_on(reply)
    }

    /// Where the write stands after the answer to that call.
    pub open spec fn resume(self, reply: ReplyView) -> ProgressView<PutView, PutResultView> {
        match (self, reply) {
            // Nothing can be said of the object, so nothing is known to be in the way.
            (PutView::Checking { target }, ReplyView::Failed(_)) => target.open(),
            (PutView::Checking { target }, _) => {
                ProgressView::Ended(
                    Err(object_store_err(FileErrorView::AlreadyExists(target.file()))),
                )
            },
            (
                PutView::Opening { target, index },
                ReplyView::Failed(FileErrorView::AlreadyExists(_)),
            ) => ProgressView::Pending(PutView::Opening { target, index: index + 1 }),
            (_, ReplyView::Failed(e)) => ProgressView::Ended(Err(object_store_err(e))),
            (PutView::Opening { target, index }, _) => {
                ProgressView::Pending(target.write(index, 0))
            },
            (PutView::Writing { target, index, written }, _) => {
                ProgressView::Pending(target.write(index, written + 1))
            },
            (PutView::Closing { target, index }, _) => {
                ProgressView::Pending(PutView::Renaming { target, index })
            },
            (PutView::Renaming { target, .. }, _) => {
                ProgressView::Pending(PutView::Heading { target })
            },
            (PutView::Heading { target }, ReplyView::Status(status)) => {
                match served(target.location, unconditional(true), status) {
                    Ok((meta, _)) => {
                        ProgressView::Ended(Ok(PutResultView { e_tag: meta.e_tag, version: None }))
                    },
                    Err(e) => ProgressView::Ended(Err(e)),
                }
            },
            _ => arbitrary(),
        }
    }
}

#[derive(Debug)]
enum PutStage {
    Checking,
    Opening { tmp: TmpFile },
    Writing { tmp: TmpFile, written: usize },
    Closing { tmp: TmpFile },
    Renaming { tmp: TmpFile },
    Heading,
}

/// An object that is being written.
#[derive(Debug)]
pub struct PutOperation {
    location: Path,
    overwrite: bool,
    chunks: usize,
    stage: PutStage,
}

impl PutOperation {
    spec fn target(self) -> PutTarget {
        PutTarget {
            location: self.location@,
            overwrite: self.overwrite,
            chunks: self.chunks as nat,
        }
    }

    /// The temporary file belongs to the object, and no more chunks are
    /// written than there are.
    #[verifier::type_invariant]
    spec fn well_formed(self) -> bool {
        match self.stage {
            PutStage::Checking | PutStage::Heading => true,
            PutStage::Opening { tmp } => tmp@.file == self.target().file(),
            PutStage::Writing { tmp, written } => {
                tmp@.file == self.target().file() && written < self.chunks
            },
            PutStage::Closing { tmp } => tmp@.file == self.target().file(),
            PutStage::Renaming { tmp } => tmp@.file == self.target().file(),
        }
    }
}

impl View for PutOperation {
    type V = PutView;

    closed spec fn view(&self) -> PutView {
        let target = self.target();
        match self.stage {
            PutStage::Checking => PutView::Checking { target },
            PutStage::Opening { tmp } => PutView::Opening { target, index: tmp@.index },
            PutStage::Writing { tmp, written } => {
                PutView::Writing { target, index: tmp@.index, written: written as nat }
            },
            PutStage::Closing { tmp } => PutView::Closing { target, index: tmp@.index },
            PutStage::Renaming { tmp } => PutView::Renaming { target, index: tmp@.index },
            PutStage::Heading => PutView::Heading { target },
        }
    }
}

impl PutOperation {
    /// Starts to write a payload of `chunks` chunks to `location`.
    pub fn start(location: Path, mode: PutMode, chunks: usize) -> (r: Progress<
        PutOperation,
        PutResult,
    >)
        ensures
            r@ == put_start(location@, mode, chunks as nat),
    {
        match mode {
            PutMode::Create => Progress::Pending(
                PutOperation { location, overwrite: false, chunks, stage: PutStage::Checking },
            ),
            PutMode::Overwrite => PutOperation::open(location, true, chunks),
            PutMode::Update => Progress::Ended(
                Err(
                    StoreError::NotImplemented {
                        operation: "PutOptions with Update precondition".to_owned(),
                        implementer: "HdfsObjectStore".to_owned(),
                    },
                ),
            ),
        }
    }

    fn open(location: Path, overwrite: bool, chunks: usize) -> (r: Progress<
        PutOperation,
        PutResult,
    >)
        ensures
            r@ == (PutTarget { location: location@, overwrite, chunks: chunks as nat }).open(),
    {
        match TmpFile::start(&location) {
            Ok(tmp) => Progress::Pending(
                PutOperation { location, overwrite, chunks, stage: PutStage::Opening { tmp } },
            ),
            Err(e) => Progress::Ended(Err(e)),
        }
    }

    /// The call that the write waits for.
    pub fn request(&self) -> (r: Request)
        ensures
            r@ == self@.request(),
    {
        proof {
            use_type_invariant(self);
        }
        match &self.stage {
            PutStage::Checking => Request::GetFileInfo { path: make_absolute_file(&self.location) },
            PutStage::Opening { tmp } => tmp.request(),
            PutStage::Writing { written, .. } => Request::Write { chunk: *written },
            PutStage::Closing { .. } => Request::Close,
            PutStage::Renaming { tmp } => Request::Rename {
                from: tmp.path(),
                to: make_absolute_file(&self.location),
                overwrite: self.overwrite,
            },
            PutStage::Heading => Request::GetFileInfo { path: make_absolute_file(&self.location) },
        }
    }

    /// Whether `reply` can be taken now.
    pub fn accepts(&self, reply: &Reply) -> (r: bool)
        ensures
            r == self@.accepts(reply@),
    {
        proof {
            use_type_invariant(self);
        }
        if !self.request().answered_by(reply) {
            return false;
        }
        match &self.stage {
            PutStage::Opening { tmp } => tmp.can_go_on(reply),
            _ => true,
        }
    }

    /// Takes the answer to the call that the write waits for.
    pub fn resume(self, reply: Reply) -> (r: Progress<PutOperation, PutResult>)
        requires
            self@.accepts(reply@),
        ensures
            r@ == self@.resume(reply@),
    {
        proof {
            use_type_invariant(&self);
        }
        let PutOperation { location, overwrite, chunks, stage } = self;
        let stage: PutStage = match (stage, reply) {
            (PutStage::Checking, Reply::Failed(_)) => {
                return PutOperation::open(location, overwrite, chunks);
            },
            (PutStage::Checking, _) => {
                let file: String = make_absolute_file(&location);
                return Progress::Ended(Err(store_error(FileError::AlreadyExists(file))));
            },
            (PutStage::Opening { tmp }, reply) => {
                let mut tmp: TmpFile = tmp;
                match tmp.resume(reply) {
                    TmpStep::Next => PutStage::Opening { tmp },
                    TmpStep::Opened => if 0 < chunks {
                        PutStage::Writing { tmp, written: 0 }
                    } else {
                        PutStage::Closing { tmp }
                    },
                    TmpStep::Failed(e) => {
                        return Progress::Ended(Err(e));
                    },
                }
            },
            (_, Reply::Failed(e)) => {
                return Progress::Ended(Err(store_error(e)));
            },
            (PutStage::Writing { tmp, written }, _) => if written + 1 < chunks {
                PutStage::Writing { tmp, written: written + 1 }
            } else {
                PutStage::Closing { tmp }
            },
            (PutStage::Closing { tmp }, _) => PutStage::Renaming { tmp },
            (PutStage::Renaming { .. }, _) => PutStage::Heading,
            (PutStage::Heading, Reply::Status(status)) => {
                return match serve(&location, &GetOptions::unconditional(true), &status) {
                    Ok((meta, _)) => {
                        Progress::Ended(Ok(PutResult { e_tag: meta.e_tag, version: None }))
                    },
                    Err(e) => Progress::Ended(Err(e)),
                };
            },
            (PutStage::Heading, _) => vstd::pervasive::unreached(),
        };
        Progress::Pending(PutOperation { location, overwrite, chunks, stage })
    }
}

} // verus!
