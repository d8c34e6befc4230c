//! Uploads in parts.
//!
//! A task of its own writes the parts of an upload to a temporary file, one
//! after another. Completing the upload puts the file in the place of the
//! object; aborting it deletes the file. Either can be done once.

use crate::error::{
    generic, generic_message, object_store_err, store_error, StoreError, StoreErrorView,
};
use crate::path::{absolute_file, Path};
use crate::put::{PutResult, PutResultView};
use crate::request::{Progress, ProgressView, Reply, ReplyView, Request, RequestView};
use crate::tmp::{missing_filename, TmpFile, TmpFileView, TmpStep, TmpStepView};
use vstd::prelude::*;

verus! {

/// An upload in parts.
#[derive(Debug)]
pub struct HdfsMultipartWriter {
    tmp_filename: String,
    final_filename: String,
    open: bool,
}

pub struct UploadView {
    pub tmp_filename: Seq<char>,
    pub final_filename: Seq<char>,
    /// Neither completed nor aborted.
    pub open: bool,
}

impl View for HdfsMultipartWriter {
    type V = UploadView;

    closed spec fn view(&self) -> UploadView {
        UploadView {
            tmp_filename: self.tmp_filename@,
            final_filename: self.final_filename@,
            open: self.open,
        }
    }
}

impl UploadView {
    /// The upload once it was completed or aborted.
    pub open spec fn closed(self) -> UploadView {
        UploadView { open: false, ..self }
    }

    /// The answer to a part, if it is known before the part is written.
    pub open spec fn put_part(self) -> Result<(), StoreErrorView> {
        if self.open {
            Ok(())
        } else {
            Err(generic("Cannot put part after completing or aborting"@))
        }
    }

    /// The start of completing the upload.
    pub open spec fn complete(self) -> ProgressView<CompleteView, PutResultView> {
        if self.open {
            ProgressView::Pending(
                CompleteView::Joining { from: self.tmp_filename, to: self.final_filename },
            )
        } else {
            ProgressView::Ended(Err(ended_already()))
        }
    }

    /// The start of aborting the upload.
    pub open spec fn abort(self) -> ProgressView<AbortView, ()> {
        if self.open {
            ProgressView::Pending(AbortView::Stopping { tmp_filename: self.tmp_filename })
        } else {
            ProgressView::Ended(Err(ended_already()))
        }
    }
}

/// The error for an upload that is ended a second time.
pub open spec fn ended_already() -> StoreErrorView {
    generic("Cannot call abort or complete multiple times"@)
}

impl HdfsMultipartWriter {
    /// An upload that is written to `tmp_filename` and ends up in
    /// `final_filename`.
    pub fn new(tmp_filename: String, final_filename: String) -> (upload: HdfsMultipartWriter)
        ensures
            upload@ == (UploadView {
                tmp_filename: tmp_filename@,
                final_filename: final_filename@,
                open: true,
            }),
    {
        HdfsMultipartWriter { tmp_filename, final_filename, open: true }
    }

    pub fn tmp_filename(&self) -> (r: &str)
        ensures
            r@ == self@.tmp_filename,
    {
        self.tmp_filename.as_str()
    }

    pub fn final_filename(&self) -> (r: &str)
        ensures
            r@ == self@.final_filename,
    {
        self.final_filename.as_str()
    }

    /// Whether a part may be handed to the task that writes the upload. The
    /// error is the answer to the part.
    pub fn put_part(&self) -> (r: Result<(), StoreError>)
        ensures
            match r {
                Ok(()) => self@.put_part() is Ok,
                Err(e) => self@.put_part() == Err::<(), StoreErrorView>(e@),
            },
    {
        if self.open {
            Ok(())
        } else {
            Err(generic_message("Cannot put part after completing or aborting"))
        }
    }

    /// Starts to complete the upload.
    pub fn complete(&mut self) -> (r: Progress<CompleteOperation, PutResult>)
        ensures
            r@ == old(self)@.complete(),
            final(self)@ == old(self)@.closed(),
    {
        if self.open {
            self.open = false;
            Progress::Pending(
                CompleteOperation {
                    from: self.tmp_filename.clone(),
                    to: self.final_filename.clone(),
                    written: false,
                },
            )
        } else {
            Progress::Ended(Err(generic_message("Cannot call abort or complete multiple times")))
        }
    }

    /// Starts to abort the upload.
    pub fn abort(&mut self) -> (r: Progress<AbortOperation, ()>)
        ensures
            r@ == old(self)@.abort(),
            final(self)@ == old(self)@.closed(),
    {
        if self.open {
            self.open = false;
            Progress::Pending(
                AbortOperation { tmp_filename: self.tmp_filename.clone(), stopped: false },
            )
        } else {
            Progress::Ended(Err(generic_message("Cannot call abort or complete multiple times")))
        }
    }
}

/// The answer to a part, if there is one.
pub open spec fn answer_view(answer: Option<Result<(), StoreError>>) -> Option<
    Result<(), StoreErrorView>,
> {
    match answer {
        None => None,
        Some(Ok(())) => Some(Ok(())),
        Some(Err(e)) => Some(Err(e@)),
    }
}

/// The answer to a part that was handed to the task: the task's answer, or an
/// error where the task is gone and gives none.
pub open spec fn part_answer(answer: Option<Result<(), StoreErrorView>>) -> Result<
    (),
    StoreErrorView,
> {
    match answer {
        Some(result) => result,
        None => Err(generic("Write task failed"@)),
    }
}

/// The answer to a part that was handed to the task.
pub fn part_result(answer: Option<Result<(), StoreError>>) -> (r: Result<(), StoreError>)
    ensures
        match answer {
            Some(result) => r == result,
            None => r matches Err(e) && e@ == generic("Write task failed"@),
        },
        match r {
            Ok(()) => part_answer(answer_view(answer)) is Ok,
            Err(e) => part_answer(answer_view(answer)) == Err::<(), StoreErrorView>(e@),
        },
{
    match answer {
        Some(result) => result,
        None => Err(generic_message("Write task failed")),
    }
}

/// An upload that is being completed.
pub enum CompleteView {
    /// Waits for all parts to be written.
    Joining { from: Seq<char>, to: Seq<char> },
    /// Puts the temporary file in the place of the object.
    Renaming { from: Seq<char>, to: Seq<char> },
}

impl CompleteView {
    /// The call that is waited for.
    pub open spec fn request(self) -> RequestView {
        match self {
            CompleteView::Joining { .. } => RequestView::JoinTask,
            CompleteView::Renaming { from, to } => {
                RequestView::Rename { from, to, overwrite: true }
            },
        }
    }

    /// What the answer to that call leads to.
    pub open spec fn resume(self, reply: ReplyView) -> ProgressView<CompleteView, PutResultView> {
        match (self, reply) {
            (CompleteView::Joining { from, to }, ReplyView::TaskEnded(Ok(Ok(())))) => {
                ProgressView::Pending(CompleteView::Renaming { from, to })
            },
            (CompleteView::Joining { .. }, ReplyView::TaskEnded(Ok(Err(e)))) => {
                ProgressView::Ended(Err(e))
            },
            (CompleteView::Joining { .. }, ReplyView::TaskEnded(Err(e))) => {
                ProgressView::Ended(Err(StoreErrorView::JoinError(e)))
            },
            (CompleteView::Renaming { .. }, ReplyView::Failed(e)) => {
                ProgressView::Ended(Err(object_store_err(e)))
            },
            (CompleteView::Renaming { .. }, _) => {
                ProgressView::Ended(Ok(PutResultView { e_tag: None, version: None }))
            },
            _ => arbitrary(),
        }
    }
}

/// An upload that is being completed.
#[derive(Debug)]
pub struct CompleteOperation {
    from: String,
    to: String,
    written: bool,
}

impl View for CompleteOperation {
    type V = CompleteView;

    closed spec fn view(&self) -> CompleteView {
        if self.written {
            CompleteView::Renaming { from: self.from@, to: self.to@ }
        } else {
            CompleteView::Joining { from: self.from@, to: self.to@ }
        }
    }
}

impl CompleteOperation {
    /// The call that is waited for.
    pub fn request(&self) -> (r: Request)
        ensures
            r@ == self@.request(),
    {
        if self.written {
            Request::Rename { from: self.from.clone(), to: self.to.clone(), overwrite: true }
        } else {
            Request::JoinTask
        }
    }

    /// Takes the answer to that call.
    pub fn resume(self, reply: Reply) -> (r: Progress<CompleteOperation, PutResult>)
        requires
            self@.request().answered_by(reply@),
        ensures
            r@ == self@.resume(reply@),
    {
        let CompleteOperation { from, to, written } = self;
        match reply {
            Reply::TaskEnded(Ok(Ok(()))) => {
                Progress::Pending(CompleteOperation { from, to, written: true })
            },
            Reply::TaskEnded(Ok(Err(e))) => Progress::Ended(Err(e)),
            Reply::TaskEnded(Err(e)) => Progress::Ended(Err(StoreError::JoinError(e))),
            Reply::Failed(e) => Progress::Ended(Err(store_error(e))),
            _ => Progress::Ended(Ok(PutResult { e_tag: None, version: None })),
        }
    }
}

/// An upload that is being aborted.
pub enum AbortView {
    /// Stops the task that writes the parts.
    Stopping { tmp_filename: Seq<char> },
    /// Deletes the temporary file.
    Deleting { tmp_filename: Seq<char> },
}

impl AbortView {
    /// The call that is waited for.
    pub open spec fn request(self) -> RequestView {
        match self {
            AbortView::Stopping { .. } => RequestView::AbortTask,
            AbortView::Deleting { tmp_filename } => {
                RequestView::Delete { path: tmp_filename, recursive: false }
            },
        }
    }

    /// What the answer to that call leads to.
    pub open spec fn resume(self, reply: ReplyView) -> ProgressView<AbortView, ()> {
        match (self, reply) {
            (AbortView::Stopping { tmp_filename }, _) => {
                ProgressView::Pending(AbortView::Deleting { tmp_filename })
            },
            (AbortView::Deleting { .. }, ReplyView::Failed(e)) => {
                ProgressView::Ended(Err(object_store_err(e)))
            },
            (AbortView::Deleting { .. }, _) => ProgressView::Ended(Ok(())),
        }
    }
}

/// An upload that is being aborted.
#[derive(Debug)]
pub struct AbortOperation {
    tmp_filename: String,
    stopped: bool,
}

impl View for AbortOperation {
    type V = AbortView;

    closed spec fn view(&self) -> AbortView {
        if self.stopped {
            AbortView::Deleting { tmp_filename: self.tmp_filename@ }
        } else {
            AbortView::Stopping { tmp_filename: self.tmp_filename@ }
        }
    }
}

impl AbortOperation {
    /// The call that is waited for.
    pub fn request(&self) -> (r: Request)
        ensures
            r@ == self@.request(),
    {
        if self.stopped {
            Request::Delete { path: self.tmp_filename.clone(), recursive: false }
        } else {
            Request::AbortTask
        }
    }

    /// Takes the answer to that call.
    pub fn resume(self, reply: Reply) -> (r: Progress<AbortOperation, ()>)
        requires
            self@.request().answered_by(reply@),
        ensures
            r@ == self@.resume(reply@),
    {
        let AbortOperation { tmp_filename, stopped } = self;
        match reply {
            Reply::Failed(e) => Progress::Ended(Err(store_error(e))),
            _ => if stopped {
                Progress::Ended(Ok(()))
            } else {
                Progress::Pending(AbortOperation { tmp_filename, stopped: true })
            },
        }
    }
}

/// The start of an upload in parts.
pub open spec fn upload_start(location: Seq<char>) -> ProgressView<TmpFileView, UploadView> {
    if location.len() == 0 {
        ProgressView::Ended(Err(missing_filename()))
    } else {
        ProgressView::Pending(TmpFileView { file: absolute_file(location), index: 1 })
    }
}

/// What the answer to the creation of a temporary file leads to.
pub open spec fn upload_resume(tmp: TmpFileView, reply: ReplyView) -> ProgressView<
    TmpFileView,
    UploadView,
> {
    match tmp.step(reply) {
        TmpStepView::Next => ProgressView::Pending(tmp.after(reply)),
        TmpStepView::Failed(e) => ProgressView::Ended(Err(e)),
        TmpStepView::Opened => ProgressView::Ended(
            Ok(UploadView { tmp_filename: tmp.path(), final_filename: tmp.file, open: true }),
        ),
    }
}

/// Starts an upload in parts to `location` with the search for a temporary
/// file.
pub fn start_upload(location: &Path) -> (r: Progress<TmpFile, HdfsMultipartWriter>)
    ensures
        r@ == upload_start(location@),
{
    match TmpFile::start(location) {
        Ok(tmp) => Progress::Pending(tmp),
        Err(e) => Progress::Ended(Err(e)),
    }
}

/// Takes the answer to the creation of a temporary file.
pub fn resume_upload(tmp: TmpFile, reply: Reply) -> (r: Progress<TmpFile, HdfsMultipartWriter>)
    requires
        tmp@.can_go_on(reply@),
    ensures
        r@ == upload_resume(tmp@, reply@),
{
    let mut tmp: TmpFile = tmp;
    match tmp.resume(reply) {
        TmpStep::Next => Progress::Pending(tmp),
        TmpStep::Opened => {
            Progress::Ended(Ok(HdfsMultipartWriter::new(tmp.path(), tmp.file())))
        },
        TmpStep::Failed(e) => Progress::Ended(Err(e)),
    }
}

/// The task that writes the parts of an upload.
pub enum WriterTaskView {
    /// Waits for a part.
    Receiving,
    /// Writes the chunk behind the first `written` ones of a part.
    Writing { written: nat, chunks: nat },
    /// Closes the file.
    Closing,
}

/// The start of the task.
pub open spec fn writer_start() -> WriterTaskView {
    WriterTaskView::Receiving
}

/// What the task does with the answer to a call: it may answer the part that
/// it is at, and it goes on or ends.
pub struct WriterStepView {
    pub answer: Option<Result<(), StoreErrorView>>,
    pub progress: ProgressView<WriterTaskView, ()>,
}

impl WriterTaskView {
    /// The call that the task waits for.
    pub open spec fn request(self) -> RequestView {
        match self {
            WriterTaskView::Receiving => RequestView::ReceivePart,
            WriterTaskView::Writing { written, .. } => RequestView::Write { chunk: written },
            WriterTaskView::Closing => RequestView::Close,
        }
    }

    /// Goes on behind the first `written` chunks of a part. A part that is
    /// written is answered, and the next one is waited for.
    pub open spec fn behind(written: nat, chunks: nat) -> WriterStepView {
        if written < chunks {
            WriterStepView {
                answer: None,
                progress: ProgressView::Pending(WriterTaskView::Writing { written, chunks }),
            }
        } else {
            WriterStepView {
                answer: Some(Ok(())),
                progress: ProgressView::Pending(WriterTaskView::Receiving),
            }
        }
    }

    /// What the task does with the answer to that call.
    pub open spec fn resume(self, reply: ReplyView) -> WriterStepView {
        match (self, reply) {
            (WriterTaskView::Receiving, ReplyView::Part { chunks }) => Self::behind(0, chunks),
            (WriterTaskView::Receiving, _) => WriterStepView {
                answer: None,
                progress: ProgressView::Pending(WriterTaskView::Closing),
            },
            (WriterTaskView::Writing { .. }, ReplyView::Failed(e)) => WriterStepView {
                answer: Some(Err(object_store_err(e))),
                progress: ProgressView::Ended(Err(generic("Failed to write all parts"@))),
            },
            (WriterTaskView::Writing { written, chunks }, _) => Self::behind(written + 1, chunks),
            (WriterTaskView::Closing, ReplyView::Failed(e)) => WriterStepView {
                answer: None,
                progress: ProgressView::Ended(Err(object_store_err(e))),
            },
            (WriterTaskView::Closing, _) => WriterStepView {
                answer: None,
                progress: ProgressView::Ended(Ok(())),
            },
        }
    }
}

#[derive(Debug)]
enum WriterStage {
    Receiving,
    Writing { written: usize, chunks: usize },
    Closing,
}

/// The task that writes the parts of an upload.
#[derive(Debug)]
pub struct WriterTask {
    stage: WriterStage,
}

impl View for WriterTask {
    type V = WriterTaskView;

    closed spec fn view(&self) -> WriterTaskView {
        match self.stage {
            WriterStage::Receiving => WriterTaskView::Receiving,
            WriterStage::Writing { written, chunks } => {
                WriterTaskView::Writing { written: written as nat, chunks: chunks as nat }
            },
            WriterStage::Closing => WriterTaskView::Closing,
        }
    }
}

/// What the task does with the answer to a call.
#[derive(Debug)]
pub struct WriterStep {
    /// The answer to the part that the task is at, if it is due.
    pub answer: Option<Result<(), StoreError>>,
    pub progress: Progress<WriterTask, ()>,
}

impl View for WriterStep {
    type V = WriterStepView;

    open spec fn view(&self) -> WriterStepView {
        WriterStepView {
            answer: match self.answer {
                None => None,
                Some(Ok(())) => Some(Ok(())),
                Some(Err(e)) => Some(Err(e@)),
            },
            progress: self.progress@,
        }
    }
}

impl WriterTask {
    /// No more chunks of a part are written than it has.
    #[verifier::type_invariant]
    spec fn well_formed(self) -> bool {
        self.stage matches WriterStage::Writing { written, chunks } ==> written < chunks
    }

    /// Starts the task.
    pub fn start() -> (task: WriterTask)
        ensures
            task@ == writer_start(),
    {
        WriterTask { stage: WriterStage::Receiving }
    }

    /// The call that the task waits for.
    pub fn request(&self) -> (r: Request)
        ensures
            r@ == self@.request(),
    {
        match &self.stage {
            WriterStage::Receiving => Request::ReceivePart,
            WriterStage::Writing { written, .. } => Request::Write { chunk: *written },
            WriterStage::Closing => Request::Close,
        }
    }

    fn behind(written: usize, chunks: usize) -> (r: WriterStep)
        ensures
            r@ == WriterTaskView::behind(written as nat, chunks as nat),
    {
        if written < chunks {
            WriterStep {
                answer: None,
                progress: Progress::Pending(
                    WriterTask { stage: WriterStage::Writing { written, chunks } },
                ),
            }
        } else {
            WriterStep {
                answer: Some(Ok(())),
                progress: Progress::Pending(WriterTask { stage: WriterStage::Receiving }),
            }
        }
    }

    /// Takes the answer to that call.
    pub fn resume(self, reply: Reply) -> (r: WriterStep)
        requires
            self@.request().answered_by(reply@),
        ensures
            r@ == self@.resume(reply@),
    {
        proof {
            use_type_invariant(&self);
        }
        match (self.stage, reply) {
            (WriterStage::Receiving, Reply::Part { chunks }) => WriterTask::behind(0, chunks),
            (WriterStage::Receiving, _) => WriterStep {
                answer: None,
                progress: Progress::Pending(WriterTask { stage: WriterStage::Closing }),
            },
            (WriterStage::Writing { .. }, Reply::Failed(e)) => WriterStep {
                answer: Some(Err(store_error(e))),
                progress: Progress::Ended(Err(generic_message("Failed to write all parts"))),
            },
            (WriterStage::Writing { written, chunks }, _) => {
                WriterTask::behind(written + 1, chunks)
            },
            (WriterStage::Closing, Reply::Failed(e)) => WriterStep {
                answer: None,
                progress: Progress::Ended(Err(store_error(e))),
            },
            (WriterStage::Closing, _) => WriterStep {
                answer: None,
                progress: Progress::Ended(Ok(())),
            },
        }
    }
}

} // verus!
