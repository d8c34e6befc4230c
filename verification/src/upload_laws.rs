//! What an upload in parts does to a disk.

use crate::conditions::unconditional;
use crate::error::{object_store_err, ErrorSourceView, FileErrorView, StoreErrorView};
use crate::get_laws::{get_on, law_get_reads_whole_file};
use crate::meta::{at_millis, signed_millis};
use crate::model::{joined, Disk, File};
use crate::multipart::{
    ended_already, part_answer, upload_resume, upload_start, writer_start, AbortView, CompleteView,
    UploadView, WriterTaskView,
};
use crate::path::{absolute_file, lemma_last_segment, valid_path};
use crate::put::PutResultView;
use crate::request::{ProgressView, ReplyView, RequestView};
use crate::tmp::{law_tmp_file_lies_beside, tmp_path, TmpFileView};
use vstd::prelude::*;

verus! {

/// All bytes of the parts of an upload, each of which comes in chunks.
pub open spec fn all_bytes(parts: Seq<Seq<Seq<u8>>>) -> Seq<u8>
    decreases parts.len(),
{
    if parts.len() == 0 {
        Seq::empty()
    } else {
        all_bytes(parts.drop_last()) + joined(parts.last())
    }
}

/// The task that writes `parts` to the temporary file `tmp`, on a disk whose
/// calls fail as `faults` says.
pub struct WriterRun {
    pub parts: Seq<Seq<Seq<u8>>>,
    pub tmp: Seq<char>,
    pub disk: Disk,
    pub faults: spec_fn(nat) -> Option<FileErrorView>,
}

/// The task, the disk, and how many parts have come in.
pub struct WriterState {
    pub progress: ProgressView<WriterTaskView, ()>,
    /// The answer that the task just gave to a part.
    pub answer: Option<Result<(), StoreErrorView>>,
    pub disk: Disk,
    pub received: nat,
}

impl WriterRun {
    /// The temporary file was just created.
    pub open spec fn begins(self) -> bool {
        &&& self.disk.has(self.tmp)
        &&& self.disk.writing == self.tmp
        &&& self.disk.files[self.tmp].content == Seq::<u8>::empty()
        &&& !self.disk.files[self.tmp].closed
    }

    /// The temporary file once it holds `content` and is closed.
    pub open spec fn file_with(self, content: Seq<u8>) -> File {
        File { content, modified: self.disk.files[self.tmp].modified, closed: true }
    }

    /// The temporary file while it holds `content` and is written to.
    pub open spec fn open_file_with(self, content: Seq<u8>) -> File {
        File { closed: false, ..self.file_with(content) }
    }

    /// The files of the disk once the temporary file holds `content` and is
    /// closed.
    pub open spec fn with_tmp(self, content: Seq<u8>) -> Map<Seq<char>, File> {
        self.disk.files.insert(self.tmp, self.file_with(content))
    }

    /// One call of the task.
    pub open spec fn step(self, state: WriterState, steps: nat) -> WriterState {
        match state.progress {
            ProgressView::Ended(_) => state,
            ProgressView::Pending(task) => if task.request() is ReceivePart {
                if state.received < self.parts.len() {
                    let chunks = self.parts[state.received as int].len();
                    let next = task.resume(ReplyView::Part { chunks });
                    WriterState {
                        progress: next.progress,
                        answer: next.answer,
                        disk: state.disk,
                        received: state.received + 1,
                    }
                } else {
                    let next = task.resume(ReplyView::NoMoreParts);
                    WriterState { progress: next.progress, answer: next.answer, ..state }
                }
            } else {
                let payload = self.parts[state.received - 1];
                let (disk, reply) = state.disk.call_or_fail(
                    task.request(),
                    payload,
                    (self.faults)(steps),
                );
                let next = task.resume(reply);
                WriterState {
                    progress: next.progress,
                    answer: next.answer,
                    disk,
                    received: state.received,
                }
            },
        }
    }

    /// The task and the disk after `steps` calls.
    pub open spec fn after(self, steps: nat) -> WriterState
        decreases steps,
    {
        if steps == 0 {
            WriterState {
                progress: ProgressView::Pending(writer_start()),
                answer: None,
                disk: self.disk,
                received: 0,
            }
        } else {
            self.step(self.after((steps - 1) as nat), (steps - 1) as nat)
        }
    }

    /// The temporary file holds what the task has written: all parts before
    /// the one that it is at, and the chunks of that one that it is done with.
    pub open spec fn holds_written(self, state: WriterState) -> bool {
        let received = state.received as int;
        let file = state.disk.files[self.tmp];
        &&& received <= self.parts.len()
        &&& state.disk.writing == self.tmp
        &&& state.disk.has(self.tmp)
        &&& file.modified == self.disk.files[self.tmp].modified
        &&& match state.progress {
            ProgressView::Ended(Ok(())) => file.closed,
            ProgressView::Ended(Err(_)) => true,
            ProgressView::Pending(_) => !file.closed,
        }
        &&& state.answer matches Some(Ok(_)) ==> received >= 1 && (
            state.progress matches ProgressView::Pending(WriterTaskView::Receiving))
        &&& match state.progress {
            ProgressView::Ended(Ok(())) => file.content == all_bytes(self.parts),
            ProgressView::Ended(Err(_)) => true,
            ProgressView::Pending(WriterTaskView::Receiving) => {
                file.content == all_bytes(self.parts.take(received))
            },
            ProgressView::Pending(WriterTaskView::Writing { written, chunks }) => {
                &&& 1 <= received
                &&& chunks == self.parts[received - 1].len()
                &&& written < chunks
                &&& file.content == all_bytes(self.parts.take(received - 1)) + joined(
                    self.parts[received - 1].take(written as int),
                )
            },
            ProgressView::Pending(WriterTaskView::Closing) => {
                file.content == all_bytes(self.parts)
            },
        }
    }

    spec fn consistent(self, state: WriterState) -> bool {
        &&& self.holds_written(state)
        &&& state.disk.files.remove(self.tmp) == self.disk.files.remove(self.tmp)
    }
}

proof fn lemma_all_bytes_take(parts: Seq<Seq<Seq<u8>>>, n: int)
    requires
        0 <= n < parts.len(),
    ensures
        all_bytes(parts.take(n + 1)) == all_bytes(parts.take(n)) + joined(parts[n]),
{
    assert(parts.take(n + 1).drop_last() == parts.take(n));
}

/// A call of the task keeps what the temporary file holds in step with the
/// task, and touches no other file.
pub proof fn lemma_step_writes_tmp(run: WriterRun, state: WriterState, steps: nat)
    requires
        run.holds_written(state),
    ensures
        run.holds_written(run.step(state, steps)),
        run.step(state, steps).disk.files.remove(run.tmp) == state.disk.files.remove(run.tmp),
        run.step(state, steps).disk == (Disk {
            files: run.step(state, steps).disk.files,
            ..state.disk
        }),
{
    let after = run.step(state, steps);
    let received = state.received as int;
    if let ProgressView::Pending(task) = state.progress {
        match task {
            WriterTaskView::Receiving => {
                if received < run.parts.len() {
                    let part = run.parts[received];
                    lemma_all_bytes_take(run.parts, received);
                    assert(part.take(0) == Seq::<Seq<u8>>::empty());
                    let before = all_bytes(run.parts.take(received));
                    assert(before + joined(part.take(0)) == before);
                    if part.len() == 0 {
                        assert(part.take(0) == part);
                    }
                } else {
                    assert(run.parts.take(received) == run.parts);
                }
            },
            WriterTaskView::Writing { written, chunks } => {
                let part = run.parts[received - 1];
                let before = all_bytes(run.parts.take(received - 1));
                let so_far = joined(part.take(written as int));
                assert(part.take(written as int + 1).drop_last() == part.take(written as int));
                if (run.faults)(steps) is None {
                    assert((before + so_far) + part[written as int] == before + (so_far
                        + part[written as int]));
                    if written + 1 == chunks {
                        assert(part.take(written as int + 1) == part);
                        lemma_all_bytes_take(run.parts, received - 1);
                    }
                }
            },
            WriterTaskView::Closing => {},
        }
    }
}

proof fn lemma_consistent(run: WriterRun, steps: nat)
    requires
        run.begins(),
    ensures
        run.consistent(run.after(steps)),
    decreases steps,
{
    if steps == 0 {
        assert(run.parts.take(0) == Seq::<Seq<Seq<u8>>>::empty());
    } else {
        lemma_consistent(run, (steps - 1) as nat);
        lemma_step_writes_tmp(run, run.after((steps - 1) as nat), (steps - 1) as nat);
    }
}

proof fn lemma_only_tmp_differs(run: WriterRun, files: Map<Seq<char>, File>)
    requires
        files.contains_key(run.tmp),
        files.remove(run.tmp) == run.disk.files.remove(run.tmp),
    ensures
        files == run.disk.files.insert(run.tmp, files[run.tmp]),
{
    let expected = run.disk.files.insert(run.tmp, files[run.tmp]);
    assert(files.remove(run.tmp).insert(run.tmp, files[run.tmp]) == files);
    assert(run.disk.files.remove(run.tmp).insert(run.tmp, files[run.tmp]) == expected);
}

/// The task touches nothing but its temporary file, whichever calls fail, and
/// where it ends well the file holds all bytes of all parts, in order.
pub proof fn law_writer_task_writes_parts(run: WriterRun, steps: nat)
    requires
        run.begins(),
    ensures
        run.after(steps).disk.files.remove(run.tmp) == run.disk.files.remove(run.tmp),
        run.after(steps).progress matches ProgressView::Ended(Ok(_)) ==> run.after(
            steps,
        ).disk.files == run.with_tmp(all_bytes(run.parts)),
{
    lemma_consistent(run, steps);
    lemma_only_tmp_differs(run, run.after(steps).disk.files);
}

/// A part that was answered well is written, with all parts before it.
pub proof fn law_answered_part_is_written(run: WriterRun, steps: nat)
    requires
        run.begins(),
    ensures
        ({
            let state = run.after(steps);
            state.answer matches Some(Ok(_)) ==> {
                &&& 1 <= state.received <= run.parts.len()
                &&& state.disk.files == run.disk.files.insert(
                    run.tmp,
                    run.open_file_with(all_bytes(run.parts.take(state.received as int))),
                )
            }
        }),
{
    lemma_consistent(run, steps);
    lemma_only_tmp_differs(run, run.after(steps).disk.files);
}

proof fn lemma_part_is_written(run: WriterRun, steps: nat) -> (end: nat)
    requires
        forall|n: nat| #[trigger] (run.faults)(n) is None,
        run.after(steps).progress matches ProgressView::Pending(
            WriterTaskView::Writing { written, chunks },
        ) && written < chunks,
    ensures
        run.after(end).progress == ProgressView::<WriterTaskView, ()>::Pending(
            WriterTaskView::Receiving,
        ),
        run.after(end).received == run.after(steps).received,
        run.after(end).answer == Some(Ok::<(), StoreErrorView>(())),
    decreases
            (run.after(steps).progress->Pending_0->Writing_chunks - run.after(
                steps,
            ).progress->Pending_0->Writing_written),
{
    assert((run.faults)(steps) is None);
    let task = run.after(steps).progress->Pending_0;
    if task->Writing_written + 1 < task->Writing_chunks {
        lemma_part_is_written(run, steps + 1)
    } else {
        steps + 1
    }
}

proof fn lemma_task_ends(run: WriterRun, steps: nat) -> (end: nat)
    requires
        forall|n: nat| #[trigger] (run.faults)(n) is None,
        run.after(steps).progress == ProgressView::<WriterTaskView, ()>::Pending(
            WriterTaskView::Receiving,
        ),
        run.after(steps).received <= run.parts.len(),
    ensures
        run.after(end).progress == ProgressView::<WriterTaskView, ()>::Ended(Ok(())),
    decreases run.parts.len() - run.after(steps).received,
{
    let received = run.after(steps).received;
    assert((run.faults)(steps + 1) is None);
    if received == run.parts.len() {
        assert(run.after(steps + 1).progress == ProgressView::<WriterTaskView, ()>::Pending(
            WriterTaskView::Closing,
        ));
        steps + 2
    } else if run.parts[received as int].len() == 0 {
        lemma_task_ends(run, steps + 1)
    } else {
        let written = lemma_part_is_written(run, steps + 1);
        lemma_task_ends(run, written)
    }
}

impl WriterRun {
    /// How many answers to parts the task has given in its first `steps` calls.
    pub open spec fn answered(self, steps: nat) -> nat
        decreases steps,
    {
        if steps == 0 {
            0
        } else {
            let before = (steps - 1) as nat;
            if self.after(before).progress is Pending && self.after(steps).answer is Some {
                self.answered(before) + 1
            } else {
                self.answered(before)
            }
        }
    }
}

/// Every part is answered once, and not before the task is done with it,
/// whichever calls fail: a task that waits for a part, closes its file or has
/// ended has given one answer for each part that came in; a task that writes has
/// given one for each but the part that it is at.
pub proof fn law_parts_are_answered_once(run: WriterRun, steps: nat)
    ensures
        ({
            let (state, answered) = (run.after(steps), run.answered(steps));
            match state.progress {
                ProgressView::Ended(_) => answered == state.received,
                ProgressView::Pending(task) => if task.request() is Write {
                    answered + 1 == state.received
                } else {
                    answered == state.received
                },
            }
        }),
    decreases steps,
{
    if steps > 0 {
        law_parts_are_answered_once(run, (steps - 1) as nat);
    }
}

/// What a part is answered: a part whose chunks are all written is answered well
/// by the call that writes the last one, or when it comes in where it has none. A
/// part of which a chunk cannot be written is answered with the error of that
/// call, and the task ends.
pub proof fn law_part_is_answered_as_written(run: WriterRun, steps: nat)
    requires
        run.begins(),
        run.after(steps).progress is Pending,
    ensures
        ({
            let (state, next) = (run.after(steps), run.after(steps + 1));
            let fault = (run.faults)(steps);
            match state.progress->Pending_0.request() {
                RequestView::ReceivePart => if state.received < run.parts.len() {
                    let chunks = run.parts[state.received as int].len();
                    &&& next.received == state.received + 1
                    &&& next.progress matches ProgressView::Pending(task)
                    &&& if chunks == 0 {
                        &&& next.answer == Some(Ok::<(), StoreErrorView>(()))
                        &&& task.request() is ReceivePart
                    } else {
                        &&& next.answer is None
                        &&& task.request() == (RequestView::Write { chunk: 0 })
                    }
                } else {
                    &&& next.answer is None
                    &&& next.progress matches ProgressView::Pending(task)
                    &&& task.request() is Close
                },
                RequestView::Write { chunk } => {
                    let chunks = run.parts[state.received - 1].len();
                    &&& 1 <= state.received <= run.parts.len()
                    &&& chunk < chunks
                    &&& next.received == state.received
                    &&& match fault {
                        Some(e) => {
                            &&& next.answer == Some(
                                Err::<(), StoreErrorView>(object_store_err(e)),
                            )
                            &&& next.progress == ProgressView::<WriterTaskView, ()>::Ended(
                                Err(
                                    StoreErrorView::Generic {
                                        store: "HFDS"@,
                                        source: ErrorSourceView::Message(
                                            "Failed to write all parts"@,
                                        ),
                                    },
                                ),
                            )
                        },
                        None => if chunk + 1 < chunks {
                            &&& next.answer is None
                            &&& next.progress matches ProgressView::Pending(task)
                            &&& task.request() == (RequestView::Write { chunk: chunk + 1 })
                        } else {
                            &&& next.answer == Some(Ok::<(), StoreErrorView>(()))
                            &&& next.progress matches ProgressView::Pending(task)
                            &&& task.request() is ReceivePart
                        },
                    }
                },
                RequestView::Close => {
                    &&& next.answer is None
                    &&& next.progress == ProgressView::<WriterTaskView, ()>::Ended(
                        match fault {
                            Some(e) => Err(object_store_err(e)),
                            None => Ok(()),
                        },
                    )
                },
                _ => false,
            }
        }),
{
    lemma_consistent(run, steps);
}

proof fn lemma_answer_comes(run: WriterRun, n: nat) -> (steps: nat)
    requires
        forall|n: nat| #[trigger] (run.faults)(n) is None,
        n <= run.parts.len(),
    ensures
        run.after(steps).progress == ProgressView::<WriterTaskView, ()>::Pending(
            WriterTaskView::Receiving,
        ),
        run.after(steps).received == n,
        n > 0 ==> steps > 0 && run.after(steps).answer == Some(Ok::<(), StoreErrorView>(())),
    decreases n,
{
    if n == 0 {
        0
    } else {
        let before = lemma_answer_comes(run, (n - 1) as nat);
        if run.parts[n - 1].len() == 0 {
            before + 1
        } else {
            assert(run.after(before + 1).received == n);
            let end = lemma_part_is_written(run, before + 1);
            if end == 0 {
                assert(run.after(0).received == 0);
            }
            end
        }
    }
}

/// Every part is answered well in time, where the disk fails no call: for each
/// number of parts there is a call after which that many have come in and the
/// last of them is answered.
pub proof fn law_every_part_is_answered(run: WriterRun, n: nat) -> (steps: nat)
    requires
        forall|n: nat| #[trigger] (run.faults)(n) is None,
        1 <= n <= run.parts.len(),
    ensures
        run.after(steps).received == n,
        run.after(steps).answer == Some(Ok::<(), StoreErrorView>(())),
        run.answered(steps) == n,
{
    let steps = lemma_answer_comes(run, n);
    law_parts_are_answered_once(run, steps);
    steps
}

/// A task that ends in error was failed by the disk: by the call that it made
/// last.
pub proof fn law_writer_task_error_has_cause(run: WriterRun, steps: nat)
    requires
        run.after(steps).progress matches ProgressView::Ended(Err(_)),
    ensures
        exists|n: nat| n < steps && #[trigger] (run.faults)(n) is Some,
    decreases steps,
{
    if steps > 0 {
        let before = (steps - 1) as nat;
        if run.after(before).progress is Ended {
            law_writer_task_error_has_cause(run, before);
        } else {
            assert((run.faults)(before) is Some);
        }
    }
}

/// The task ends well where the disk fails no call.
pub proof fn law_writer_task_ends(run: WriterRun) -> (steps: nat)
    requires
        run.begins(),
        forall|n: nat| #[trigger] (run.faults)(n) is None,
    ensures
        run.after(steps).progress == ProgressView::<WriterTaskView, ()>::Ended(Ok(())),
        run.after(steps).disk.files == run.with_tmp(all_bytes(run.parts)),
{
    let steps = lemma_task_ends(run, 0);
    law_writer_task_writes_parts(run, steps);
    steps
}

/// What completing an upload ends with on a disk, after the task ended as
/// `task` says, and the disk then.
pub open spec fn complete_on(
    disk: Disk,
    upload: UploadView,
    task: Result<Result<(), StoreErrorView>, tokio::task::JoinError>,
    fault: Option<FileErrorView>,
) -> (Result<PutResultView, StoreErrorView>, Disk) {
    match upload.complete() {
        ProgressView::Ended(r) => (r, disk),
        ProgressView::Pending(joining) => match joining.resume(ReplyView::TaskEnded(task)) {
            ProgressView::Ended(r) => (r, disk),
            ProgressView::Pending(renaming) => {
                let (disk, reply) = disk.call_or_fail(renaming.request(), Seq::empty(), fault);
                match renaming.resume(reply) {
                    ProgressView::Ended(r) => (r, disk),
                    ProgressView::Pending(_) => arbitrary(),
                }
            },
        },
    }
}

/// An object is touched by an upload only when the upload is completed, all
/// parts are written, and the file is renamed: completing it then puts all
/// bytes of all parts in the place of the object, and replaces what was there.
/// In any other case the disk stays as it is, and the upload ends in error.
pub proof fn law_completed_upload_is_whole(
    run: WriterRun,
    steps: nat,
    upload: UploadView,
    fault: Option<FileErrorView>,
)
    requires
        run.begins(),
        upload.tmp_filename == run.tmp,
        upload.final_filename != run.tmp,
        run.after(steps).progress is Ended,
    ensures
        ({
            let disk = run.after(steps).disk;
            let task = run.after(steps).progress->Ended_0;
            let (result, after) = complete_on(disk, upload, Ok(task), fault);
            let modified = run.disk.files[run.tmp].modified;
            if upload.open && task is Ok && fault is None {
                &&& result == Ok::<PutResultView, StoreErrorView>(
                    PutResultView { e_tag: None, version: None },
                )
                &&& after.files == run.disk.files.remove(run.tmp).insert(
                    upload.final_filename,
                    File { content: all_bytes(run.parts), modified, closed: true },
                )
            } else {
                result is Err && after == disk
            }
        }),
{
    law_writer_task_writes_parts(run, steps);
    let disk = run.after(steps).disk;
    if upload.open && run.after(steps).progress->Ended_0 is Ok && fault is None {
        let modified = run.disk.files[run.tmp].modified;
        let after = complete_on(disk, upload, Ok(run.after(steps).progress->Ended_0), fault).1;
        assert(after.files == run.disk.files.remove(run.tmp).insert(
            upload.final_filename,
            File { content: all_bytes(run.parts), modified, closed: true },
        ));
    }
}

/// A read gives back what a completed upload wrote: all bytes of all parts, in
/// order.
pub proof fn law_get_returns_what_upload_wrote(
    run: WriterRun,
    steps: nat,
    upload: UploadView,
    location: Seq<char>,
)
    requires
        run.begins(),
        run.after(steps).progress matches ProgressView::Ended(Ok(_)),
        upload.open,
        upload.tmp_filename == run.tmp,
        upload.final_filename == absolute_file(location),
        upload.final_filename != run.tmp,
        valid_path(location),
        all_bytes(run.parts).len() <= usize::MAX,
        at_millis(signed_millis(run.disk.files[run.tmp].modified)).in_range(),
    ensures
        ({
            let disk = run.after(steps).disk;
            let task = run.after(steps).progress->Ended_0;
            let after = complete_on(disk, upload, Ok(task), None).1;
            let (result, bytes) = get_on(after, location, unconditional(false));
            &&& result matches Ok(got)
            &&& got.meta.size == all_bytes(run.parts).len()
            &&& bytes == all_bytes(run.parts)
        }),
{
    law_completed_upload_is_whole(run, steps, upload, None);
    let disk = run.after(steps).disk;
    let after = complete_on(disk, upload, Ok(run.after(steps).progress->Ended_0), None).1;
    law_get_reads_whole_file(after, location);
}

/// Aborting an upload deletes its temporary file and touches nothing else.
pub proof fn law_aborted_upload_leaves_nothing(disk: Disk, upload: UploadView)
    requires
        upload.open,
    ensures
        upload.abort() matches ProgressView::Pending(stopping)
            && stopping.request() == RequestView::AbortTask
            && (stopping.resume(ReplyView::Done) matches ProgressView::Pending(deleting) && {
            let (after, reply) = disk.call(deleting.request(), Seq::empty());
            &&& deleting.resume(reply) == ProgressView::<AbortView, ()>::Ended(Ok(()))
            &&& after.files == disk.files.remove(upload.tmp_filename)
        }),
{
}

/// An upload ends once: after it was completed or aborted, it takes no more
/// parts, and it cannot be completed or aborted again.
pub proof fn law_upload_ends_once(upload: UploadView)
    ensures
        upload.closed().put_part() is Err,
        upload.closed().complete() == ProgressView::<CompleteView, PutResultView>::Ended(
            Err(ended_already()),
        ),
        upload.closed().abort() == ProgressView::<AbortView, ()>::Ended(Err(ended_already())),
        upload.closed().closed() == upload.closed(),
{
}

/// What completing an upload ends with: where all is well, success without an
/// ETag; the error of a task that failed, or that could not be joined; the error
/// of a rename that failed; or that the upload was ended before.
pub proof fn law_complete_results(
    disk: Disk,
    upload: UploadView,
    task: Result<Result<(), StoreErrorView>, tokio::task::JoinError>,
    fault: Option<FileErrorView>,
)
    requires
        disk.has(upload.tmp_filename),
    ensures
        ({
            let (result, after) = complete_on(disk, upload, task, fault);
            &&& result == (if !upload.open {
                Err::<PutResultView, StoreErrorView>(
                    StoreErrorView::Generic {
                        store: "HFDS"@,
                        source: ErrorSourceView::Message(
                            "Cannot call abort or complete multiple times"@,
                        ),
                    },
                )
            } else {
                match (task, fault) {
                    (Err(e), _) => Err(StoreErrorView::JoinError(e)),
                    (Ok(Err(e)), _) => Err(e),
                    (Ok(Ok(_)), Some(e)) => Err(object_store_err(e)),
                    (Ok(Ok(_)), None) => Ok(PutResultView { e_tag: None, version: None }),
                }
            })
            &&& result is Err ==> after == disk
            &&& result is Ok ==> after.files == disk.files.remove(upload.tmp_filename).insert(
                upload.final_filename,
                disk.files[upload.tmp_filename],
            )
        }),
{
}

/// What aborting an upload ends with where the deletion fails: the error of that
/// call.
pub proof fn law_failed_abort(upload: UploadView, e: FileErrorView)
    requires
        upload.open,
    ensures
        upload.abort() matches ProgressView::Pending(stopping)
            && (stopping.resume(ReplyView::Done) matches ProgressView::Pending(deleting)
            && deleting.request() == (RequestView::Delete {
            path: upload.tmp_filename,
            recursive: false,
        }) && deleting.resume(ReplyView::Failed(e)) == ProgressView::<AbortView, ()>::Ended(
            Err(object_store_err(e)),
        )),
{
}

/// What a part is answered before it is handed to the task: nothing while the
/// upload is open, and an error afterwards.
pub proof fn law_parts_are_taken_while_open(upload: UploadView)
    ensures
        upload.put_part() == (if upload.open {
            Ok::<(), StoreErrorView>(())
        } else {
            Err(
                StoreErrorView::Generic {
                    store: "HFDS"@,
                    source: ErrorSourceView::Message(
                        "Cannot put part after completing or aborting"@,
                    ),
                },
            )
        }),
{
}

/// The caller of a part gets the answer of the task as it is, and an error where
/// the task is gone without one.
pub proof fn law_answer_is_handed_on(answer: Result<(), StoreErrorView>)
    ensures
        part_answer(Some(answer)) == answer,
        part_answer(None) == Err::<(), StoreErrorView>(
            StoreErrorView::Generic {
                store: "HFDS"@,
                source: ErrorSourceView::Message("Write task failed"@),
            },
        ),
{
}

/// The start of an upload to `location`, on a disk whose calls fail as `faults`
/// says.
pub struct StartRun {
    pub location: Seq<char>,
    pub disk: Disk,
    pub faults: spec_fn(nat) -> Option<FileErrorView>,
}

impl StartRun {
    pub open spec fn file(self) -> Seq<char> {
        absolute_file(self.location)
    }

    /// The search for a temporary file and the disk after `steps` calls.
    pub open spec fn after(self, steps: nat) -> (ProgressView<TmpFileView, UploadView>, Disk)
        decreases steps,
    {
        if steps == 0 {
            (upload_start(self.location), self.disk)
        } else {
            let (progress, disk) = self.after((steps - 1) as nat);
            match progress {
                ProgressView::Ended(_) => (progress, disk),
                ProgressView::Pending(tmp) => {
                    let (disk, reply) = disk.call_or_fail(
                        tmp.request(),
                        Seq::empty(),
                        (self.faults)((steps - 1) as nat),
                    );
                    (upload_resume(tmp, reply), disk)
                },
            }
        }
    }

    /// The upload that is written to the temporary file with this index.
    pub open spec fn upload(self, index: nat) -> UploadView {
        UploadView {
            tmp_filename: tmp_path(self.file(), index),
            final_filename: self.file(),
            open: true,
        }
    }

    /// The disk with the temporary file of this index, new and empty, and open
    /// for writing.
    pub open spec fn with_new_file(self, index: nat) -> Disk {
        let tmp = tmp_path(self.file(), index);
        let file = File { content: Seq::empty(), modified: self.disk.now, closed: false };
        Disk { files: self.disk.files.insert(tmp, file), writing: tmp, ..self.disk }
    }

    /// The start ended well with the temporary file of this index.
    pub open spec fn started(
        self,
        progress: ProgressView<TmpFileView, UploadView>,
        disk: Disk,
        index: nat,
    ) -> bool {
        &&& progress == ProgressView::<TmpFileView, UploadView>::Ended(Ok(self.upload(index)))
        &&& index >= 1
        &&& !self.disk.has(tmp_path(self.file(), index))
        &&& tmp_path(self.file(), index) != self.file()
        &&& disk == self.with_new_file(index)
    }
}

/// The start of an upload that ends well adds one file to the disk, a temporary
/// file that was not there before, empty and open for writing, and changes no
/// other file. Otherwise it leaves the disk as it is.
pub proof fn law_upload_start_adds_one_file(run: StartRun, steps: nat)
    ensures
        ({
            let (progress, disk) = run.after(steps);
            match progress {
                ProgressView::Ended(Ok(_)) => exists|index: nat| #[trigger]
                    run.started(progress, disk, index),
                ProgressView::Ended(Err(_)) => disk == run.disk,
                ProgressView::Pending(tmp) => {
                    disk == run.disk && tmp.file == run.file() && tmp.index >= 1
                },
            }
        }),
    decreases steps,
{
    if steps > 0 {
        let before = (steps - 1) as nat;
        law_upload_start_adds_one_file(run, before);
        if let ProgressView::Pending(tmp) = run.after(before).0 {
            lemma_last_segment(run.file());
            assert(run.file()[0] == '/');
            law_tmp_file_lies_beside(run.file(), tmp.index);
            let (progress, disk) = run.after(steps);
            if progress matches ProgressView::Ended(Ok(_)) {
                assert(run.started(progress, disk, tmp.index));
            }
        }
    }
}

proof fn lemma_search_goes_on(run: StartRun, tries: nat)
    requires
        forall|n: nat| #[trigger] (run.faults)(n) is None,
        run.location.len() > 0,
        forall|i: nat| 1 <= i <= tries ==> run.disk.has(#[trigger] tmp_path(run.file(), i)),
    ensures
        run.after(tries) == (
            ProgressView::<TmpFileView, UploadView>::Pending(
                TmpFileView { file: run.file(), index: tries + 1 },
            ),
            run.disk,
        ),
    decreases tries,
{
    if tries > 0 {
        let before = (tries - 1) as nat;
        lemma_search_goes_on(run, before);
        assert((run.faults)(before) is None);
        assert(run.disk.has(tmp_path(run.file(), tries)));
    }
}

/// An upload starts well where the disk fails no call, and it is written to the
/// first temporary file that does not exist yet.
pub proof fn law_upload_takes_first_free_file(run: StartRun, free: nat)
    requires
        forall|n: nat| #[trigger] (run.faults)(n) is None,
        run.location.len() > 0,
        free >= 1,
        !run.disk.has(tmp_path(run.file(), free)),
        forall|i: nat| 1 <= i < free ==> run.disk.has(#[trigger] tmp_path(run.file(), i)),
    ensures
        run.after(free) == (
            ProgressView::<TmpFileView, UploadView>::Ended(Ok(run.upload(free))),
            run.with_new_file(free),
        ),
{
    let before = (free - 1) as nat;
    lemma_search_goes_on(run, before);
    assert((run.faults)(before) is None);
}

impl StartRun {
    /// The answer to the call that the start waits for after `steps` calls.
    pub open spec fn reply(self, steps: nat) -> ReplyView {
        let (progress, disk) = self.after(steps);
        disk.call_or_fail(progress->Pending_0.request(), Seq::empty(), (self.faults)(steps)).1
    }
}

/// An upload cannot start at the root. A failed call ends the start of an upload
/// with its error, unless it says that the temporary file exists already: then
/// the next one is tried.
pub proof fn law_failed_upload_start(run: StartRun, steps: nat)
    ensures
        run.location.len() == 0 ==> run.after(steps).0 == ProgressView::<
            TmpFileView,
            UploadView,
        >::Ended(Err(object_store_err(FileErrorView::InvalidPath("path missing filename"@)))),
        run.after(steps).0 is Pending ==> run.after(steps).0->Pending_0.request() == (
        RequestView::Create {
            path: tmp_path(run.file(), (steps + 1) as nat),
            overwrite: false,
        }),
        run.after(steps).0 is Pending ==> (run.reply(steps) matches ReplyView::Failed(e) ==> {
            let next = run.after(steps + 1).0;
            if e is AlreadyExists {
                next is Pending
            } else {
                next == ProgressView::<TmpFileView, UploadView>::Ended(Err(object_store_err(e)))
            }
        }),
    decreases steps,
{
    if steps > 0 {
        law_failed_upload_start(run, (steps - 1) as nat);
        lemma_index_is_count(run, (steps - 1) as nat);
    }
    lemma_index_is_count(run, steps);
}

proof fn lemma_index_is_count(run: StartRun, steps: nat)
    ensures
        run.after(steps).0 matches ProgressView::Pending(tmp) ==> tmp == (TmpFileView {
            file: run.file(),
            index: steps + 1,
        }),
    decreases steps,
{
    if steps > 0 {
        lemma_index_is_count(run, (steps - 1) as nat);
    }
}

/// An upload that started well can be written: its temporary file is there, open
/// and empty, and is not the object.
pub proof fn law_started_upload_can_be_written(
    run: StartRun,
    steps: nat,
    parts: Seq<Seq<Seq<u8>>>,
    faults: spec_fn(nat) -> Option<FileErrorView>,
)
    requires
        run.after(steps).0 matches ProgressView::Ended(Ok(_)),
    ensures
        ({
            let upload = run.after(steps).0->Ended_0->Ok_0;
            let writer = WriterRun {
                parts,
                tmp: upload.tmp_filename,
                disk: run.after(steps).1,
                faults,
            };
            &&& writer.begins()
            &&& upload.open
            &&& upload.final_filename == absolute_file(run.location)
            &&& upload.tmp_filename != upload.final_filename
        }),
{
    law_upload_start_adds_one_file(run, steps);
}

/// Completing an upload waits for its task first, and then puts the temporary
/// file in the place of the object, whatever is there.
pub proof fn law_complete_joins_then_renames(upload: UploadView)
    requires
        upload.open,
    ensures
        upload.complete() matches ProgressView::Pending(joining) && joining.request()
            == RequestView::JoinTask && (joining.resume(ReplyView::TaskEnded(Ok(Ok(()))))
            matches ProgressView::Pending(renaming) && renaming.request() == (
        RequestView::Rename {
            from: upload.tmp_filename,
            to: upload.final_filename,
            overwrite: true,
        })),
{
}

} // verus!
