//! What a copy does to a disk.

use crate::conditions::unconditional;
use crate::copy::{copy_start, CopyJob, CopyMode, CopyView};
use crate::error::{object_store_err, FileErrorView};
use crate::get_laws::{get_on, law_get_reads_whole_file, readable};
use crate::meta::{at_millis, signed_millis};
use crate::model::{Disk, File};
use crate::path::{absolute_file, valid_path};
use crate::request::{ProgressView, ReplyView, RequestView};
use vstd::prelude::*;

verus! {

/// A copy of `from` to `to`, on a disk whose calls fail as `faults` says.
pub struct CopyRun {
    pub from: Seq<char>,
    pub to: Seq<char>,
    pub mode: CopyMode,
    pub disk: Disk,
    pub faults: spec_fn(nat) -> Option<FileErrorView>,
}

impl CopyRun {
    pub open spec fn source(self) -> Seq<char> {
        absolute_file(self.from)
    }

    pub open spec fn target(self) -> Seq<char> {
        absolute_file(self.to)
    }

    /// The copy and the disk after `steps` calls.
    pub open spec fn after(self, steps: nat) -> (ProgressView<CopyView, ()>, Disk)
        decreases steps,
    {
        if steps == 0 {
            (ProgressView::Pending(copy_start(self.from, self.to, self.mode)), self.disk)
        } else {
            let (progress, disk) = self.after((steps - 1) as nat);
            match progress {
                ProgressView::Ended(_) => (progress, disk),
                ProgressView::Pending(op) => {
                    let (disk, reply) = disk.call_or_fail(
                        op.request(),
                        Seq::empty(),
                        (self.faults)((steps - 1) as nat),
                    );
                    (op.resume(reply), disk)
                },
            }
        }
    }

    /// The answer to the call that the copy waits for after `steps` calls.
    pub open spec fn reply(self, steps: nat) -> ReplyView {
        let (progress, disk) = self.after(steps);
        disk.call_or_fail(progress->Pending_0.request(), Seq::empty(), (self.faults)(steps)).1
    }

    /// The files of the disk once the copy holds `content` and is closed.
    pub open spec fn with_copy(self, content: Seq<u8>) -> Map<Seq<char>, File> {
        self.disk.files.insert(
            self.target(),
            File { content, modified: self.disk.now, closed: true },
        )
    }

    /// The files of the disk while the copy holds `content` and is written to.
    spec fn with_open_copy(self, content: Seq<u8>) -> Map<Seq<char>, File> {
        self.disk.files.insert(
            self.target(),
            File { content, modified: self.disk.now, closed: false },
        )
    }

    /// The disk has what it had, but for the place of the copy.
    pub open spec fn others_stay(self, disk: Disk) -> bool {
        disk.files.remove(self.target()) == self.disk.files.remove(self.target())
    }

    /// No object that exists is in the way.
    pub open spec fn allowed(self) -> bool {
        self.mode is Overwrite || !self.disk.has(self.target())
    }

    /// What the copied object holds.
    pub open spec fn content(self) -> Seq<u8> {
        self.disk.files[self.source()].content
    }

    spec fn consistent(self, progress: ProgressView<CopyView, ()>, disk: Disk) -> bool {
        let begun = self.allowed() && self.disk.has(self.source()) && disk.writing == self.target();
        &&& disk.now == self.disk.now
        &&& match progress {
            ProgressView::Ended(Ok(())) => {
                &&& self.allowed()
                &&& self.disk.has(self.source())
                &&& disk.files == self.with_copy(self.content())
            },
            ProgressView::Ended(Err(_)) => {
                self.others_stay(disk) && (self.allowed() || disk.files == self.disk.files)
            },
            ProgressView::Pending(op) => match op {
                CopyView::Checking { job } => {
                    self.is_job(job) && disk.files == self.disk.files
                },
                CopyView::Opening { job } => {
                    self.is_job(job) && disk.files == self.disk.files
                },
                CopyView::Streaming { job, length } => {
                    &&& self.is_job(job)
                    &&& disk.files == self.disk.files
                    &&& self.disk.has(self.source())
                    &&& disk.opened == self.content()
                    &&& length == self.content().len()
                },
                CopyView::Creating { job } => {
                    &&& self.is_job(job)
                    &&& disk.files == self.disk.files
                    &&& self.disk.has(self.source())
                    &&& disk.stream == self.content()
                },
                CopyView::Reading { job } => {
                    &&& self.is_job(job)
                    &&& begun
                    &&& self.copied_before(disk, disk.stream)
                },
                CopyView::Writing { job } => {
                    &&& self.is_job(job)
                    &&& begun
                    &&& self.copied_before(disk, disk.read + disk.stream)
                },
                CopyView::Closing { job } => {
                    &&& self.is_job(job)
                    &&& begun
                    &&& disk.files == self.with_open_copy(self.content())
                },
            },
        }
    }

    spec fn is_job(self, job: CopyJob) -> bool {
        job == CopyJob { from: self.from, to: self.to, overwrite: self.mode is Overwrite }
    }

    /// The copy holds what comes before `rest` in the object.
    spec fn copied_before(self, disk: Disk, rest: Seq<u8>) -> bool {
        let done = disk.files[self.target()].content;
        disk.files == self.with_open_copy(done) && done + rest == self.content()
    }
}

proof fn lemma_step_keeps_consistent(
    run: CopyRun,
    op: CopyView,
    disk: Disk,
    fault: Option<FileErrorView>,
)
    requires
        run.consistent(ProgressView::Pending(op), disk),
    ensures
        ({
            let (after, reply) = disk.call_or_fail(op.request(), Seq::empty(), fault);
            run.consistent(op.resume(reply), after)
        }),
{
    let (after, reply) = disk.call_or_fail(op.request(), Seq::empty(), fault);
    assert(run.with_open_copy(disk.files[run.target()].content).remove(run.target())
        == run.disk.files.remove(run.target()));
    assert(run.with_open_copy(run.content()).remove(run.target()) == run.disk.files.remove(
        run.target(),
    ));
    if fault is None {
        match op {
            CopyView::Streaming { .. } => {
                assert(run.content().subrange(0, run.content().len() as int) == run.content());
            },
            CopyView::Creating { .. } => {
                assert(after.files == run.with_open_copy(Seq::empty()) || after.files
                    == disk.files);
                assert(Seq::<u8>::empty() + disk.stream == disk.stream);
            },
            CopyView::Reading { .. } => {
                if disk.stream.len() == 0 {
                    let done = disk.files[run.target()].content;
                    assert(done + disk.stream == done);
                } else {
                    assert(after.read + after.stream == disk.stream);
                }
            },
            CopyView::Writing { .. } => {
                let done = disk.files[run.target()].content;
                assert(after.files == run.with_open_copy(done + disk.read));
                assert((done + disk.read) + disk.stream == done + (disk.read + disk.stream));
            },
            CopyView::Closing { .. } => {
                assert(after.files == run.with_copy(run.content()));
            },
            _ => {},
        }
    }
}

proof fn lemma_consistent(run: CopyRun, steps: nat)
    ensures
        run.consistent(run.after(steps).0, run.after(steps).1),
    decreases steps,
{
    if steps > 0 {
        let before = (steps - 1) as nat;
        lemma_consistent(run, before);
        let (progress, disk) = run.after(before);
        if let ProgressView::Pending(op) = progress {
            lemma_step_keeps_consistent(run, op, disk, (run.faults)(before));
        }
    }
}

/// A copy that ends well is whole: its place holds what the object holds,
/// nothing else has changed on the disk, and no object was replaced that the
/// mode protects. A copy of an object to its own place is another matter: the
/// object is open for reading while it is written anew.
pub proof fn law_copy_success_means_copied(run: CopyRun, steps: nat)
    requires
        run.from != run.to,
    ensures
        run.after(steps).0 matches ProgressView::Ended(Ok(())) ==> {
            &&& run.allowed()
            &&& run.disk.has(run.source())
            &&& run.after(steps).1.files == run.with_copy(run.content())
        },
{
    lemma_consistent(run, steps);
}

/// A copy changes nothing on the disk but its own place, whichever calls fail
/// and however far it has come.
pub proof fn law_copy_touches_only_its_place(run: CopyRun, steps: nat)
    ensures
        run.others_stay(run.after(steps).1),
{
    lemma_consistent(run, steps);
    let files = run.after(steps).1.files;
    let (content, done) = (run.content(), files[run.target()].content);
    assert(run.with_copy(content).remove(run.target()) == run.disk.files.remove(run.target()));
    assert(run.with_open_copy(content).remove(run.target()) == run.disk.files.remove(
        run.target(),
    ));
    assert(run.with_open_copy(done).remove(run.target()) == run.disk.files.remove(run.target()));
}

/// A copy in the mode for new objects never changes an object that exists at
/// its place, nor anything else then, whichever calls fail.
pub proof fn law_copy_create_keeps_existing(run: CopyRun, steps: nat)
    requires
        run.mode is Create,
        run.disk.has(run.target()),
    ensures
        run.after(steps).1.files == run.disk.files,
{
    lemma_consistent(run, steps);
}

/// No call fails but as the disk has it.
pub open spec fn quiet(run: CopyRun) -> bool {
    forall|n: nat| #[trigger] (run.faults)(n) is None
}

proof fn lemma_stream_is_copied(run: CopyRun, steps: nat) -> (end: nat)
    requires
        quiet(run),
        run.disk.chunk_size >= 1,
        run.after(steps).1.chunk_size == run.disk.chunk_size,
        run.after(steps).0 matches ProgressView::Pending(CopyView::Reading { .. }),
    ensures
        run.after(end).0 == ProgressView::<CopyView, ()>::Ended(Ok(())),
    decreases run.after(steps).1.stream.len(),
{
    let disk = run.after(steps).1;
    assert((run.faults)(steps) is None);
    assert((run.faults)(steps + 1) is None);
    if disk.stream.len() == 0 {
        assert(run.after(steps + 1).0 matches ProgressView::Pending(CopyView::Closing { .. }));
        steps + 2
    } else {
        assert(run.after(steps + 1).0 matches ProgressView::Pending(CopyView::Writing { .. }));
        assert(run.after(steps + 2).0 matches ProgressView::Pending(CopyView::Reading { .. }));
        lemma_stream_is_copied(run, steps + 2)
    }
}

/// A copy to another place ends well where nothing stands in its way: the disk
/// fails no call, has the object, and has no object at the place of the copy
/// that the mode protects.
pub proof fn law_copy_copies(run: CopyRun) -> (steps: nat)
    requires
        quiet(run),
        run.from != run.to,
        run.disk.chunk_size >= 1,
        run.disk.has(run.source()),
        run.allowed(),
    ensures
        run.after(steps).0 == ProgressView::<CopyView, ()>::Ended(Ok(())),
        run.after(steps).1.files == run.with_copy(run.content()),
{
    let opening: nat = if run.mode is Create {
        1
    } else {
        0
    };
    let job = CopyJob { from: run.from, to: run.to, overwrite: run.mode is Overwrite };
    assert((run.faults)(0) is None);
    assert((run.faults)(opening) is None);
    assert((run.faults)(opening + 1) is None);
    assert((run.faults)(opening + 2) is None);
    assert(run.after(0).1 == run.disk);
    assert(run.after(opening) == (
        ProgressView::<CopyView, ()>::Pending(CopyView::Opening { job }),
        run.disk,
    ));
    let length = run.content().len();
    assert(run.after(opening + 1).0 == ProgressView::<CopyView, ()>::Pending(
        CopyView::Streaming { job, length },
    ));
    assert(run.after(opening + 2).0 == ProgressView::<CopyView, ()>::Pending(
        CopyView::Creating { job },
    ));
    assert(run.after(opening + 3).0 == ProgressView::<CopyView, ()>::Pending(
        CopyView::Reading { job },
    ));
    let steps = lemma_stream_is_copied(run, opening + 3);
    lemma_consistent(run, steps);
    steps
}

/// A read of a copy that ended well, whichever calls failed on its way, gives
/// back what the copied object holds.
pub proof fn law_get_of_copy_is_get_of_original(run: CopyRun, steps: nat)
    requires
        run.from != run.to,
        run.after(steps).0 matches ProgressView::Ended(Ok(())),
        readable(run.disk, run.from),
        valid_path(run.to),
        at_millis(signed_millis(run.disk.now)).in_range(),
    ensures
        ({
            let (result, bytes) = get_on(run.after(steps).1, run.to, unconditional(false));
            &&& result is Ok
            &&& bytes == get_on(run.disk, run.from, unconditional(false)).1
        }),
{
    law_copy_success_means_copied(run, steps);
    law_get_reads_whole_file(run.disk, run.from);
    law_get_reads_whole_file(run.after(steps).1, run.to);
}

/// What a copy is answered where an object at its place is in the way, or
/// where the object does not exist; it changes nothing then.
pub proof fn law_copy_refusals(run: CopyRun)
    requires
        quiet(run),
    ensures
        !run.allowed() ==> run.after(2) == (
            ProgressView::<CopyView, ()>::Ended(
                Err(object_store_err(FileErrorView::AlreadyExists(run.target()))),
            ),
            run.disk,
        ),
        run.allowed() && !run.disk.has(run.source()) ==> run.after(2) == (
            ProgressView::<CopyView, ()>::Ended(
                Err(object_store_err(FileErrorView::FileNotFound(run.source()))),
            ),
            run.disk,
        ),
{
    assert((run.faults)(0) is None);
    assert((run.faults)(1) is None);
    let job = CopyJob { from: run.from, to: run.to, overwrite: run.mode is Overwrite };
    assert(run.after(0).1 == run.disk);
    if run.mode is Create && run.allowed() {
        assert(run.after(1) == (
            ProgressView::<CopyView, ()>::Pending(CopyView::Opening { job }),
            run.disk,
        ));
    } else {
        assert(run.after(1).1 == run.disk || run.disk.has(run.source()));
    }
}

proof fn lemma_look_is_first(run: CopyRun, steps: nat)
    ensures
        run.after(steps).0 matches ProgressView::Pending(CopyView::Checking { .. }) ==> steps == 0
            && run.mode is Create,
    decreases steps,
{
    if steps > 0 {
        lemma_look_is_first(run, (steps - 1) as nat);
    }
}

/// A failed call ends a copy with its error, but for one: the first look in the
/// mode for new objects is to find nothing.
pub proof fn law_failed_call_ends_copy(run: CopyRun, steps: nat)
    requires
        run.after(steps).0 is Pending,
        run.reply(steps) is Failed,
    ensures
        run.after(steps + 1).0 == ProgressView::<CopyView, ()>::Ended(
            Err(object_store_err(run.reply(steps)->Failed_0)),
        ) || (run.mode is Create && steps == 0 && run.reply(steps)->Failed_0 is FileNotFound),
{
    lemma_look_is_first(run, steps);
}

/// A copy that ends in error has a reason for it: an object is at its place that
/// the mode protects, or a call failed, and the error is that of the call.
pub proof fn law_copy_error_has_cause(run: CopyRun, steps: nat)
    ensures
        run.after(steps).0 matches ProgressView::Ended(Err(e)) ==> {
            ||| run.mode is Create && run.disk.has(run.target()) && e == object_store_err(
                FileErrorView::AlreadyExists(run.target()),
            )
            ||| exists|n: nat|
                n < steps && run.after(n).0 is Pending && (#[trigger] run.reply(n) matches
                    ReplyView::Failed(f) && e == object_store_err(f))
        },
    decreases steps,
{
    if steps > 0 {
        let before = (steps - 1) as nat;
        law_copy_error_has_cause(run, before);
        lemma_consistent(run, before);
        lemma_look_is_first(run, before);
        assert(run.reply(before) is Failed ==> !(run.reply(before) is Status));
    }
}

/// The calls that a copy makes: it looks at its place, reads all of the object,
/// and creates the copy, which replaces an object only if the mode says so. It
/// makes no others but to write what was read and to close the copy.
pub proof fn law_copy_calls(run: CopyRun, steps: nat)
    requires
        run.after(steps).0 is Pending,
    ensures
        match run.after(steps).0->Pending_0.request() {
            RequestView::GetFileInfo { path } => {
                path == seq!['/'] + run.to && run.mode is Create && steps == 0
            },
            RequestView::Open { path } => path == seq!['/'] + run.from,
            RequestView::Stream { offset, length } => {
                offset == 0 && run.disk.has(run.source()) && length == run.content().len()
            },
            RequestView::Create { path, overwrite } => {
                path == seq!['/'] + run.to && (overwrite <==> run.mode is Overwrite)
            },
            RequestView::ReadNext | RequestView::WriteRead | RequestView::Close => true,
            _ => false,
        },
{
    lemma_consistent(run, steps);
    lemma_look_is_first(run, steps);
}

/// How many more calls a copy can make at most.
spec fn remaining(run: CopyRun, progress: ProgressView<CopyView, ()>, disk: Disk) -> int {
    let length = if run.disk.has(run.source()) {
        run.content().len() as int
    } else {
        0
    };
    match progress {
        ProgressView::Ended(_) => 0,
        ProgressView::Pending(CopyView::Checking { .. }) => 2 * length + 6,
        ProgressView::Pending(CopyView::Opening { .. }) => 2 * length + 5,
        ProgressView::Pending(CopyView::Streaming { .. }) => 2 * length + 4,
        ProgressView::Pending(CopyView::Creating { .. }) => 2 * length + 3,
        ProgressView::Pending(CopyView::Reading { .. }) => 2 * (disk.stream.len() as int) + 2,
        ProgressView::Pending(CopyView::Writing { .. }) => 2 * (disk.stream.len() as int) + 3,
        ProgressView::Pending(CopyView::Closing { .. }) => 1,
    }
}

proof fn lemma_copy_makes_headway(run: CopyRun, steps: nat)
    requires
        run.disk.chunk_size >= 1,
    ensures
        ({
            let (progress, disk) = run.after(steps);
            let length = if run.disk.has(run.source()) {
                run.content().len() as int
            } else {
                0
            };
            &&& disk.chunk_size == run.disk.chunk_size
            &&& progress is Pending ==> remaining(run, progress, disk) >= 1
            &&& progress is Pending ==> remaining(run, progress, disk) + steps <= 2 * length + 6
        }),
    decreases steps,
{
    if steps > 0 {
        let before = (steps - 1) as nat;
        lemma_copy_makes_headway(run, before);
        lemma_consistent(run, before);
        lemma_consistent(run, steps);
    }
}

/// A copy ends, whichever calls fail: it takes at most two calls for each byte of
/// the object, and six more.
pub proof fn law_copy_ends(run: CopyRun)
    requires
        run.disk.chunk_size >= 1,
    ensures
        !run.disk.has(run.source()) ==> run.after(6).0 is Ended,
        run.disk.has(run.source()) ==> run.after((2 * run.content().len() + 6) as nat).0 is Ended,
{
    lemma_copy_makes_headway(run, 6);
    if run.disk.has(run.source()) {
        lemma_copy_makes_headway(run, (2 * run.content().len() + 6) as nat);
    }
}

proof fn lemma_ended_stays(run: CopyRun, steps: nat, later: nat)
    requires
        run.after(steps).0 is Ended,
        steps <= later,
    ensures
        run.after(later) == run.after(steps),
    decreases later,
{
    if steps < later {
        lemma_ended_stays(run, steps, (later - 1) as nat);
    }
}

/// A copy creates nothing before the object is open: until it asks for the copy
/// to be created, no file has changed, and where the object cannot be opened or
/// the copy cannot be created, none ever does.
pub proof fn law_copy_opens_before_it_creates(run: CopyRun, steps: nat, later: nat)
    requires
        run.after(steps).0 is Pending,
        ({
            let request = run.after(steps).0->Pending_0.request();
            ||| request is GetFileInfo
            ||| request is Open
            ||| request is Stream
            ||| request is Create
        }),
        steps < later,
    ensures
        run.after(steps).1.files == run.disk.files,
        run.after(steps).0->Pending_0.request() is Create ==> run.disk.has(run.source()),
        run.reply(steps) is Failed && !(run.mode is Create && steps == 0) ==> run.after(
            later,
        ).1.files == run.disk.files,
{
    lemma_consistent(run, steps);
    lemma_look_is_first(run, steps);
    if run.reply(steps) is Failed && !(run.mode is Create && steps == 0) {
        law_failed_call_ends_copy(run, steps);
        lemma_ended_stays(run, steps + 1, later);
    }
}

} // verus!
