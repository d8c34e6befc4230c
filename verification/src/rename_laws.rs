//! What moving an object does to a disk.

use crate::conditions::unconditional;
use crate::error::{object_store_err, FileErrorView, StoreErrorView};
use crate::get::GetResultView;
use crate::get_laws::{
    get_on, law_get_reads_whole_file, law_missing_object_is_not_found, readable,
};
use crate::model::{Disk, File};
use crate::path::{
    absolute_dir, absolute_file, last_slash, law_absolute_file_injective, lemma_parent_is_valid,
    parent_of, valid_path,
};
use crate::rename::{rename_start, RenameTargetMode, RenameView};
use crate::request::{ProgressView, ReplyView, RequestView};
use vstd::prelude::*;

verus! {

/// A move of `from` to `to`, on a disk whose calls fail as `faults` says.
pub struct RenameRun {
    pub from: Seq<char>,
    pub to: Seq<char>,
    pub mode: RenameTargetMode,
    pub disk: Disk,
    pub faults: spec_fn(nat) -> Option<FileErrorView>,
}

impl RenameRun {
    pub open spec fn source(self) -> Seq<char> {
        absolute_file(self.from)
    }

    pub open spec fn target(self) -> Seq<char> {
        absolute_file(self.to)
    }

    /// The move and the disk after `steps` calls.
    pub open spec fn after(self, steps: nat) -> (ProgressView<RenameView, ()>, Disk)
        decreases steps,
    {
        if steps == 0 {
            (ProgressView::Pending(rename_start(self.from, self.to, self.mode)), self.disk)
        } else {
            let (progress, disk) = self.after((steps - 1) as nat);
            match progress {
                ProgressView::Ended(_) => (progress, disk),
                ProgressView::Pending(op) => {
                    let (disk, reply) = disk.call_or_fail(
                        op.request(),
                        Seq::empty(),
                        (self.faults)((steps - 1) as nat),
                    );
                    (op.resume(reply), disk)
                },
            }
        }
    }

    /// The answer to the call that the move waits for after `steps` calls.
    pub open spec fn reply(self, steps: nat) -> ReplyView {
        let (progress, disk) = self.after(steps);
        disk.call_or_fail(progress->Pending_0.request(), Seq::empty(), (self.faults)(steps)).1
    }

    /// No object that exists is in the way.
    pub open spec fn allowed(self) -> bool {
        self.mode is Overwrite || !self.disk.has(self.target())
    }

    /// The files of the disk once the object is moved.
    pub open spec fn moved(self) -> Map<Seq<char>, File> {
        self.disk.files.remove(self.source()).insert(self.target(), self.disk.files[self.source()])
    }
}

/// A move is done wholly or not at all: after any number of calls, whichever of
/// them failed, the disk is as it was, or the object is at its new place with
/// what it held. It is the latter exactly where the move ended well, and then
/// no object was replaced that the mode protects.
pub proof fn law_rename_is_atomic(run: RenameRun, steps: nat)
    ensures
        ({
            let (progress, disk) = run.after(steps);
            if progress == ProgressView::<RenameView, ()>::Ended(Ok(())) {
                run.disk.has(run.source()) && run.allowed() && disk.files == run.moved()
            } else {
                disk == run.disk
            }
        }),
        run.after(steps).0 matches ProgressView::Pending(op) ==> op.request() == (
        RequestView::Rename {
            from: run.source(),
            to: run.target(),
            overwrite: run.mode is Overwrite,
        }) || op == rename_start(run.from, run.to, run.mode),
    decreases steps,
{
    if steps > 0 {
        law_rename_is_atomic(run, (steps - 1) as nat);
    }
}

/// A move to another place ends well where nothing stands in its way: the disk
/// fails no call, has the object, and has no object at the new place that the
/// mode protects.
pub proof fn law_rename_moves(run: RenameRun)
    requires
        run.from != run.to,
        forall|n: nat| #[trigger] (run.faults)(n) is None,
        run.disk.has(run.source()),
        run.allowed(),
    ensures
        run.after(2).0 == ProgressView::<RenameView, ()>::Ended(Ok(())),
        run.after(2).1.files == run.moved(),
{
    assert((run.faults)(0) is None);
    assert((run.faults)(1) is None);
    assert(run.after(0).1 == run.disk);
    assert(run.after(1).1 == run.disk || run.after(1).0 is Ended);
}

/// A move ends after at most two calls, whatever they are answered, and after one
/// where the new place lies in no directory.
pub proof fn law_rename_ends(run: RenameRun)
    ensures
        run.after(2).0 is Ended,
        last_slash(run.to) < 0 ==> run.after(1).0 is Ended,
{
    assert(run.after(0).1 == run.disk);
    assert(run.after(1).0 is Ended || run.after(1).0 is Pending);
}

/// A failed call ends a move with the error of the call, and the disk stays as
/// it is.
pub proof fn law_failed_call_ends_rename(run: RenameRun, steps: nat)
    requires
        run.after(steps).0 is Pending,
        run.reply(steps) is Failed,
    ensures
        run.after(steps + 1) == (
            ProgressView::<RenameView, ()>::Ended(
                Err(object_store_err(run.reply(steps)->Failed_0)),
            ),
            run.disk,
        ),
{
    law_rename_is_atomic(run, steps);
}

/// A move ends well only where none of its calls failed.
pub proof fn law_rename_success_means_no_failure(run: RenameRun, steps: nat, earlier: nat)
    requires
        earlier < steps,
        run.after(steps).0 == ProgressView::<RenameView, ()>::Ended(Ok(())),
        run.after(earlier).0 is Pending,
    ensures
        !(run.reply(earlier) is Failed),
{
    if run.reply(earlier) is Failed {
        law_failed_call_ends_rename(run, earlier);
        lemma_ended_stays(run, earlier + 1, steps);
    }
}

proof fn lemma_ended_stays(run: RenameRun, steps: nat, later: nat)
    requires
        run.after(steps).0 is Ended,
        steps <= later,
    ensures
        run.after(later) == run.after(steps),
    decreases later,
{
    if steps < later {
        lemma_ended_stays(run, steps, (later - 1) as nat);
    }
}

/// What a refused move is answered, where the disk fails no call: an object that
/// does not exist is not found, an object at the new place that the mode protects
/// exists already. The disk stays as it is.
pub proof fn law_rename_refusals(run: RenameRun)
    requires
        forall|n: nat| #[trigger] (run.faults)(n) is None,
    ensures
        !run.disk.has(run.source()) ==> run.after(2) == (
            ProgressView::<RenameView, ()>::Ended(
                Err(object_store_err(FileErrorView::FileNotFound(run.source()))),
            ),
            run.disk,
        ),
        run.disk.has(run.source()) && !run.allowed() ==> run.after(2) == (
            ProgressView::<RenameView, ()>::Ended(
                Err(object_store_err(FileErrorView::AlreadyExists(run.target()))),
            ),
            run.disk,
        ),
{
    assert((run.faults)(0) is None);
    assert((run.faults)(1) is None);
    assert(run.after(0).1 == run.disk);
    assert(run.after(1).1 == run.disk || run.after(1).0 is Ended);
}

/// The calls that a move makes: one for the directory of the new place, and one
/// that moves the object, which replaces another one only if the mode says so.
pub proof fn law_rename_calls(run: RenameRun, steps: nat)
    requires
        valid_path(run.to),
        run.after(steps).0 is Pending,
    ensures
        run.after(steps).0->Pending_0.request() == (if steps == 0 && last_slash(run.to) >= 0 {
            RequestView::MakeDirs {
                path: seq!['/'] + parent_of(run.to) + seq!['/'],
                permission: 0o755,
                create_parent: true,
            }
        } else {
            RequestView::Rename {
                from: seq!['/'] + run.from,
                to: seq!['/'] + run.to,
                overwrite: run.mode is Overwrite,
            }
        }),
        steps == 0 || (steps == 1 && last_slash(run.to) >= 0),
{
    law_rename_ends(run);
    if steps >= 2 {
        lemma_ended_stays(run, 2, steps);
    }
    if last_slash(run.to) >= 0 {
        lemma_parent_is_valid(run.to);
    }
    assert(run.after(0).1 == run.disk);
}

/// After a move that ended well, a read at the new place gives back what the
/// object held, and a read at its old place finds nothing.
pub proof fn law_get_follows_rename(run: RenameRun, steps: nat)
    requires
        run.from != run.to,
        run.after(steps).0 == ProgressView::<RenameView, ()>::Ended(Ok(())),
        readable(run.disk, run.from),
        valid_path(run.to),
    ensures
        ({
            let disk = run.after(steps).1;
            let (result, bytes) = get_on(disk, run.to, unconditional(false));
            &&& result is Ok
            &&& bytes == get_on(run.disk, run.from, unconditional(false)).1
            &&& get_on(disk, run.from, unconditional(false)).0 == Err::<
                GetResultView,
                StoreErrorView,
            >(object_store_err(FileErrorView::FileNotFound(run.source())))
        }),
{
    law_rename_is_atomic(run, steps);
    if run.source() == run.target() {
        law_absolute_file_injective(run.from, run.to);
    }
    law_get_reads_whole_file(run.disk, run.from);
    law_get_reads_whole_file(run.after(steps).1, run.to);
    law_missing_object_is_not_found(run.after(steps).1, run.from, unconditional(false));
}

/// The directory of the new place is made before the object is moved: where
/// the new place lies in a directory, the first call makes that directory with
/// all that lead to it, and the object is not moved if that fails.
pub proof fn law_rename_makes_parent_first(run: RenameRun)
    requires
        last_slash(run.to) >= 0,
    ensures
        rename_start(run.from, run.to, run.mode).request() == (RequestView::MakeDirs {
            path: absolute_dir(parent_of(run.to)),
            permission: 0o755,
            create_parent: true,
        }),
        (run.faults)(0) matches Some(e) ==> run.after(1) == (
            ProgressView::<RenameView, ()>::Ended(Err(object_store_err(e))),
            run.disk,
        ),
{
    assert(run.after(0).1 == run.disk);
}

} // verus!
