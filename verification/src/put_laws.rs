//! What a write does to a disk.

use crate::conditions::unconditional;
use crate::error::{object_store_err, FileErrorView, StoreErrorView};
use crate::get_laws::{get_on, law_get_reads_whole_file};
use crate::meta::{at_millis, etag, object_meta, signed_millis, ObjectMetaView};
use crate::model::{joined, Disk, File};
use crate::path::{
    absolute_file, last_slash, law_absolute_round_trip, lemma_last_segment, valid_path,
};
use crate::put::{
    put_start, update_not_implemented, PutMode, PutResultView, PutTarget, PutView,
};
use crate::request::{ProgressView, ReplyView, RequestView};
use crate::tmp::{law_tmp_file_lies_beside, missing_filename, tmp_path};
use vstd::prelude::*;

verus! {

/// A write of `payload` to `location`, on a disk whose calls fail as `faults`
/// says: the n-th call fails with the n-th error, if there is one.
pub struct PutRun {
    pub location: Seq<char>,
    pub mode: PutMode,
    pub payload: Seq<Seq<u8>>,
    pub disk: Disk,
    pub faults: spec_fn(nat) -> Option<FileErrorView>,
}

impl PutRun {
    pub open spec fn file(self) -> Seq<char> {
        absolute_file(self.location)
    }

    /// The write and the disk after `steps` calls.
    pub open spec fn after(self, steps: nat) -> (ProgressView<PutView, PutResultView>, Disk)
        decreases steps,
    {
        if steps == 0 {
            (put_start(self.location, self.mode, self.payload.len()), self.disk)
        } else {
            let (progress, disk) = self.after((steps - 1) as nat);
            match progress {
                ProgressView::Ended(_) => (progress, disk),
                ProgressView::Pending(op) => {
                    let (disk, reply) = disk.call_or_fail(
                        op.request(),
                        self.payload,
                        (self.faults)((steps - 1) as nat),
                    );
                    (op.resume(reply), disk)
                },
            }
        }
    }

    /// The answer to the call that the write waits for after `steps` calls.
    pub open spec fn reply(self, steps: nat) -> ReplyView {
        let (progress, disk) = self.after(steps);
        disk.call_or_fail(progress->Pending_0.request(), self.payload, (self.faults)(steps)).1
    }

    /// `path` is a temporary file of this write.
    pub open spec fn is_tmp(self, path: Seq<char>) -> bool {
        exists|index: nat| path == #[trigger] tmp_path(self.file(), index)
    }

    /// The disk has what it had, but for the object and its temporary files.
    pub open spec fn others_stay(self, disk: Disk) -> bool {
        forall|path: Seq<char>| #[trigger]
            disk.files.contains_key(path) == self.disk.files.contains_key(path) && (
            disk.files.contains_key(path) ==> disk.files[path] == self.disk.files[path]) || path
                == self.file() || self.is_tmp(path)
    }

    /// The object is as it was.
    pub open spec fn object_stays(self, disk: Disk) -> bool {
        &&& disk.has(self.file()) == self.disk.has(self.file())
        &&& disk.has(self.file()) ==> disk.files[self.file()] == self.disk.files[self.file()]
    }

    /// The file that holds the payload, all of it, and is closed.
    pub open spec fn whole_file(self) -> File {
        File { content: joined(self.payload), modified: self.disk.now, closed: true }
    }

    /// The object holds the payload, all of it, in a closed file.
    pub open spec fn object_is_payload(self, disk: Disk) -> bool {
        &&& disk.has(self.file())
        &&& disk.files[self.file()] == self.whole_file()
        &&& self.mode is Create ==> !self.disk.has(self.file())
    }

    /// The temporary file with this index holds the first `written` chunks.
    pub open spec fn tmp_holds(self, disk: Disk, index: nat, written: nat) -> bool {
        let path = tmp_path(self.file(), index);
        &&& disk.has(path)
        &&& disk.writing == path
        &&& disk.files[path] == (File {
            content: joined(self.payload.take(written as int)),
            modified: self.disk.now,
            closed: false,
        })
    }

    /// The temporary file with this index holds all of the payload, and is
    /// closed.
    pub open spec fn tmp_is_whole(self, disk: Disk, index: nat) -> bool {
        let path = tmp_path(self.file(), index);
        disk.has(path) && disk.files[path] == self.whole_file()
    }

    /// What holds of the write and the disk after every call.
    spec fn consistent(self, progress: ProgressView<PutView, PutResultView>, disk: Disk) -> bool {
        &&& disk.now == self.disk.now
        &&& self.others_stay(disk)
        &&& match progress {
            ProgressView::Ended(_) => self.object_stays(disk) || self.object_is_payload(disk),
            ProgressView::Pending(op) => {
                &&& op.target() == (PutTarget {
                    location: self.location,
                    overwrite: self.mode is Overwrite,
                    chunks: self.payload.len(),
                })
                &&& match op {
                    PutView::Checking { .. } => self.object_stays(disk),
                    PutView::Opening { .. } => self.object_stays(disk),
                    PutView::Writing { index, written, .. } => {
                        &&& self.object_stays(disk)
                        &&& written < self.payload.len()
                        &&& self.tmp_holds(disk, index, written)
                    },
                    PutView::Closing { index, .. } => {
                        self.object_stays(disk) && self.tmp_holds(disk, index, self.payload.len())
                    },
                    PutView::Renaming { index, .. } => {
                        self.object_stays(disk) && self.tmp_is_whole(disk, index)
                    },
                    PutView::Heading { .. } => self.object_is_payload(disk),
                }
            },
        }
    }
}

proof fn lemma_absolute_has_slash(location: Seq<char>)
    ensures
        last_slash(absolute_file(location)) >= 0,
{
    lemma_last_segment(absolute_file(location));
    assert(absolute_file(location)[0] == '/');
}

proof fn lemma_joined_take(payload: Seq<Seq<u8>>, n: int)
    requires
        0 <= n < payload.len(),
    ensures
        joined(payload.take(n + 1)) == joined(payload.take(n)) + payload[n],
{
    assert(payload.take(n + 1).drop_last() == payload.take(n));
}

proof fn lemma_step_keeps_consistent(
    run: PutRun,
    op: PutView,
    disk: Disk,
    fault: Option<FileErrorView>,
)
    requires
        run.consistent(ProgressView::Pending(op), disk),
    ensures
        ({
            let (after, reply) = disk.call_or_fail(op.request(), run.payload, fault);
            run.consistent(op.resume(reply), after)
        }),
{
    let (after, reply) = disk.call_or_fail(op.request(), run.payload, fault);
    let file = run.file();
    lemma_absolute_has_slash(run.location);
    if fault is None {
        match op {
            PutView::Opening { index, .. } => {
                law_tmp_file_lies_beside(file, index);
                let path = tmp_path(file, index);
                assert(run.is_tmp(path));
                assert(run.payload.take(0) == Seq::<Seq<u8>>::empty());
            },
            PutView::Writing { index, written, .. } => {
                law_tmp_file_lies_beside(file, index);
                assert(run.is_tmp(tmp_path(file, index)));
                lemma_joined_take(run.payload, written as int);
            },
            PutView::Closing { index, .. } => {
                law_tmp_file_lies_beside(file, index);
                assert(run.is_tmp(tmp_path(file, index)));
                assert(run.payload.take(run.payload.len() as int) == run.payload);
            },
            PutView::Renaming { index, .. } => {
                law_tmp_file_lies_beside(file, index);
                assert(run.is_tmp(tmp_path(file, index)));
            },
            _ => {},
        }
    }
}

proof fn lemma_consistent(run: PutRun, steps: nat)
    ensures
        run.consistent(run.after(steps).0, run.after(steps).1),
    decreases steps,
{
    if steps > 0 {
        let before = (steps - 1) as nat;
        lemma_consistent(run, before);
        let (progress, disk) = run.after(before);
        if let ProgressView::Pending(op) = progress {
            lemma_step_keeps_consistent(run, op, disk, (run.faults)(before));
        }
    }
}

/// A write is atomic: after any number of calls, whichever of them failed, the
/// object is as it was or holds all of the payload. It never holds a part of
/// it, and nothing else changes on the disk but the temporary files of the
/// write.
pub proof fn law_put_is_atomic(run: PutRun, steps: nat)
    ensures
        run.object_stays(run.after(steps).1) || run.object_is_payload(run.after(steps).1),
        run.others_stay(run.after(steps).1),
{
    lemma_consistent(run, steps);
}

/// A write in the mode for new objects never changes an object that exists.
pub proof fn law_put_create_keeps_existing(run: PutRun, steps: nat)
    requires
        run.mode is Create,
        run.disk.has(run.file()),
    ensures
        run.object_stays(run.after(steps).1),
{
    lemma_consistent(run, steps);
}

/// A write that ends well has written the payload, all of it.
pub proof fn law_put_success_means_written(run: PutRun, steps: nat)
    ensures
        run.after(steps).0 matches ProgressView::Ended(Ok(_)) ==> run.object_is_payload(
            run.after(steps).1,
        ),
    decreases steps,
{
    if steps > 0 {
        let before = (steps - 1) as nat;
        law_put_success_means_written(run, before);
        lemma_consistent(run, before);
    }
}

/// No call fails but as the disk has it.
pub open spec fn quiet(run: PutRun) -> bool {
    forall|n: nat| #[trigger] (run.faults)(n) is None
}

/// From the call with this number on, no call fails but as the disk has it.
pub open spec fn quiet_from(run: PutRun, first: nat) -> bool {
    forall|n: nat| n >= first ==> #[trigger] (run.faults)(n) is None
}

/// The disk with the first `written` chunks in the temporary file.
spec fn half_written(run: PutRun, index: nat, written: nat) -> Map<Seq<char>, File> {
    run.disk.files.insert(
        tmp_path(run.file(), index),
        File {
            content: joined(run.payload.take(written as int)),
            modified: run.disk.now,
            closed: false,
        },
    )
}

spec fn target_of(run: PutRun) -> PutTarget {
    PutTarget {
        location: run.location,
        overwrite: run.mode is Overwrite,
        chunks: run.payload.len(),
    }
}

proof fn lemma_search_ends(run: PutRun, steps: nat, index: nat, free: nat)
    requires
        quiet_from(run, steps),
        run.after(steps) == (
            ProgressView::<PutView, PutResultView>::Pending(
                PutView::Opening { target: target_of(run), index },
            ),
            run.disk,
        ),
        index <= free,
        forall|i: nat| index <= i < free ==> run.disk.has(#[trigger] tmp_path(run.file(), i)),
        !run.disk.has(tmp_path(run.file(), free)),
    ensures
        ({
            let (progress, disk) = run.after((steps + (free - index) + 1) as nat);
            &&& progress == ProgressView::<PutView, PutResultView>::Pending(
                target_of(run).write(free, 0),
            )
            &&& disk.files == half_written(run, free, 0)
            &&& disk.writing == tmp_path(run.file(), free)
        }),
    decreases free - index,
{
    assert((run.faults)(steps) is None);
    assert(run.payload.take(0) == Seq::<Seq<u8>>::empty());
    if index < free {
        assert(run.disk.has(tmp_path(run.file(), index)));
        lemma_search_ends(run, steps + 1, index + 1, free);
    }
}

proof fn lemma_all_chunks_are_written(run: PutRun, steps: nat, index: nat, written: nat)
    requires
        quiet_from(run, steps),
        written <= run.payload.len(),
        run.after(steps).0 == ProgressView::<PutView, PutResultView>::Pending(
            target_of(run).write(index, written),
        ),
        run.after(steps).1.files == half_written(run, index, written),
        run.after(steps).1.writing == tmp_path(run.file(), index),
    ensures
        ({
            let (progress, disk) = run.after((steps + (run.payload.len() - written)) as nat);
            &&& progress == ProgressView::<PutView, PutResultView>::Pending(
                PutView::Closing { target: target_of(run), index },
            )
            &&& disk.files == half_written(run, index, run.payload.len())
            &&& disk.writing == tmp_path(run.file(), index)
        }),
    decreases run.payload.len() - written,
{
    if written < run.payload.len() {
        assert((run.faults)(steps) is None);
        lemma_joined_take(run.payload, written as int);
        let disk = run.after(steps + 1).1;
        assert(disk.files == half_written(run, index, written + 1));
        lemma_all_chunks_are_written(run, steps + 1, index, written + 1);
    }
}

proof fn lemma_written_file_is_renamed(run: PutRun, steps: nat, index: nat)
    requires
        quiet_from(run, steps),
        run.mode is Overwrite || (run.mode is Create && !run.disk.has(run.file())),
        !run.disk.has(tmp_path(run.file(), index)),
        run.after(steps).0 == ProgressView::<PutView, PutResultView>::Pending(
            PutView::Closing { target: target_of(run), index },
        ),
        run.after(steps).1.files == half_written(run, index, run.payload.len()),
        run.after(steps).1.writing == tmp_path(run.file(), index),
    ensures
        run.after(steps + 2).0 == ProgressView::<PutView, PutResultView>::Pending(
            PutView::Heading { target: target_of(run) },
        ),
        run.after(steps + 2).1.files == run.disk.files.insert(run.file(), run.whole_file()),
{
    let file = run.file();
    assert((run.faults)(steps) is None);
    assert((run.faults)(steps + 1) is None);
    lemma_absolute_has_slash(run.location);
    law_tmp_file_lies_beside(file, index);
    assert(run.payload.take(run.payload.len() as int) == run.payload);
    assert(run.after(steps + 1) == (
        ProgressView::<PutView, PutResultView>::Pending(
            PutView::Renaming { target: target_of(run), index },
        ),
        run.after(steps).1.close(),
    ));
    assert(run.after(steps + 2).1.files == run.disk.files.insert(file, run.whole_file()));
}

/// The number of looks at the object before anything is written.
pub open spec fn looks(run: PutRun) -> nat {
    if run.mode is Create {
        1
    } else {
        0
    }
}

/// A write ends well where nothing stands in its way: the disk fails no call
/// but, in the mode for new objects, the first look at the object, which may
/// fail in any way; some temporary file is free; and no object exists that the
/// mode protects. Then the disk has the payload in the place of the object, in a
/// closed file, and is as it was otherwise. The ETag that the write is answered
/// with is that of the file. It takes one call for each temporary file that is
/// tried and for each chunk, and three more: to close the file, to put it in the
/// place of the object, and to look at it.
pub proof fn law_put_writes_payload(run: PutRun, free: nat) -> (steps: nat)
    requires
        quiet_from(run, looks(run)),
        valid_path(run.location),
        run.location.len() > 0,
        run.mode is Overwrite || (run.mode is Create && !run.disk.has(run.file())),
        free >= 1,
        !run.disk.has(tmp_path(run.file(), free)),
        forall|i: nat| 1 <= i < free ==> run.disk.has(#[trigger] tmp_path(run.file(), i)),
        at_millis(signed_millis(run.disk.now)).in_range(),
    ensures
        ({
            let (progress, disk) = run.after(steps);
            &&& progress == ProgressView::<PutView, PutResultView>::Ended(
                Ok(
                    PutResultView {
                        e_tag: Some(etag(disk.status(run.file()))),
                        version: None,
                    },
                ),
            )
            &&& disk.files == run.disk.files.insert(run.file(), run.whole_file())
            &&& steps == looks(run) + free + run.payload.len() + 3
            &&& run.after((steps - 1) as nat).0 is Pending
        }),
{
    let opening = looks(run);
    assert(run.after(0).1 == run.disk);
    assert(run.after(opening) == (
        ProgressView::<PutView, PutResultView>::Pending(
            PutView::Opening { target: target_of(run), index: 1 },
        ),
        run.disk,
    ));
    lemma_search_ends(run, opening, 1, free);
    let writing = opening + free;
    lemma_all_chunks_are_written(run, writing, free, 0);
    let closing = writing + run.payload.len();
    lemma_written_file_is_renamed(run, closing, free);
    assert((run.faults)(closing + 2) is None);
    law_absolute_round_trip(run.location);
    closing + 3
}

/// The ETag that a write is answered with is that of the file it wrote.
pub proof fn lemma_success_gives_etag(run: PutRun, steps: nat)
    ensures
        run.after(steps).0 matches ProgressView::Ended(Ok(put)) ==> {
            &&& put.e_tag == Some(etag(run.after(steps).1.status(run.file())))
            &&& put.version is None
            &&& at_millis(signed_millis(run.disk.now)).in_range()
        },
    decreases steps,
{
    if steps > 0 {
        let before = (steps - 1) as nat;
        lemma_success_gives_etag(run, before);
        lemma_consistent(run, before);
    }
}

/// A read gives back what a write wrote: after any write that ended well,
/// whichever calls failed on its way, a read of the whole object gives all
/// bytes of the payload, in order, and the ETag that the write was answered
/// with.
pub proof fn law_get_returns_what_put_wrote(run: PutRun, steps: nat)
    requires
        valid_path(run.location),
        joined(run.payload).len() <= usize::MAX,
        run.after(steps).0 matches ProgressView::Ended(Ok(_)),
    ensures
        ({
            let (progress, disk) = run.after(steps);
            let (result, bytes) = get_on(disk, run.location, unconditional(false));
            &&& progress matches ProgressView::Ended(Ok(put))
            &&& result matches Ok(got)
            &&& bytes == joined(run.payload)
            &&& got.meta.location == run.location
            &&& got.meta.size == joined(run.payload).len()
            &&& got.meta.e_tag == put.e_tag
        }),
{
    law_put_success_means_written(run, steps);
    lemma_success_gives_etag(run, steps);
    law_get_reads_whole_file(run.after(steps).1, run.location);
}

proof fn lemma_ended_stays(run: PutRun, steps: nat, later: nat)
    requires
        run.after(steps).0 is Ended,
        steps <= later,
    ensures
        run.after(later) == run.after(steps),
    decreases later,
{
    if steps < later {
        lemma_ended_stays(run, steps, (later - 1) as nat);
    }
}

/// A file takes the place of the object only when it is whole: whenever a write
/// asks for a rename, in whatever mode and whichever calls failed before, it is
/// of a temporary file that holds all of the payload and has been closed.
pub proof fn law_put_renames_closed_payload(run: PutRun, steps: nat)
    requires
        run.after(steps).0 is Pending,
        run.after(steps).0->Pending_0.request() is Rename,
    ensures
        run.after(steps).0->Pending_0.request() matches RequestView::Rename { from, to, overwrite }
            && {
            &&& run.is_tmp(from)
            &&& run.after(steps).1.has(from)
            &&& run.after(steps).1.files[from] == (File {
                content: joined(run.payload),
                modified: run.disk.now,
                closed: true,
            })
            &&& to == absolute_file(run.location)
            &&& overwrite <==> run.mode is Overwrite
        },
{
    lemma_consistent(run, steps);
    let op = run.after(steps).0->Pending_0;
    if let PutView::Renaming { index, .. } = op {
        assert(run.is_tmp(tmp_path(run.file(), index)));
    }
}

/// The calls that a write makes: it looks at the object, creates temporary files
/// that do not exist, writes chunks of the payload, closes, and renames one of
/// the temporary files to the object. It makes no others.
pub proof fn law_put_calls(run: PutRun, steps: nat)
    requires
        run.after(steps).0 is Pending,
    ensures
        match run.after(steps).0->Pending_0.request() {
            RequestView::GetFileInfo { path } => path == run.file(),
            RequestView::Create { path, overwrite } => run.is_tmp(path) && !overwrite,
            RequestView::Write { chunk } => chunk < run.payload.len(),
            RequestView::Close => true,
            RequestView::Rename { from, to, .. } => run.is_tmp(from) && to == run.file(),
            _ => false,
        },
{
    lemma_consistent(run, steps);
    match run.after(steps).0->Pending_0 {
        PutView::Opening { index, .. } => {
            assert(run.is_tmp(tmp_path(run.file(), index)));
        },
        PutView::Renaming { index, .. } => {
            assert(run.is_tmp(tmp_path(run.file(), index)));
        },
        _ => {},
    }
}

/// A failed call ends a write with its error, but for two: the first look in the
/// mode for new objects may fail, and where a temporary file exists already the
/// next one is tried.
pub proof fn law_failed_call_ends_put(run: PutRun, steps: nat)
    requires
        run.after(steps).0 is Pending,
        run.reply(steps) is Failed,
    ensures
        ({
            let (op, e) = (run.after(steps).0->Pending_0, run.reply(steps)->Failed_0);
            let next = run.after(steps + 1).0;
            ||| next == ProgressView::<PutView, PutResultView>::Ended(Err(object_store_err(e)))
            ||| run.mode is Create && steps == 0
            ||| e is AlreadyExists && exists|index: nat|
                {
                    &&& op.request() == (RequestView::Create {
                        path: #[trigger] tmp_path(run.file(), index),
                        overwrite: false,
                    })
                    &&& next matches ProgressView::Pending(again)
                    &&& again.request() == (RequestView::Create {
                        path: tmp_path(run.file(), index + 1),
                        overwrite: false,
                    })
                }
        }),
{
    lemma_consistent(run, steps);
    lemma_look_is_first(run, steps);
    if let PutView::Opening { index, .. } = run.after(steps).0->Pending_0 {
        assert(run.after(steps).0->Pending_0.request() == (RequestView::Create {
            path: tmp_path(run.file(), index),
            overwrite: false,
        }));
    }
}

proof fn lemma_look_is_first(run: PutRun, steps: nat)
    ensures
        run.after(steps).0 matches ProgressView::Pending(PutView::Checking { .. }) ==> steps == 0
            && run.mode is Create,
    decreases steps,
{
    if steps > 0 {
        lemma_look_is_first(run, (steps - 1) as nat);
    }
}

/// A write that ends in error has a reason for it: it is an update; it is to the
/// root; an object exists that the mode protects; a call failed, and the error is
/// that of the call; or the file that was written is one that the store cannot
/// say anything of.
pub proof fn law_put_error_has_cause(run: PutRun, steps: nat)
    ensures
        run.after(steps).0 matches ProgressView::Ended(Err(e)) ==> {
            ||| run.mode is Update && e == (StoreErrorView::NotImplemented {
                operation: "PutOptions with Update precondition"@,
                implementer: "HdfsObjectStore"@,
            })
            ||| run.location.len() == 0 && e == object_store_err(
                FileErrorView::InvalidPath("path missing filename"@),
            )
            ||| run.mode is Create && run.disk.has(run.file()) && e == object_store_err(
                FileErrorView::AlreadyExists(run.file()),
            )
            ||| exists|n: nat|
                n < steps && run.after(n).0 is Pending && (#[trigger] run.reply(n) matches
                    ReplyView::Failed(f) && e == object_store_err(f))
            ||| exists|n: nat|
                n < steps && run.after(n).0 is Pending && (#[trigger] run.reply(n) matches
                    ReplyView::Status(status) && object_meta(status) == Err::<
                    ObjectMetaView,
                    StoreErrorView,
                >(e))
        },
    decreases steps,
{
    if steps > 0 {
        let before = (steps - 1) as nat;
        law_put_error_has_cause(run, before);
        lemma_consistent(run, before);
        lemma_look_is_first(run, before);
        assert(run.reply(before) is Failed ==> !(run.reply(before) is Status));
    }
}

/// How many more calls a write can make at most, where the temporary file with
/// the index `free` is free.
spec fn remaining(run: PutRun, progress: ProgressView<PutView, PutResultView>, free: nat) -> int {
    let chunks = run.payload.len() as int;
    match progress {
        ProgressView::Ended(_) => 0,
        ProgressView::Pending(PutView::Checking { .. }) => free + chunks + 4,
        ProgressView::Pending(PutView::Opening { index, .. }) => free - index + chunks + 4,
        ProgressView::Pending(PutView::Writing { written, .. }) => chunks - written + 3,
        ProgressView::Pending(PutView::Closing { .. }) => 3,
        ProgressView::Pending(PutView::Renaming { .. }) => 2,
        ProgressView::Pending(PutView::Heading { .. }) => 1,
    }
}

proof fn lemma_put_makes_headway(run: PutRun, free: nat, steps: nat)
    requires
        free >= 1,
        !run.disk.has(tmp_path(run.file(), free)),
        forall|n: nat| !(#[trigger] (run.faults)(n) matches Some(FileErrorView::AlreadyExists(_))),
    ensures
        ({
            let (progress, disk) = run.after(steps);
            &&& remaining(run, progress, free) >= 0
            &&& progress is Ended || remaining(run, progress, free) >= 1
            &&& progress is Pending ==> remaining(run, progress, free) + steps <= free
                + run.payload.len() + 4
            &&& progress matches ProgressView::Pending(PutView::Checking { .. }) ==> disk
                == run.disk
            &&& progress matches ProgressView::Pending(PutView::Opening { index, .. }) ==> disk
                == run.disk && 1 <= index <= free
        }),
    decreases steps,
{
    if steps > 0 {
        let before = (steps - 1) as nat;
        lemma_put_makes_headway(run, free, before);
        lemma_consistent(run, before);
        assert(!((run.faults)(before) matches Some(FileErrorView::AlreadyExists(_))));
    }
}

/// A write ends, whichever calls fail, unless it is told without end that
/// temporary files exist which do not: where the one with the index `free` is
/// free, it takes at most one call for each of them up to that one and for each
/// chunk, and four more.
pub proof fn law_put_ends(run: PutRun, free: nat)
    requires
        free >= 1,
        !run.disk.has(tmp_path(run.file(), free)),
        forall|n: nat| !(#[trigger] (run.faults)(n) matches Some(FileErrorView::AlreadyExists(_))),
    ensures
        run.after(free + run.payload.len() + 4).0 is Ended,
{
    lemma_put_makes_headway(run, free, free + run.payload.len() + 4);
}

/// A write whose temporary file cannot be opened, written or closed, or cannot
/// be put in the place of the object, ends in the error of the call that
/// failed, and the object stays as it was. That a temporary file exists already
/// is no such failure: the next one is tried.
pub proof fn law_failed_put_leaves_object(run: PutRun, steps: nat, later: nat)
    requires
        steps < later,
        run.after(steps).0 is Pending,
        !(run.after(steps).0->Pending_0 is Checking),
        !(run.after(steps).0->Pending_0 is Heading),
        run.reply(steps) is Failed,
        run.after(steps).0->Pending_0 is Opening ==> !(run.reply(steps)->Failed_0
            is AlreadyExists),
    ensures
        run.after(later).0 == ProgressView::<PutView, PutResultView>::Ended(
            Err(object_store_err(run.reply(steps)->Failed_0)),
        ),
        run.object_stays(run.after(later).1),
        run.others_stay(run.after(later).1),
{
    lemma_consistent(run, steps);
    lemma_consistent(run, steps + 1);
    lemma_ended_stays(run, steps + 1, later);
    assert(run.after(steps + 1).1 == run.after(steps).1);
}

/// What a refused write is answered, and that it changes nothing: an update is
/// not implemented, an object that exists is in the way of a write in the mode
/// for new objects, and the root is no place for an object.
pub proof fn law_put_refusals(run: PutRun, steps: nat)
    requires
        steps >= 1,
    ensures
        run.mode is Update ==> run.after(steps) == (
            ProgressView::<PutView, PutResultView>::Ended(Err(update_not_implemented())),
            run.disk,
        ),
        update_not_implemented() == (StoreErrorView::NotImplemented {
            operation: "PutOptions with Update precondition"@,
            implementer: "HdfsObjectStore"@,
        }),
        run.mode is Create && run.disk.has(run.file()) && quiet(run) ==> run.after(steps) == (
            ProgressView::<PutView, PutResultView>::Ended(
                Err(object_store_err(FileErrorView::AlreadyExists(run.file()))),
            ),
            run.disk,
        ),
        run.mode is Overwrite && run.location.len() == 0 ==> run.after(steps) == (
            ProgressView::<PutView, PutResultView>::Ended(Err(missing_filename())),
            run.disk,
        ),
    decreases steps,
{
    if steps > 1 {
        law_put_refusals(run, (steps - 1) as nat);
    } else {
        assert(run.after(0) == (
            put_start(run.location, run.mode, run.payload.len()),
            run.disk,
        ));
        if quiet(run) {
            assert((run.faults)(0) is None);
        }
    }
}

/// A write takes every answer that fits its call, up to the largest index of a
/// temporary file.
pub proof fn law_put_takes_every_answer(run: PutRun, steps: nat, reply: ReplyView)
    requires
        run.after(steps).0 is Pending,
        run.after(steps).0->Pending_0.request().answered_by(reply),
        steps + 1 < 0x7fff_ffff,
    ensures
        run.after(steps).0->Pending_0.accepts(reply),
{
    lemma_index_is_bounded(run, steps);
}

proof fn lemma_index_is_bounded(run: PutRun, steps: nat)
    ensures
        run.after(steps).0 matches ProgressView::Pending(PutView::Opening { index, .. }) ==> index
            <= steps + 1 && (run.mode is Create ==> index <= steps),
    decreases steps,
{
    if steps > 0 {
        lemma_index_is_bounded(run, (steps - 1) as nat);
        lemma_consistent(run, (steps - 1) as nat);
    }
}

/// The root is no place for an object: a write to it creates nothing and never
/// ends well.
pub proof fn law_root_is_no_place(run: PutRun, steps: nat)
    requires
        run.location.len() == 0,
    ensures
        run.after(steps).1 == run.disk,
        steps >= 1 ==> run.after(steps).0 matches ProgressView::Ended(Err(_)),
    decreases steps,
{
    if steps > 0 {
        law_root_is_no_place(run, (steps - 1) as nat);
        lemma_consistent(run, (steps - 1) as nat);
        lemma_consistent(run, steps);
    }
}

} // verus!
