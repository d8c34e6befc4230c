//! What two uploads to one place do to a disk when their calls come in any
//! order.

use crate::error::StoreErrorView;
use crate::model::{Disk, File};
use crate::multipart::{writer_start, UploadView, WriterTaskView};
use crate::put::PutResultView;
use crate::request::ProgressView;
use crate::upload_laws::{
    all_bytes, complete_on, lemma_step_writes_tmp, WriterRun, WriterState,
};
use vstd::prelude::*;

verus! {

/// One of two uploads.
pub enum Side {
    First,
    Second,
}

/// What happens next.
pub enum Turn {
    /// The task of this upload makes a call.
    Write(Side),
    /// This upload is completed. While its task still runs, it waits.
    Complete(Side),
}

/// Two uploads to `file`, each with a task and a temporary file of its own, that
/// take turns in any order. The disks of the two runs have the same files; each
/// has the temporary file of its own upload open for writing. The calls of an
/// upload fail as its run says.
pub struct Race {
    pub first: WriterRun,
    pub second: WriterRun,
    pub file: Seq<char>,
    pub turns: spec_fn(nat) -> Turn,
}

/// One of the uploads, without the disk.
pub struct Contender {
    pub progress: ProgressView<WriterTaskView, ()>,
    pub answer: Option<Result<(), StoreErrorView>>,
    pub received: nat,
    /// Not completed yet.
    pub open: bool,
}

/// Both uploads and the files of the disk.
pub struct RaceState {
    pub first: Contender,
    pub second: Contender,
    pub files: Map<Seq<char>, File>,
    /// The upload whose completing ended well last.
    pub winner: Option<Side>,
}

impl Side {
    pub open spec fn other(self) -> Side {
        match self {
            Side::First => Side::Second,
            Side::Second => Side::First,
        }
    }
}

impl RaceState {
    pub open spec fn of(self, side: Side) -> Contender {
        match side {
            Side::First => self.first,
            Side::Second => self.second,
        }
    }

    pub open spec fn with(self, side: Side, contender: Contender) -> RaceState {
        match side {
            Side::First => RaceState { first: contender, ..self },
            Side::Second => RaceState { second: contender, ..self },
        }
    }
}

impl Race {
    pub open spec fn run(self, side: Side) -> WriterRun {
        match side {
            Side::First => self.first,
            Side::Second => self.second,
        }
    }

    /// Both temporary files were just created, and are different files.
    pub open spec fn begins(self) -> bool {
        &&& self.first.begins()
        &&& self.second.begins()
        &&& self.first.disk.files == self.second.disk.files
        &&& self.first.tmp != self.second.tmp
        &&& self.first.tmp != self.file
        &&& self.second.tmp != self.file
    }

    /// The disk as an upload sees it, with its own file open for writing.
    pub open spec fn disk(self, side: Side, files: Map<Seq<char>, File>) -> Disk {
        Disk { files, ..self.run(side).disk }
    }

    /// The task of an upload and the disk.
    pub open spec fn task(self, side: Side, state: RaceState) -> WriterState {
        let contender = state.of(side);
        WriterState {
            progress: contender.progress,
            answer: contender.answer,
            received: contender.received,
            disk: self.disk(side, state.files),
        }
    }

    /// The task of an upload makes a call.
    pub open spec fn write(self, side: Side, state: RaceState, steps: nat) -> RaceState {
        let task = self.run(side).step(self.task(side, state), steps);
        let contender = Contender {
            progress: task.progress,
            answer: task.answer,
            received: task.received,
            ..state.of(side)
        };
        RaceState { files: task.disk.files, ..state.with(side, contender) }
    }

    /// What completing an upload ends with, and the disk then.
    pub open spec fn completing(
        self,
        side: Side,
        state: RaceState,
        task: Result<(), StoreErrorView>,
        steps: nat,
    ) -> (Result<PutResultView, StoreErrorView>, Disk) {
        let upload = UploadView {
            tmp_filename: self.run(side).tmp,
            final_filename: self.file,
            open: state.of(side).open,
        };
        complete_on(
            self.disk(side, state.files),
            upload,
            Ok(task),
            (self.run(side).faults)(steps),
        )
    }

    /// An upload is completed.
    pub open spec fn complete(self, side: Side, state: RaceState, steps: nat) -> RaceState {
        match state.of(side).progress {
            ProgressView::Pending(_) => state,
            ProgressView::Ended(task) => {
                let (result, disk) = self.completing(side, state, task, steps);
                let contender = Contender { open: false, ..state.of(side) };
                RaceState {
                    files: disk.files,
                    winner: if result is Ok {
                        Some(side)
                    } else {
                        state.winner
                    },
                    ..state.with(side, contender)
                }
            },
        }
    }

    /// The uploads and the files after `steps` turns.
    pub open spec fn after(self, steps: nat) -> RaceState
        decreases steps,
    {
        if steps == 0 {
            let contender = Contender {
                progress: ProgressView::Pending(writer_start()),
                answer: None,
                received: 0,
                open: true,
            };
            RaceState {
                first: contender,
                second: contender,
                files: self.first.disk.files,
                winner: None,
            }
        } else {
            let before = (steps - 1) as nat;
            match (self.turns)(before) {
                Turn::Write(side) => self.write(side, self.after(before), before),
                Turn::Complete(side) => self.complete(side, self.after(before), before),
            }
        }
    }

    /// The place of the object holds all bytes of this upload, and nothing else.
    pub open spec fn published(self, side: Side, files: Map<Seq<char>, File>) -> bool {
        let run = self.run(side);
        &&& files.contains_key(self.file)
        &&& files[self.file] == run.file_with(all_bytes(run.parts))
    }

    /// The files besides the object and the two temporary files.
    pub open spec fn others(self, files: Map<Seq<char>, File>) -> Map<Seq<char>, File> {
        files.remove(self.file).remove(self.first.tmp).remove(self.second.tmp)
    }

    /// An upload that is open has in its temporary file what it has written;
    /// one that is not has no more calls to make.
    spec fn in_step(self, side: Side, state: RaceState) -> bool {
        if state.of(side).open {
            self.run(side).holds_written(self.task(side, state))
        } else {
            state.of(side).progress is Ended
        }
    }

    /// The object is that of the upload that was completed last, and as it was
    /// before that.
    pub open spec fn object_is_winner(self, state: RaceState) -> bool {
        let before = self.first.disk.files;
        match state.winner {
            Some(side) => self.published(side, state.files),
            None => {
                &&& state.files.contains_key(self.file) == before.contains_key(self.file)
                &&& state.files.contains_key(self.file) ==> state.files[self.file]
                    == before[self.file]
            },
        }
    }

    spec fn consistent(self, state: RaceState) -> bool {
        &&& self.in_step(Side::First, state)
        &&& self.in_step(Side::Second, state)
        &&& self.object_is_winner(state)
        &&& self.others(state.files) == self.others(self.first.disk.files)
    }
}

proof fn lemma_same_elsewhere(
    a: Map<Seq<char>, File>,
    b: Map<Seq<char>, File>,
    changed: Seq<char>,
    path: Seq<char>,
)
    requires
        a.remove(changed) == b.remove(changed),
        path != changed,
    ensures
        a.contains_key(path) == b.contains_key(path),
        a.contains_key(path) ==> a[path] == b[path],
{
    assert(a.remove(changed).contains_key(path) == a.contains_key(path));
    assert(b.remove(changed).contains_key(path) == b.contains_key(path));
    if a.contains_key(path) {
        assert(a.remove(changed)[path] == a[path]);
        assert(b.remove(changed)[path] == b[path]);
    }
}

proof fn lemma_write_keeps_consistent(race: Race, side: Side, state: RaceState, steps: nat)
    requires
        race.begins(),
        race.consistent(state),
    ensures
        race.consistent(race.write(side, state, steps)),
{
    let after = race.write(side, state, steps);
    let run = race.run(side);
    assert(race.in_step(side, state) && race.in_step(side.other(), state));
    if state.of(side).open {
        lemma_step_writes_tmp(run, race.task(side, state), steps);
        lemma_same_elsewhere(after.files, state.files, run.tmp, race.file);
        lemma_same_elsewhere(after.files, state.files, run.tmp, race.run(side.other()).tmp);
        assert(race.others(after.files) == race.others(after.files.remove(run.tmp)));
        assert(race.others(state.files) == race.others(state.files.remove(run.tmp)));
    }
    assert(race.in_step(side, after) && race.in_step(side.other(), after));
}

proof fn lemma_complete_keeps_consistent(race: Race, side: Side, state: RaceState, steps: nat)
    requires
        race.begins(),
        race.consistent(state),
    ensures
        race.consistent(race.complete(side, state, steps)),
{
    let after = race.complete(side, state, steps);
    assert(race.in_step(side, state) && race.in_step(side.other(), state));
    if let ProgressView::Ended(task) = state.of(side).progress {
        let (result, disk) = race.completing(side, state, task, steps);
        let tmp = race.run(side).tmp;
        if result is Ok {
            assert(after.files == state.files.remove(tmp).insert(race.file, state.files[tmp]));
            assert(race.others(after.files) == race.others(state.files));
        } else {
            assert(after.files == state.files);
        }
    }
    assert(race.in_step(side, after) && race.in_step(side.other(), after));
}

proof fn lemma_consistent(race: Race, steps: nat)
    requires
        race.begins(),
    ensures
        race.consistent(race.after(steps)),
    decreases steps,
{
    if steps == 0 {
        assert(race.first.parts.take(0) == Seq::<Seq<Seq<u8>>>::empty());
        assert(race.second.parts.take(0) == Seq::<Seq<Seq<u8>>>::empty());
    } else {
        let before = (steps - 1) as nat;
        lemma_consistent(race, before);
        match (race.turns)(before) {
            Turn::Write(side) => {
                lemma_write_keeps_consistent(race, side, race.after(before), before);
            },
            Turn::Complete(side) => {
                lemma_complete_keeps_consistent(race, side, race.after(before), before);
            },
        }
    }
}

/// Two uploads to one place do not mix, in whatever order their calls come and
/// whichever of them fail: the object holds all bytes of the upload that was
/// completed last, and none of the other. Before one is completed it is as it
/// was, and no other file ever changes but the two temporary ones.
pub proof fn law_last_completed_upload_wins(race: Race, steps: nat)
    requires
        race.begins(),
    ensures
        race.object_is_winner(race.after(steps)),
        race.others(race.after(steps).files) == race.others(race.first.disk.files),
{
    lemma_consistent(race, steps);
}

/// An upload whose parts are all written wins when it is completed, whatever
/// the other one has done so far: completing one upload and then the other
/// leaves the bytes of the second one.
pub proof fn law_completed_upload_wins(race: Race, steps: nat, side: Side)
    requires
        race.begins(),
        (race.turns)(steps) == Turn::Complete(side),
        race.after(steps).of(side).open,
        race.after(steps).of(side).progress matches ProgressView::Ended(Ok(_)),
        (race.run(side).faults)(steps) is None,
    ensures
        race.after(steps + 1).winner == Some(side),
        race.published(side, race.after(steps + 1).files),
{
    lemma_consistent(race, steps);
    let state = race.after(steps);
    assert(race.in_step(side, state));
    assert(race.after(steps + 1) == race.complete(side, state, steps));
    lemma_consistent(race, steps + 1);
}

} // verus!
