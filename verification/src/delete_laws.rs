//! What deleting does to a disk.

use crate::conditions::GetOptionsView;
use crate::delete::{delete_call, delete_start};
use crate::error::{object_store_err, FileErrorView, StoreErrorView};
use crate::get::GetResultView;
use crate::get_laws::{get_on, law_missing_object_is_not_found};
use crate::model::Disk;
use crate::path::absolute_file;
use crate::request::{ProgressView, ReplyView, RequestView};
use vstd::prelude::*;

verus! {

/// An object that was deleted is gone: a read of it finds nothing, and nothing
/// else has changed on the disk.
pub proof fn law_deleted_object_is_not_found(
    disk: Disk,
    location: Seq<char>,
    options: GetOptionsView,
)
    ensures
        ({
            let after = disk.call(delete_call(location), Seq::empty()).0;
            let file = absolute_file(location);
            &&& after.files == disk.files.remove(file)
            &&& get_on(after, location, options).0 == Err::<GetResultView, StoreErrorView>(
                object_store_err(FileErrorView::FileNotFound(file)),
            )
        }),
{
    law_missing_object_is_not_found(
        disk.call(delete_call(location), Seq::empty()).0,
        location,
        options,
    );
}

/// What the deletion of one item ends with, once its call is answered.
pub open spec fn deleted(
    location: Result<Seq<char>, StoreErrorView>,
    reply: ReplyView,
) -> Result<Seq<char>, StoreErrorView> {
    match delete_start(location) {
        ProgressView::Ended(r) => r,
        ProgressView::Pending(op) => match op.resume(reply) {
            ProgressView::Ended(r) => r,
            ProgressView::Pending(_) => arbitrary(),
        },
    }
}

/// What the deletion of a sequence of items ends with, item by item. A reply
/// answers the call of the item at the same position, if that makes one.
pub open spec fn deleted_all(
    locations: Seq<Result<Seq<char>, StoreErrorView>>,
    replies: Seq<ReplyView>,
) -> Seq<Result<Seq<char>, StoreErrorView>> {
    Seq::new(locations.len(), |i: int| deleted(locations[i], replies[i]))
}

/// The calls that the deletion of a sequence of items makes.
pub open spec fn delete_calls(locations: Seq<Result<Seq<char>, StoreErrorView>>) -> Seq<
    RequestView,
>
    decreases locations.len(),
{
    if locations.len() == 0 {
        Seq::empty()
    } else {
        let before = delete_calls(locations.drop_last());
        match delete_start(locations.last()) {
            ProgressView::Ended(_) => before,
            ProgressView::Pending(op) => before.push(op.request()),
        }
    }
}

/// A sequence of objects is deleted item by item: there is one answer for each
/// item, in the order of the items. An error in the place of an item is handed
/// on; an item whose call fails is answered with that error, and any other with
/// its own path. What one item ends with has no part in any other.
pub proof fn law_delete_answers_each_item(
    locations: Seq<Result<Seq<char>, StoreErrorView>>,
    replies: Seq<ReplyView>,
)
    ensures
        deleted_all(locations, replies).len() == locations.len(),
        forall|i: int|
            0 <= i < locations.len() ==> #[trigger] deleted_all(locations, replies)[i] == (
            match (locations[i], replies[i]) {
                (Err(e), _) => Err::<Seq<char>, StoreErrorView>(e),
                (Ok(_), ReplyView::Failed(e)) => Err(object_store_err(e)),
                (Ok(location), _) => Ok(location),
            }),
{
}

/// The items of a sequence that are objects, in their order.
pub open spec fn objects_of(locations: Seq<Result<Seq<char>, StoreErrorView>>) -> Seq<
    Result<Seq<char>, StoreErrorView>,
> {
    locations.filter(|location: Result<Seq<char>, StoreErrorView>| location is Ok)
}

/// Each object of a sequence is deleted with one call, in their order, and an
/// error in the place of an object makes no call.
pub proof fn law_delete_calls_once_for_each_object(
    locations: Seq<Result<Seq<char>, StoreErrorView>>,
)
    ensures
        delete_calls(locations).len() == objects_of(locations).len(),
        forall|i: int|
            0 <= i < delete_calls(locations).len() ==> #[trigger] delete_calls(locations)[i]
                == delete_call(objects_of(locations)[i]->Ok_0),
    decreases locations.len(),
{
    reveal(Seq::filter);
    if locations.len() > 0 {
        let before = locations.drop_last();
        law_delete_calls_once_for_each_object(before);
        let calls = delete_calls(locations);
        assert forall|i: int| 0 <= i < calls.len() implies #[trigger] calls[i] == delete_call(
            objects_of(locations)[i]->Ok_0,
        ) by {
            if i < delete_calls(before).len() {
                assert(calls[i] == delete_calls(before)[i]);
                assert(objects_of(locations)[i] == objects_of(before)[i]);
            }
        }
    }
}

/// The deletion of a sequence of items, on a disk where the call of the n-th
/// item fails as `faults` says.
pub struct DeleteRun {
    pub locations: Seq<Result<Seq<char>, StoreErrorView>>,
    pub disk: Disk,
    pub faults: spec_fn(nat) -> Option<FileErrorView>,
}

impl DeleteRun {
    /// The answers to the first `items` items, and the disk then.
    pub open spec fn after(self, items: nat) -> (Seq<Result<Seq<char>, StoreErrorView>>, Disk)
        decreases items,
    {
        if items == 0 {
            (Seq::empty(), self.disk)
        } else {
            let item = (items - 1) as nat;
            let (answers, disk) = self.after(item);
            match delete_start(self.locations[item as int]) {
                ProgressView::Ended(r) => (answers.push(r), disk),
                ProgressView::Pending(op) => {
                    let (disk, reply) = disk.call_or_fail(
                        op.request(),
                        Seq::empty(),
                        (self.faults)(item),
                    );
                    (answers.push(deleted(self.locations[item as int], reply)), disk)
                },
            }
        }
    }

    /// The item is an object that is kept in the file `path`, and its call does
    /// not fail.
    pub open spec fn deletes(self, item: int, path: Seq<char>) -> bool {
        &&& self.locations[item] matches Ok(location)
        &&& absolute_file(location) == path
        &&& (self.faults)(item as nat) is None
    }
}

/// The deletion of a sequence of items takes from the disk exactly the objects
/// among them whose calls do not fail, and changes nothing else, whatever
/// becomes of the other items. Each item is answered with its own path, its own
/// failure, or the error that came in its place.
pub proof fn law_delete_takes_each_object(run: DeleteRun, items: nat)
    requires
        items <= run.locations.len(),
    ensures
        ({
            let (answers, disk) = run.after(items);
            &&& answers.len() == items
            &&& forall|i: int|
                0 <= i < items ==> #[trigger] answers[i] == (match (
                    run.locations[i],
                    (run.faults)(i as nat),
                ) {
                    (Err(e), _) => Err::<Seq<char>, StoreErrorView>(e),
                    (Ok(_), Some(e)) => Err(object_store_err(e)),
                    (Ok(location), None) => Ok(location),
                })
            &&& forall|path: Seq<char>| #[trigger]
                disk.files.contains_key(path) <==> run.disk.files.contains_key(path) && !exists|
                    i: int,
                |
                    0 <= i < items && #[trigger] run.deletes(i, path)
            &&& forall|path: Seq<char>| #[trigger]
                disk.files.contains_key(path) ==> disk.files[path] == run.disk.files[path]
        }),
    decreases items,
{
    if items > 0 {
        let item = (items - 1) as nat;
        law_delete_takes_each_object(run, item);
        let (answers, disk) = run.after(items);
        let (answers_before, before) = run.after(item);
        assert forall|i: int| 0 <= i < items implies #[trigger] answers[i] == (match (
            run.locations[i],
            (run.faults)(i as nat),
        ) {
            (Err(e), _) => Err::<Seq<char>, StoreErrorView>(e),
            (Ok(_), Some(e)) => Err(object_store_err(e)),
            (Ok(location), None) => Ok(location),
        }) by {
            if i < item {
                assert(answers[i] == answers_before[i]);
            }
        }
        assert forall|path: Seq<char>| #[trigger]
            disk.files.contains_key(path) <==> run.disk.files.contains_key(path) && !exists|
                i: int,
            |
                0 <= i < items && #[trigger] run.deletes(i, path) by {
            assert(before.files.contains_key(path) <==> run.disk.files.contains_key(path)
                && !exists|i: int| 0 <= i < item && #[trigger] run.deletes(i, path));
            assert(disk.files.contains_key(path) <==> before.files.contains_key(path)
                && !run.deletes(item as int, path));
            if exists|i: int| 0 <= i < items && #[trigger] run.deletes(i, path) {
                let i = choose|i: int| 0 <= i < items && #[trigger] run.deletes(i, path);
                assert(i < item || i == item);
            }
        }
        assert forall|path: Seq<char>| #[trigger]
            disk.files.contains_key(path) implies disk.files[path] == run.disk.files[path] by {
            assert(before.files.contains_key(path));
        }
    }
}

/// A deletion makes one call, for the file of the object alone and for nothing
/// below it, and ends with its answer.
pub proof fn law_delete_makes_one_call(location: Seq<char>, reply: ReplyView)
    ensures
        delete_start(Ok(location)) matches ProgressView::Pending(op) && op.request() == (
        RequestView::Delete { path: seq!['/'] + location, recursive: false }) && op.resume(
            reply,
        ) is Ended,
{
}

} // verus!
