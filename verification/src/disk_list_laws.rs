//! What listings give of the objects on a disk.

use crate::delete::delete_call;
use crate::error::{FileErrorView, StoreErrorView};
use crate::get_laws::meta_on;
use crate::list::{delimited, directory_of, listed, listed_all, DelimitedListingView};
use crate::list_laws::{
    in_directory, law_delimited_has_each_entry_once, law_delimited_takes_entries_that_count,
    law_listed_object_lies_below, law_listings_agree,
};
use crate::meta::{at_millis, object_meta, signed_millis, FileStatusView, ObjectMetaView};
use crate::model::Disk;
use crate::path::{
    absolute_file, last_slash, law_absolute_round_trip, lemma_parsed_is_valid, lemma_valid_ends,
    lies_below, parsed, valid_path, without_leading_slash, without_trailing_slash,
};
use crate::put::{PutResultView, PutView};
use crate::put_laws::{law_put_success_means_written, lemma_success_gives_etag, PutRun};
use crate::request::ProgressView;
use vstd::prelude::*;

verus! {

/// The path of a file or of a directory other than the root: absolute, and
/// without a slash at its end.
pub open spec fn is_file_path(path: Seq<char>) -> bool {
    path.len() > 0 && path[0] == '/' && path.last() != '/'
}

/// `path` is one step below `dir`.
pub open spec fn directly_in(dir: Seq<char>, path: Seq<char>) -> bool {
    last_slash(path) == if dir == seq!['/'] {
        0
    } else {
        dir.len() as int
    }
}

/// `path` belongs in a listing of `dir`: a deep one goes into the directories in
/// it, any other stops at them.
pub open spec fn belongs(dir: Seq<char>, path: Seq<char>, deep: bool) -> bool {
    path != dir && in_directory(dir, path) && (deep || directly_in(dir, path))
}

/// Some file of the disk lies below the directory `dir`.
pub open spec fn holds_files(disk: Disk, dir: Seq<char>) -> bool {
    exists|path: Seq<char>| #[trigger] disk.has(path) && in_directory(dir, path)
}

/// `entry` is the status of the directory `path`.
pub open spec fn is_directory(
    entry: Result<FileStatusView, FileErrorView>,
    path: Seq<char>,
) -> bool {
    entry matches Ok(status) && status.isdir && status.path == path
}

/// `entries` is what a file system lists for `dir`: the status of every file that
/// belongs in the listing, once, and of every directory that does and holds
/// files. Besides these there may be empty directories, the file `dir` itself,
/// and an error that says that there is no such directory.
pub open spec fn lists(
    disk: Disk,
    dir: Seq<char>,
    deep: bool,
    entries: Seq<Result<FileStatusView, FileErrorView>>,
) -> bool {
    &&& entries.no_duplicates()
    &&& forall|path: Seq<char>| #[trigger]
        disk.has(path) && belongs(dir, path, deep) ==> entries.contains(Ok(disk.status(path)))
    &&& forall|path: Seq<char>| #[trigger]
        holds_files(disk, path) && is_file_path(path) && belongs(dir, path, deep) ==> exists|
            i: int,
        |
            0 <= i < entries.len() && is_directory(#[trigger] entries[i], path)
    &&& forall|i: int|
        0 <= i < entries.len() ==> match #[trigger] entries[i] {
            Ok(status) => {
                ||| status.isdir
                ||| status.path == dir
                ||| disk.has(status.path) && belongs(dir, status.path, deep) && status
                    == disk.status(status.path)
            },
            Err(e) => e is FileNotFound,
        }
}

/// The disk has the object, at a time that the store can handle.
pub open spec fn listable(disk: Disk, location: Seq<char>) -> bool {
    let file = absolute_file(location);
    &&& valid_path(location)
    &&& disk.has(file)
    &&& at_millis(signed_millis(disk.files[file].modified)).in_range()
}

/// The object is one that a listing of `prefix` is to give.
pub open spec fn expected(
    disk: Disk,
    prefix: Seq<char>,
    deep: bool,
    location: Seq<char>,
) -> bool {
    &&& listable(disk, location)
    &&& lies_below(location, prefix)
    &&& deep || directly_in(directory_of(Some(prefix)), absolute_file(location))
}

proof fn lemma_status_gives_meta(disk: Disk, location: Seq<char>)
    requires
        listable(disk, location),
    ensures
        object_meta(disk.status(absolute_file(location))) == Ok::<ObjectMetaView, StoreErrorView>(
            meta_on(disk, location),
        ),
{
    law_absolute_round_trip(location);
}

proof fn lemma_spoken_entry(
    dir: Seq<char>,
    entries: Seq<Result<FileStatusView, FileErrorView>>,
    i: int,
) -> (at: int)
    requires
        0 <= i < listed_all(dir, entries).len(),
    ensures
        0 <= at < entries.len(),
        listed(dir, entries[at]) == Some(listed_all(dir, entries)[i]),
    decreases entries.len(),
{
    let before = entries.drop_last();
    if i < listed_all(dir, before).len() {
        lemma_spoken_entry(dir, before, i)
    } else {
        entries.len() - 1
    }
}

proof fn lemma_entry_is_spoken_of(
    dir: Seq<char>,
    entries: Seq<Result<FileStatusView, FileErrorView>>,
    at: int,
)
    requires
        0 <= at < entries.len(),
        listed(dir, entries[at]) is Some,
    ensures
        listed_all(dir, entries).contains(listed(dir, entries[at])->0),
    decreases entries.len(),
{
    let said = listed(dir, entries[at])->0;
    let all = listed_all(dir, entries);
    if at == entries.len() - 1 {
        assert(all.last() == said);
    } else {
        let before = entries.drop_last();
        lemma_entry_is_spoken_of(dir, before, at);
        let i = listed_all(dir, before).index_of(said);
        assert(all[i] == listed_all(dir, before)[i]);
    }
}

/// What is listed as an object is one that the listing is to give.
proof fn lemma_listed_is_expected(
    disk: Disk,
    prefix: Seq<char>,
    deep: bool,
    entries: Seq<Result<FileStatusView, FileErrorView>>,
    at: int,
)
    requires
        valid_path(prefix),
        forall|path: Seq<char>| #[trigger] disk.has(path) ==> is_file_path(path),
        lists(disk, directory_of(Some(prefix)), deep, entries),
        0 <= at < entries.len(),
        listed(directory_of(Some(prefix)), entries[at]) matches Some(Ok(_)),
    ensures
        ({
            let meta = listed(directory_of(Some(prefix)), entries[at])->0->Ok_0;
            &&& expected(disk, prefix, deep, meta.location)
            &&& meta == meta_on(disk, meta.location)
            &&& entries[at] == Ok::<FileStatusView, FileErrorView>(
                disk.status(absolute_file(meta.location)),
            )
        }),
{
    let dir = directory_of(Some(prefix));
    let status = entries[at]->Ok_0;
    let path = status.path;
    let location = parsed(path)->Ok_0;
    lemma_parsed_is_valid(path);
    assert(disk.has(path));
    let relative = without_leading_slash(path);
    if relative.len() > 0 {
        assert(relative.last() == path.last());
        assert(without_trailing_slash(relative) == relative);
    } else {
        assert(path.last() == path[0]);
    }
    assert(absolute_file(location) == path);
    law_listed_object_lies_below(prefix, location, status);
}

proof fn lemma_no_object_twice(
    disk: Disk,
    prefix: Seq<char>,
    deep: bool,
    entries: Seq<Result<FileStatusView, FileErrorView>>,
    i: int,
    j: int,
)
    requires
        valid_path(prefix),
        forall|path: Seq<char>| #[trigger] disk.has(path) ==> is_file_path(path),
        lists(disk, directory_of(Some(prefix)), deep, entries),
        0 <= i < j < listed_all(directory_of(Some(prefix)), entries).len(),
        listed_all(directory_of(Some(prefix)), entries)[i] is Ok,
    ensures
        listed_all(directory_of(Some(prefix)), entries)[i] != listed_all(
            directory_of(Some(prefix)),
            entries,
        )[j],
{
    let dir = directory_of(Some(prefix));
    let all = listed_all(dir, entries);
    if all[i] == all[j] {
        let (a, b) = lemma_spoken_entries(dir, entries, i, j);
        lemma_listed_is_expected(disk, prefix, deep, entries, a);
        lemma_listed_is_expected(disk, prefix, deep, entries, b);
        assert(entries[a] == entries[b]);
    }
}

proof fn lemma_spoken_entries(
    dir: Seq<char>,
    entries: Seq<Result<FileStatusView, FileErrorView>>,
    i: int,
    j: int,
) -> (at: (int, int))
    requires
        0 <= i < j < listed_all(dir, entries).len(),
    ensures
        0 <= at.0 < at.1 < entries.len(),
        listed(dir, entries[at.0]) == Some(listed_all(dir, entries)[i]),
        listed(dir, entries[at.1]) == Some(listed_all(dir, entries)[j]),
    decreases entries.len(),
{
    let before = entries.drop_last();
    if j < listed_all(dir, before).len() {
        lemma_spoken_entries(dir, before, i, j)
    } else {
        (lemma_spoken_entry(dir, before, i), entries.len() - 1)
    }
}

/// A listing of a prefix gives exactly the objects on the disk that lie below the
/// prefix, each once, with what the store says of it. (A file that is no object
/// is listed as an error: its path is no object path, or its time is out of
/// bounds.)
pub proof fn law_list_gives_objects_below(
    disk: Disk,
    prefix: Seq<char>,
    deep: bool,
    entries: Seq<Result<FileStatusView, FileErrorView>>,
)
    requires
        valid_path(prefix),
        forall|path: Seq<char>| #[trigger] disk.has(path) ==> is_file_path(path),
        lists(disk, directory_of(Some(prefix)), deep, entries),
    ensures
        ({
            let all = listed_all(directory_of(Some(prefix)), entries);
            &&& forall|location: Seq<char>| #[trigger]
                expected(disk, prefix, deep, location) ==> all.contains(
                    Ok(meta_on(disk, location)),
                )
            &&& forall|i: int|
                0 <= i < all.len() ==> match #[trigger] all[i] {
                    Ok(meta) => {
                        &&& expected(disk, prefix, deep, meta.location)
                        &&& meta == meta_on(disk, meta.location)
                    },
                    Err(e) => exists|path: Seq<char>| #[trigger]
                        disk.has(path) && object_meta(disk.status(path)) == Err::<
                            ObjectMetaView,
                            StoreErrorView,
                        >(e),
                }
            &&& forall|i: int, j: int|
                0 <= i < j < all.len() && #[trigger] all[i] is Ok ==> all[i] != #[trigger] all[j]
        }),
{
    let dir = directory_of(Some(prefix));
    let all = listed_all(dir, entries);
    assert forall|location: Seq<char>| #[trigger]
        expected(disk, prefix, deep, location) implies all.contains(
        Ok(meta_on(disk, location)),
    ) by {
        let file = absolute_file(location);
        lemma_status_gives_meta(disk, location);
        law_listed_object_lies_below(prefix, location, disk.status(file));
        assert(disk.has(file) && belongs(dir, file, deep));
        let at = entries.index_of(Ok(disk.status(file)));
        lemma_entry_is_spoken_of(dir, entries, at);
    }
    assert forall|i: int| 0 <= i < all.len() implies match #[trigger] all[i] {
        Ok(meta) => {
            &&& expected(disk, prefix, deep, meta.location)
            &&& meta == meta_on(disk, meta.location)
        },
        Err(e) => exists|path: Seq<char>| #[trigger]
            disk.has(path) && object_meta(disk.status(path)) == Err::<
                ObjectMetaView,
                StoreErrorView,
            >(e),
    } by {
        let at = lemma_spoken_entry(dir, entries, i);
        if all[i] is Ok {
            lemma_listed_is_expected(disk, prefix, deep, entries, at);
        } else {
            assert(disk.has(entries[at]->Ok_0.path));
        }
    }
    assert forall|i: int, j: int|
        0 <= i < j < all.len() && #[trigger] all[i] is Ok implies all[i] != #[trigger] all[j] by {
        lemma_no_object_twice(disk, prefix, deep, entries, i, j);
    }
}

/// A listing of one directory that ends well gives exactly the objects on the
/// disk that lie directly below the prefix, and every directory there that holds
/// objects.
pub proof fn law_delimited_gives_objects_directly_below(
    disk: Disk,
    prefix: Seq<char>,
    entries: Seq<Result<FileStatusView, FileErrorView>>,
)
    requires
        valid_path(prefix),
        forall|path: Seq<char>| #[trigger] disk.has(path) ==> is_file_path(path),
        lists(disk, directory_of(Some(prefix)), false, entries),
        DelimitedListingView::of(directory_of(Some(prefix))).after_all(entries) is Ok,
        delimited(
            DelimitedListingView::of(directory_of(Some(prefix))).after_all(entries)->Ok_0.statuses,
        ) is Ok,
    ensures
        ({
            let dir = directory_of(Some(prefix));
            let listing = DelimitedListingView::of(dir).after_all(entries)->Ok_0;
            let result = delimited(listing.statuses)->Ok_0;
            &&& forall|location: Seq<char>| #[trigger]
                expected(disk, prefix, false, location) ==> result.objects.contains(
                    meta_on(disk, location),
                )
            &&& forall|i: int|
                0 <= i < result.objects.len() ==> {
                    let meta = #[trigger] result.objects[i];
                    expected(disk, prefix, false, meta.location) && meta == meta_on(
                        disk,
                        meta.location,
                    )
                }
            &&& forall|location: Seq<char>|
                valid_path(location) && lies_below(location, prefix) && directly_in(
                    dir,
                    absolute_file(location),
                ) && holds_files(disk, absolute_file(location))
                    ==> #[trigger] result.common_prefixes.contains(location)
        }),
{
    let dir = directory_of(Some(prefix));
    let all = listed_all(dir, entries);
    let listing = DelimitedListingView::of(dir).after_all(entries)->Ok_0;
    let result = delimited(listing.statuses)->Ok_0;
    law_list_gives_objects_below(disk, prefix, false, entries);
    law_listings_agree(dir, entries);
    law_delimited_has_each_entry_once(listing.statuses);
    assert forall|location: Seq<char>| #[trigger]
        expected(disk, prefix, false, location) implies result.objects.contains(
        meta_on(disk, location),
    ) by {
        let said = Ok::<ObjectMetaView, StoreErrorView>(meta_on(disk, location));
        assert(all.contains(said));
        let i = all.index_of(said);
        assert(all[i] == Ok::<ObjectMetaView, StoreErrorView>(result.objects[i]));
    }
    assert forall|i: int| 0 <= i < result.objects.len() implies {
        let meta = #[trigger] result.objects[i];
        expected(disk, prefix, false, meta.location) && meta == meta_on(disk, meta.location)
    } by {
        assert(all[i] == Ok::<ObjectMetaView, StoreErrorView>(result.objects[i]));
    }
    assert forall|location: Seq<char>|
        valid_path(location) && lies_below(location, prefix) && directly_in(
            dir,
            absolute_file(location),
        ) && holds_files(disk, absolute_file(location)) implies #[trigger]
        result.common_prefixes.contains(location) by {
        let path = absolute_file(location);
        let probe = FileStatusView { path, length: 0, isdir: true, modification_time: 0 };
        law_listed_object_lies_below(prefix, location, probe);
        lemma_valid_ends(location);
        assert(path.last() == location.last());
        assert(holds_files(disk, path) && belongs(dir, path, false));
        let at = choose|i: int|
            0 <= i < entries.len() && is_directory(#[trigger] entries[i], path);
        let k = lemma_counted_status(dir, entries, at);
        assert(listing.statuses[k].isdir);
        law_absolute_round_trip(location);
    }
}

proof fn lemma_counted_status(
    dir: Seq<char>,
    entries: Seq<Result<FileStatusView, FileErrorView>>,
    at: int,
) -> (k: int)
    requires
        DelimitedListingView::of(dir).after_all(entries) is Ok,
        0 <= at < entries.len(),
        entries[at] matches Ok(status) && status.path != dir,
    ensures
        ({
            let listing = DelimitedListingView::of(dir).after_all(entries)->Ok_0;
            &&& 0 <= k < listing.statuses.len()
            &&& listing.statuses[k] == entries[at]->Ok_0
        }),
    decreases entries.len(),
{
    let before = entries.drop_last();
    law_delimited_takes_entries_that_count(dir, before);
    let listing = DelimitedListingView::of(dir).after_all(before)->Ok_0;
    if at == entries.len() - 1 {
        listing.statuses.len() as int
    } else {
        lemma_counted_status(dir, before, at)
    }
}

/// After a put that ended well, the object is listed below every prefix that it
/// lies below, with the ETag that the put was answered with.
pub proof fn law_put_object_is_listed(
    run: PutRun,
    steps: nat,
    prefix: Seq<char>,
    deep: bool,
    entries: Seq<Result<FileStatusView, FileErrorView>>,
)
    requires
        run.after(steps).0 matches ProgressView::Ended(Ok(_)),
        valid_path(run.location),
        valid_path(prefix),
        lies_below(run.location, prefix),
        deep || directly_in(directory_of(Some(prefix)), run.file()),
        forall|path: Seq<char>| #[trigger] run.after(steps).1.has(path) ==> is_file_path(path),
        lists(run.after(steps).1, directory_of(Some(prefix)), deep, entries),
    ensures
        ({
            let meta = meta_on(run.after(steps).1, run.location);
            &&& listed_all(directory_of(Some(prefix)), entries).contains(Ok(meta))
            &&& meta.location == run.location
            &&& run.after(steps).0 == ProgressView::<PutView, PutResultView>::Ended(
                Ok(PutResultView { e_tag: meta.e_tag, version: None }),
            )
        }),
{
    law_put_success_means_written(run, steps);
    lemma_success_gives_etag(run, steps);
    law_list_gives_objects_below(run.after(steps).1, prefix, deep, entries);
    assert(expected(run.after(steps).1, prefix, deep, run.location));
}

/// After a deletion the object is listed no more, below whatever prefix.
pub proof fn law_deleted_object_is_not_listed(
    disk: Disk,
    location: Seq<char>,
    prefix: Seq<char>,
    deep: bool,
    entries: Seq<Result<FileStatusView, FileErrorView>>,
)
    requires
        valid_path(prefix),
        forall|path: Seq<char>| #[trigger] disk.has(path) ==> is_file_path(path),
        lists(
            disk.call(delete_call(location), Seq::empty()).0,
            directory_of(Some(prefix)),
            deep,
            entries,
        ),
    ensures
        forall|i: int|
            0 <= i < listed_all(directory_of(Some(prefix)), entries).len() ==> (
            #[trigger] listed_all(directory_of(Some(prefix)), entries)[i] matches Ok(meta)
                ==> meta.location != location),
{
    let after = disk.call(delete_call(location), Seq::empty()).0;
    assert forall|path: Seq<char>| #[trigger] after.has(path) implies is_file_path(path) by {
        assert(disk.has(path));
    }
    law_list_gives_objects_below(after, prefix, deep, entries);
}

} // verus!
