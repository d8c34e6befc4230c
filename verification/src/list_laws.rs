//! What listings promise as a whole.

use crate::conditions::GetOptionsView;
use crate::error::{object_store_err, FileErrorView, StoreErrorView};
use crate::get_laws::{get_on, meta_on, readable};
use crate::list::{
    counts, delimited, directory_of, listed, listed_all, objects_among, prefixes_among,
    DelimitedListingView, ListResultView,
};
use crate::meta::{object_meta, FileStatusView, ObjectMetaView};
use crate::model::Disk;
use crate::path::{
    absolute_file, law_absolute_round_trip, law_prefix_by_segment, lies_below, parsed, valid_path,
    PathErrorView,
};
use vstd::prelude::*;

verus! {

/// The path of a file or a directory below `dir`, as the file system gives it.
pub open spec fn in_directory(dir: Seq<char>, path: Seq<char>) -> bool {
    if dir == seq!['/'] {
        dir.is_prefix_of(path)
    } else {
        dir.push('/').is_prefix_of(path)
    }
}

/// Listings go by segments: of what the file system has below the directory of
/// a prefix, every object that is listed lies below the prefix, under the path
/// that it was put at. So `foo/bar` lists `foo/bar/x` and not `foo/bar_baz/x`,
/// which is not in its directory.
pub proof fn law_listed_object_lies_below(
    prefix: Seq<char>,
    path: Seq<char>,
    status: FileStatusView,
)
    requires
        valid_path(prefix),
        valid_path(path),
        status.path == absolute_file(path),
    ensures
        in_directory(directory_of(Some(prefix)), status.path) && counts(
            directory_of(Some(prefix)),
            Ok(status),
        ) <==> lies_below(path, prefix),
        listed(directory_of(Some(prefix)), Ok(status)) matches Some(Ok(meta)) ==> meta.location
            == path,
        lies_below(path, prefix) && !status.isdir ==> listed(
            directory_of(Some(prefix)),
            Ok(status),
        ) == Some(object_meta(status)),
{
    law_absolute_round_trip(path);
    let dir = directory_of(Some(prefix));
    if prefix.len() == 0 {
        assert(dir == seq!['/']);
        assert(dir.is_prefix_of(absolute_file(path)));
        if path.len() == 0 {
            assert(absolute_file(path) == dir);
        } else {
            assert(absolute_file(path).len() != dir.len());
        }
    } else {
        assert(dir.len() > 1);
        law_prefix_by_segment(path, prefix);
        if lies_below(path, prefix) {
            assert(absolute_file(path).len() > dir.len());
        }
    }
}

/// A listing says of an object what a read of it says.
pub proof fn law_list_and_get_agree(
    disk: Disk,
    prefix: Seq<char>,
    location: Seq<char>,
    options: GetOptionsView,
)
    requires
        valid_path(prefix),
        lies_below(location, prefix),
        readable(disk, location),
    ensures
        listed(directory_of(Some(prefix)), Ok(disk.status(absolute_file(location)))) == Some(
            Ok::<ObjectMetaView, StoreErrorView>(meta_on(disk, location)),
        ),
        get_on(disk, location, options).0 matches Ok(got) ==> got.meta == meta_on(disk, location),
{
    law_absolute_round_trip(location);
    law_listed_object_lies_below(prefix, location, disk.status(absolute_file(location)));
}

/// The root is listed where there is no prefix, or an empty one.
pub proof fn law_empty_prefix_is_root()
    ensures
        directory_of(None) == directory_of(Some(Seq::empty())),
{
    assert(absolute_file(Seq::empty()) == seq!['/']);
}

/// A prefix that does not exist has no objects: the error that the file system
/// gives for it is dropped, and what is left is an empty listing.
pub proof fn law_missing_prefix_lists_nothing(dir: Seq<char>, path: Seq<char>)
    ensures
        listed(dir, Err(FileErrorView::FileNotFound(path))) is None,
        !counts(dir, Err(FileErrorView::FileNotFound(path))),
        delimited(Seq::empty()) == Ok::<ListResultView, StoreErrorView>(
            ListResultView { common_prefixes: Seq::empty(), objects: Seq::empty() },
        ),
{
}

proof fn lemma_prefixes_hold_directories(statuses: Seq<FileStatusView>, i: int)
    requires
        0 <= i < statuses.len(),
        statuses[i].isdir,
        prefixes_among(statuses) is Ok,
    ensures
        parsed(statuses[i].path) matches Ok(path) && prefixes_among(statuses)->Ok_0.contains(path),
    decreases statuses.len(),
{
    let paths = prefixes_among(statuses)->Ok_0;
    if i == statuses.len() - 1 {
        assert(paths.last() == parsed(statuses[i].path)->Ok_0);
    } else {
        let before = prefixes_among(statuses.drop_last())->Ok_0;
        lemma_prefixes_hold_directories(statuses.drop_last(), i);
        let at = before.index_of(parsed(statuses[i].path)->Ok_0);
        assert(paths[at] == before[at]);
    }
}

proof fn lemma_objects_hold_files(statuses: Seq<FileStatusView>, i: int)
    requires
        0 <= i < statuses.len(),
        !statuses[i].isdir,
        objects_among(statuses) is Ok,
    ensures
        object_meta(statuses[i]) matches Ok(meta) && objects_among(statuses)->Ok_0.contains(meta),
    decreases statuses.len(),
{
    let metas = objects_among(statuses)->Ok_0;
    if i == statuses.len() - 1 {
        assert(metas.last() == object_meta(statuses[i])->Ok_0);
    } else {
        let before = objects_among(statuses.drop_last())->Ok_0;
        lemma_objects_hold_files(statuses.drop_last(), i);
        let at = before.index_of(object_meta(statuses[i])->Ok_0);
        assert(metas[at] == before[at]);
    }
}

proof fn lemma_lengths_add_up(statuses: Seq<FileStatusView>)
    requires
        prefixes_among(statuses) is Ok,
        objects_among(statuses) is Ok,
    ensures
        prefixes_among(statuses)->Ok_0.len() + objects_among(statuses)->Ok_0.len()
            == statuses.len(),
    decreases statuses.len(),
{
    if statuses.len() > 0 {
        lemma_lengths_add_up(statuses.drop_last());
    }
}

/// A listing of one directory has each entry once: a directory among the
/// prefixes, a file among the objects, and nothing besides.
pub proof fn law_delimited_has_each_entry_once(statuses: Seq<FileStatusView>)
    requires
        delimited(statuses) is Ok,
    ensures
        ({
            let result = delimited(statuses)->Ok_0;
            &&& result.common_prefixes.len() + result.objects.len() == statuses.len()
            &&& forall|i: int|
                0 <= i < statuses.len() && (#[trigger] statuses[i]).isdir ==> (parsed(
                    statuses[i].path,
                ) matches Ok(path) && result.common_prefixes.contains(path))
            &&& forall|i: int|
                0 <= i < statuses.len() && !(#[trigger] statuses[i]).isdir ==> (object_meta(
                    statuses[i],
                ) matches Ok(meta) && result.objects.contains(meta))
        }),
{
    let result = delimited(statuses)->Ok_0;
    lemma_lengths_add_up(statuses);
    assert forall|i: int|
        0 <= i < statuses.len() && (#[trigger] statuses[i]).isdir implies (parsed(
        statuses[i].path,
    ) matches Ok(path) && result.common_prefixes.contains(path)) by {
        lemma_prefixes_hold_directories(statuses, i);
    }
    assert forall|i: int|
        0 <= i < statuses.len() && !(#[trigger] statuses[i]).isdir implies (object_meta(
        statuses[i],
    ) matches Ok(meta) && result.objects.contains(meta)) by {
        lemma_objects_hold_files(statuses, i);
    }
}

/// The entries of a listing that count, in their order.
pub open spec fn counted(
    dir: Seq<char>,
    entries: Seq<Result<FileStatusView, FileErrorView>>,
) -> Seq<Result<FileStatusView, FileErrorView>> {
    entries.filter(|entry: Result<FileStatusView, FileErrorView>| counts(dir, entry))
}

/// The first error among `entries` is the one at `i`.
pub open spec fn first_error_at(
    entries: Seq<Result<FileStatusView, FileErrorView>>,
    i: int,
) -> bool {
    &&& 0 <= i < entries.len()
    &&& entries[i] is Err
    &&& forall|j: int| 0 <= j < i ==> (#[trigger] entries[j]) is Ok
}

/// A listing of one directory takes the entries that count, in their order, and
/// leaves out all others: it ends with what the store says of exactly these, or
/// with the first error among them.
pub proof fn law_delimited_takes_entries_that_count(
    dir: Seq<char>,
    entries: Seq<Result<FileStatusView, FileErrorView>>,
)
    ensures
        match DelimitedListingView::of(dir).after_all(entries) {
            Ok(listing) => {
                &&& listing.dir == dir
                &&& listing.statuses.len() == counted(dir, entries).len()
                &&& forall|i: int|
                    0 <= i < listing.statuses.len() ==> counted(dir, entries)[i] == Ok::<
                        FileStatusView,
                        FileErrorView,
                    >(#[trigger] listing.statuses[i])
            },
            Err(error) => exists|i: int| #[trigger]
                first_error_at(counted(dir, entries), i) && error == object_store_err(
                    counted(dir, entries)[i]->Err_0,
                ),
        },
    decreases entries.len(),
{
    reveal(Seq::filter);
    if entries.len() > 0 {
        let before = entries.drop_last();
        law_delimited_takes_entries_that_count(dir, before);
        let kept = counted(dir, before);
        match DelimitedListingView::of(dir).after_all(before) {
            Ok(listing) => {
                if counts(dir, entries.last()) && entries.last() is Err {
                    let all = counted(dir, entries);
                    assert forall|j: int| 0 <= j < kept.len() implies (#[trigger] all[j]) is Ok by {
                        assert(all[j] == kept[j]);
                        assert(kept[j] == Ok::<FileStatusView, FileErrorView>(
                            listing.statuses[j],
                        ));
                    }
                    assert(first_error_at(all, kept.len() as int));
                }
            },
            Err(error) => {
                let i = choose|i: int| #[trigger]
                    first_error_at(kept, i) && error == object_store_err(kept[i]->Err_0);
                let all = counted(dir, entries);
                assert forall|j: int| 0 <= j < i implies (#[trigger] all[j]) is Ok by {
                    assert(all[j] == kept[j]);
                }
                assert(first_error_at(all, i));
            },
        }
    }
}

/// The entries that a listing of all objects says something for, in their
/// order.
pub open spec fn spoken_of(
    dir: Seq<char>,
    entries: Seq<Result<FileStatusView, FileErrorView>>,
) -> Seq<Result<FileStatusView, FileErrorView>> {
    entries.filter(|entry: Result<FileStatusView, FileErrorView>| listed(dir, entry) is Some)
}

/// A listing of all objects speaks of the files and errors that count, in their
/// order, and says of each what [`listed`] has.
pub proof fn law_list_keeps_order(
    dir: Seq<char>,
    entries: Seq<Result<FileStatusView, FileErrorView>>,
)
    ensures
        listed_all(dir, entries).len() == spoken_of(dir, entries).len(),
        forall|i: int|
            0 <= i < listed_all(dir, entries).len() ==> Some(
                #[trigger] listed_all(dir, entries)[i],
            ) == listed(dir, spoken_of(dir, entries)[i]),
    decreases entries.len(),
{
    reveal(Seq::filter);
    if entries.len() > 0 {
        let before = entries.drop_last();
        law_list_keeps_order(dir, before);
        assert forall|i: int| 0 <= i < listed_all(dir, entries).len() implies Some(
            #[trigger] listed_all(dir, entries)[i],
        ) == listed(dir, spoken_of(dir, entries)[i]) by {
            if i < listed_all(dir, before).len() {
                assert(listed_all(dir, entries)[i] == listed_all(dir, before)[i]);
                assert(spoken_of(dir, entries)[i] == spoken_of(dir, before)[i]);
            }
        }
    }
}

/// The two listings agree: on the same entries, where the listing of one
/// directory ends well, the listing of all objects gives the same objects, in
/// the same order, and nothing else.
pub proof fn law_listings_agree(
    dir: Seq<char>,
    entries: Seq<Result<FileStatusView, FileErrorView>>,
)
    requires
        DelimitedListingView::of(dir).after_all(entries) is Ok,
        delimited(DelimitedListingView::of(dir).after_all(entries)->Ok_0.statuses) is Ok,
    ensures
        ({
            let statuses = DelimitedListingView::of(dir).after_all(entries)->Ok_0.statuses;
            let objects = delimited(statuses)->Ok_0.objects;
            &&& listed_all(dir, entries).len() == objects.len()
            &&& forall|i: int|
                0 <= i < objects.len() ==> listed_all(dir, entries)[i] == Ok::<
                    ObjectMetaView,
                    StoreErrorView,
                >(#[trigger] objects[i])
        }),
{
    lemma_objects_are_listed(dir, entries);
}

proof fn lemma_objects_are_listed(
    dir: Seq<char>,
    entries: Seq<Result<FileStatusView, FileErrorView>>,
)
    requires
        DelimitedListingView::of(dir).after_all(entries) is Ok,
        objects_among(DelimitedListingView::of(dir).after_all(entries)->Ok_0.statuses) is Ok,
    ensures
        ({
            let listing = DelimitedListingView::of(dir).after_all(entries)->Ok_0;
            let objects = objects_among(listing.statuses)->Ok_0;
            &&& listing.dir == dir
            &&& listed_all(dir, entries).len() == objects.len()
            &&& forall|i: int|
                0 <= i < objects.len() ==> listed_all(dir, entries)[i] == Ok::<
                    ObjectMetaView,
                    StoreErrorView,
                >(#[trigger] objects[i])
        }),
    decreases entries.len(),
{
    if entries.len() > 0 {
        let before = entries.drop_last();
        let listing = DelimitedListingView::of(dir).after_all(before)->Ok_0;
        law_delimited_takes_entries_that_count(dir, before);
        if let Ok(status) = entries.last() {
            assert(listing.statuses.push(status).drop_last() == listing.statuses);
        }
        lemma_objects_are_listed(dir, before);
    }
}

/// What a listing of all objects says for one entry: nothing for a directory, for
/// the listed path itself, and where there is no such path; what the store says
/// of the file for any other file; and the error for any other error.
pub proof fn law_list_speaks_of_files_and_errors(
    dir: Seq<char>,
    status: FileStatusView,
    e: FileErrorView,
)
    ensures
        listed(dir, Ok(status)) == (if status.isdir || status.path == dir {
            None::<Result<ObjectMetaView, StoreErrorView>>
        } else {
            Some(object_meta(status))
        }),
        listed(dir, Err(e)) == (if e is FileNotFound {
            None::<Result<ObjectMetaView, StoreErrorView>>
        } else {
            Some(Err(object_store_err(e)))
        }),
{
}

/// What a listing of one directory does with one entry: it keeps the status of
/// every file and directory but the listed path itself, and ends with every error
/// but that there is no such path.
pub proof fn law_delimited_keeps_files_and_directories(
    listing: DelimitedListingView,
    status: FileStatusView,
    e: FileErrorView,
)
    ensures
        listing.answer(Ok(status)) is Ok,
        listing.after(Ok(status)).dir == listing.dir,
        listing.after(Ok(status)).statuses == (if status.path == listing.dir {
            listing.statuses
        } else {
            listing.statuses.push(status)
        }),
        listing.after(Err(e)) == listing,
        listing.answer(Err(e)) == (if e is FileNotFound {
            Ok::<(), StoreErrorView>(())
        } else {
            Err(object_store_err(e))
        }),
{
}

/// The store can say something of what `status` tells of: the path of a directory
/// is an object path, and a file has what the store says of it.
pub open spec fn is_sound(status: FileStatusView) -> bool {
    if status.isdir {
        parsed(status.path) is Ok
    } else {
        object_meta(status) is Ok
    }
}

/// A listing of one directory ends well unless an entry is at fault, however many
/// entries there are.
pub proof fn law_delimited_ends_well(statuses: Seq<FileStatusView>)
    requires
        forall|i: int| 0 <= i < statuses.len() ==> is_sound(#[trigger] statuses[i]),
    ensures
        delimited(statuses) is Ok,
{
    lemma_sound_statuses(statuses);
}

proof fn lemma_sound_statuses(statuses: Seq<FileStatusView>)
    requires
        forall|i: int| 0 <= i < statuses.len() ==> is_sound(#[trigger] statuses[i]),
    ensures
        prefixes_among(statuses) is Ok,
        objects_among(statuses) is Ok,
    decreases statuses.len(),
{
    if statuses.len() > 0 {
        let before = statuses.drop_last();
        assert forall|i: int| 0 <= i < before.len() implies is_sound(#[trigger] before[i]) by {
            assert(before[i] == statuses[i]);
        }
        lemma_sound_statuses(before);
        assert(is_sound(statuses[statuses.len() - 1]));
    }
}

/// All entries of a directory are taken without an error exactly where there is
/// none among them but that there is no such path, and then the listing ends well
/// if the store can say something of each file and directory.
pub proof fn law_whole_delimited_ends_well(
    dir: Seq<char>,
    entries: Seq<Result<FileStatusView, FileErrorView>>,
)
    ensures
        DelimitedListingView::of(dir).after_all(entries) is Ok <==> forall|i: int|
            0 <= i < entries.len() ==> (#[trigger] entries[i] matches Err(e) ==> e
                is FileNotFound),
        (forall|i: int|
            0 <= i < entries.len() ==> match #[trigger] entries[i] {
                Ok(status) => status.path == dir || is_sound(status),
                Err(e) => e is FileNotFound,
            }) ==> (DelimitedListingView::of(dir).after_all(entries) matches Ok(listing)
            && delimited(listing.statuses) is Ok),
    decreases entries.len(),
{
    lemma_taken_without_error(dir, entries);
    if forall|i: int|
        0 <= i < entries.len() ==> match #[trigger] entries[i] {
            Ok(status) => status.path == dir || is_sound(status),
            Err(e) => e is FileNotFound,
        } {
        assert forall|i: int| 0 <= i < entries.len() implies (#[trigger] entries[i] matches Err(e)
            ==> e is FileNotFound) by {}
        let listing = DelimitedListingView::of(dir).after_all(entries)->Ok_0;
        lemma_taken_are_sound(dir, entries);
        law_delimited_ends_well(listing.statuses);
    }
}

proof fn lemma_taken_without_error(
    dir: Seq<char>,
    entries: Seq<Result<FileStatusView, FileErrorView>>,
)
    ensures
        DelimitedListingView::of(dir).after_all(entries) is Ok <==> forall|i: int|
            0 <= i < entries.len() ==> (#[trigger] entries[i] matches Err(e) ==> e
                is FileNotFound),
    decreases entries.len(),
{
    if entries.len() > 0 {
        let before = entries.drop_last();
        lemma_taken_without_error(dir, before);
        law_delimited_takes_entries_that_count(dir, before);
        if DelimitedListingView::of(dir).after_all(entries) is Ok {
            assert forall|i: int| 0 <= i < entries.len() implies (
            #[trigger] entries[i] matches Err(e) ==> e is FileNotFound) by {
                if i < before.len() {
                    assert(before[i] == entries[i]);
                }
            }
        } else if forall|i: int|
            0 <= i < entries.len() ==> (#[trigger] entries[i] matches Err(e) ==> e
                is FileNotFound) {
            assert forall|i: int| 0 <= i < before.len() implies (
            #[trigger] before[i] matches Err(e) ==> e is FileNotFound) by {
                assert(before[i] == entries[i]);
            }
            assert(entries[entries.len() - 1] == entries.last());
        }
    }
}

proof fn lemma_taken_are_sound(
    dir: Seq<char>,
    entries: Seq<Result<FileStatusView, FileErrorView>>,
)
    requires
        DelimitedListingView::of(dir).after_all(entries) is Ok,
        forall|i: int|
            0 <= i < entries.len() ==> match #[trigger] entries[i] {
                Ok(status) => status.path == dir || is_sound(status),
                Err(e) => e is FileNotFound,
            },
    ensures
        forall|i: int|
            0 <= i < DelimitedListingView::of(dir).after_all(entries)->Ok_0.statuses.len()
                ==> is_sound(
                #[trigger] DelimitedListingView::of(dir).after_all(entries)->Ok_0.statuses[i],
            ),
    decreases entries.len(),
{
    if entries.len() > 0 {
        let before = entries.drop_last();
        assert forall|i: int| 0 <= i < before.len() implies match #[trigger] before[i] {
            Ok(status) => status.path == dir || is_sound(status),
            Err(e) => e is FileNotFound,
        } by {
            assert(before[i] == entries[i]);
        }
        lemma_taken_are_sound(dir, before);
        law_delimited_takes_entries_that_count(dir, before);
        assert(entries[entries.len() - 1] == entries.last());
    }
}

/// A listing of one directory that ends in error was failed by an entry: by the
/// first directory whose path is no object path or, if there is none, by the
/// first file that the store can say nothing of. The error is that of the entry.
pub proof fn law_delimited_error_has_cause(statuses: Seq<FileStatusView>)
    ensures
        delimited(statuses) matches Err(e) ==> exists|i: int|
            {
                &&& 0 <= i < statuses.len()
                &&& !is_sound(#[trigger] statuses[i])
                &&& if statuses[i].isdir {
                    &&& parsed(statuses[i].path) matches Err(source)
                        && e == StoreErrorView::InvalidPath(source)
                    &&& forall|j: int|
                        0 <= j < i && statuses[j].isdir ==> is_sound(#[trigger] statuses[j])
                } else {
                    &&& object_meta(statuses[i]) matches Err(error) && e == error
                    &&& forall|j: int|
                        0 <= j < statuses.len() && statuses[j].isdir ==> is_sound(
                            #[trigger] statuses[j],
                        )
                    &&& forall|j: int|
                        0 <= j < i && !statuses[j].isdir ==> is_sound(#[trigger] statuses[j])
                }
            },
{
    if prefixes_among(statuses) is Err {
        let i = lemma_first_bad_directory(statuses);
        assert(!is_sound(statuses[i]));
    } else if objects_among(statuses) is Err {
        let i = lemma_first_bad_file(statuses);
        assert(!is_sound(statuses[i]));
        assert forall|j: int| 0 <= j < statuses.len() && statuses[j].isdir implies is_sound(
            #[trigger] statuses[j],
        ) by {
            lemma_prefixes_hold_directories(statuses, j);
        }
    }
}

proof fn lemma_first_bad_directory(statuses: Seq<FileStatusView>) -> (i: int)
    requires
        prefixes_among(statuses) is Err,
    ensures
        0 <= i < statuses.len(),
        statuses[i].isdir,
        parsed(statuses[i].path) matches Err(source) && prefixes_among(statuses)->Err_0
            == StoreErrorView::InvalidPath(source),
        forall|j: int| 0 <= j < i && statuses[j].isdir ==> is_sound(#[trigger] statuses[j]),
    decreases statuses.len(),
{
    let before = statuses.drop_last();
    if prefixes_among(before) is Err {
        let i = lemma_first_bad_directory(before);
        assert forall|j: int| 0 <= j < i && statuses[j].isdir implies is_sound(
            #[trigger] statuses[j],
        ) by {
            assert(before[j] == statuses[j]);
        }
        i
    } else {
        let i = statuses.len() - 1;
        assert forall|j: int| 0 <= j < i && statuses[j].isdir implies is_sound(
            #[trigger] statuses[j],
        ) by {
            assert(before[j] == statuses[j]);
            lemma_prefixes_hold_directories(before, j);
        }
        i
    }
}

proof fn lemma_first_bad_file(statuses: Seq<FileStatusView>) -> (i: int)
    requires
        objects_among(statuses) is Err,
    ensures
        0 <= i < statuses.len(),
        !statuses[i].isdir,
        object_meta(statuses[i]) matches Err(e) && objects_among(statuses)->Err_0 == e,
        forall|j: int| 0 <= j < i && !statuses[j].isdir ==> is_sound(#[trigger] statuses[j]),
    decreases statuses.len(),
{
    let before = statuses.drop_last();
    if objects_among(before) is Err {
        let i = lemma_first_bad_file(before);
        assert forall|j: int| 0 <= j < i && !statuses[j].isdir implies is_sound(
            #[trigger] statuses[j],
        ) by {
            assert(before[j] == statuses[j]);
        }
        i
    } else {
        let i = statuses.len() - 1;
        assert forall|j: int| 0 <= j < i && !statuses[j].isdir implies is_sound(
            #[trigger] statuses[j],
        ) by {
            assert(before[j] == statuses[j]);
            lemma_objects_hold_files(before, j);
        }
        i
    }
}

/// The directories among `statuses`, in their order.
pub open spec fn directories(statuses: Seq<FileStatusView>) -> Seq<FileStatusView> {
    statuses.filter(|status: FileStatusView| status.isdir)
}

/// The files among `statuses`, in their order.
pub open spec fn files(statuses: Seq<FileStatusView>) -> Seq<FileStatusView> {
    statuses.filter(|status: FileStatusView| !status.isdir)
}

/// A listing of one directory that ends well has the paths of its directories and
/// what the store says of its files, both in the order of the entries.
pub proof fn law_delimited_keeps_order(statuses: Seq<FileStatusView>)
    requires
        delimited(statuses) is Ok,
    ensures
        ({
            let result = delimited(statuses)->Ok_0;
            &&& result.common_prefixes.len() == directories(statuses).len()
            &&& forall|i: int|
                0 <= i < result.common_prefixes.len() ==> parsed(directories(statuses)[i].path)
                    == Ok::<Seq<char>, PathErrorView>(#[trigger] result.common_prefixes[i])
            &&& result.objects.len() == files(statuses).len()
            &&& forall|i: int|
                0 <= i < result.objects.len() ==> object_meta(files(statuses)[i]) == Ok::<
                    ObjectMetaView,
                    StoreErrorView,
                >(#[trigger] result.objects[i])
        }),
{
    lemma_prefixes_in_order(statuses);
    lemma_objects_in_order(statuses);
}

proof fn lemma_prefixes_in_order(statuses: Seq<FileStatusView>)
    requires
        prefixes_among(statuses) is Ok,
    ensures
        ({
            let paths = prefixes_among(statuses)->Ok_0;
            &&& paths.len() == directories(statuses).len()
            &&& forall|i: int|
                0 <= i < paths.len() ==> parsed(directories(statuses)[i].path) == Ok::<
                    Seq<char>,
                    PathErrorView,
                >(#[trigger] paths[i])
        }),
    decreases statuses.len(),
{
    reveal(Seq::filter);
    if statuses.len() > 0 {
        let before = statuses.drop_last();
        lemma_prefixes_in_order(before);
        let paths = prefixes_among(statuses)->Ok_0;
        assert forall|i: int| 0 <= i < paths.len() implies parsed(directories(statuses)[i].path)
            == Ok::<Seq<char>, PathErrorView>(#[trigger] paths[i]) by {
            if i < prefixes_among(before)->Ok_0.len() {
                assert(paths[i] == prefixes_among(before)->Ok_0[i]);
                assert(directories(statuses)[i] == directories(before)[i]);
            }
        }
    }
}

proof fn lemma_objects_in_order(statuses: Seq<FileStatusView>)
    requires
        objects_among(statuses) is Ok,
    ensures
        ({
            let metas = objects_among(statuses)->Ok_0;
            &&& metas.len() == files(statuses).len()
            &&& forall|i: int|
                0 <= i < metas.len() ==> object_meta(files(statuses)[i]) == Ok::<
                    ObjectMetaView,
                    StoreErrorView,
                >(#[trigger] metas[i])
        }),
    decreases statuses.len(),
{
    reveal(Seq::filter);
    if statuses.len() > 0 {
        let before = statuses.drop_last();
        lemma_objects_in_order(before);
        let metas = objects_among(statuses)->Ok_0;
        assert forall|i: int| 0 <= i < metas.len() implies object_meta(files(statuses)[i]) == Ok::<
            ObjectMetaView,
            StoreErrorView,
        >(#[trigger] metas[i]) by {
            if i < objects_among(before)->Ok_0.len() {
                assert(metas[i] == objects_among(before)->Ok_0[i]);
                assert(files(statuses)[i] == files(before)[i]);
            }
        }
    }
}

/// The directory that is listed for a prefix is its path with a slash before it.
pub proof fn law_prefix_names_directory(prefix: Seq<char>)
    ensures
        directory_of(Some(prefix)).len() == prefix.len() + 1,
        directory_of(Some(prefix))[0] == '/',
        directory_of(Some(prefix)).skip(1) == prefix,
        directory_of(None) == seq!['/'],
{
    assert(directory_of(Some(prefix)).skip(1) == prefix);
}

} // verus!
