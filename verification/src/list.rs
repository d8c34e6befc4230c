//! Listing objects.

use crate::error::{
    object_store_err, store_error, FileError, FileErrorView, StoreError, StoreErrorView,
};
use crate::meta::{
    get_object_meta, object_meta, FileStatus, FileStatusView, ObjectMeta, ObjectMetaView,
};
use crate::path::{absolute_file, make_absolute_file, parsed, Path};
use vstd::prelude::*;

verus! {

/// What the file system lists: the status of a file or a directory, or an
/// error in its place.
pub open spec fn entry_view(entry: Result<FileStatus, FileError>) -> Result<
    FileStatusView,
    FileErrorView,
> {
    match entry {
        Ok(status) => Ok(status@),
        Err(e) => Err(e@),
    }
}

/// The directory that is listed for a prefix: the root where there is none.
pub open spec fn directory_of(prefix: Option<Seq<char>>) -> Seq<char> {
    match prefix {
        Some(path) => absolute_file(path),
        None => seq!['/'],
    }
}

/// The entry counts: a directory that does not exist has no entries, and a
/// file that is listed for its own path is no entry of a directory.
pub open spec fn counts(dir: Seq<char>, entry: Result<FileStatusView, FileErrorView>) -> bool {
    match entry {
        Ok(status) => status.path != dir,
        Err(FileErrorView::FileNotFound(_)) => false,
        Err(_) => true,
    }
}

/// What a listing of all objects below `dir` says for an entry: nothing for a
/// directory, as there are none among objects.
pub open spec fn listed(dir: Seq<char>, entry: Result<FileStatusView, FileErrorView>) -> Option<
    Result<ObjectMetaView, StoreErrorView>,
> {
    if !counts(dir, entry) {
        None
    } else {
        match entry {
            Ok(status) => if status.isdir {
                None
            } else {
                Some(object_meta(status))
            },
            Err(e) => Some(Err(object_store_err(e))),
        }
    }
}

/// What a listing of all objects below `dir` says for a sequence of entries: one
/// after another, what it says for those that it says anything for.
pub open spec fn listed_all(
    dir: Seq<char>,
    entries: Seq<Result<FileStatusView, FileErrorView>>,
) -> Seq<Result<ObjectMetaView, StoreErrorView>>
    decreases entries.len(),
{
    if entries.len() == 0 {
        Seq::empty()
    } else {
        let before = listed_all(dir, entries.drop_last());
        match listed(dir, entries.last()) {
            Some(said) => before.push(said),
            None => before,
        }
    }
}

/// The directory that is listed for a prefix.
pub fn list_directory(prefix: Option<&Path>) -> (dir: String)
    ensures
        dir@ == directory_of(
            match prefix {
                Some(path) => Some(path@),
                None => None,
            },
        ),
{
    proof {
        reveal_strlit("/");
    }
    match prefix {
        Some(path) => make_absolute_file(path),
        None => {
            assert("/"@ == seq!['/']);
            "/".to_owned()
        },
    }
}

fn entry_counts(dir: &String, entry: &Result<FileStatus, FileError>) -> (r: bool)
    ensures
        r == counts(dir@, entry_view(*entry)),
{
    match entry {
        Ok(status) => !(status.path == *dir),
        Err(FileError::FileNotFound(_)) => false,
        Err(_) => true,
    }
}

/// What a listing of all objects below `dir` says for an entry.
pub fn list_entry(dir: &String, entry: Result<FileStatus, FileError>) -> (r: Option<
    Result<ObjectMeta, StoreError>,
>)
    ensures
        match r {
            None => listed(dir@, entry_view(entry)) is None,
            Some(Ok(meta)) => listed(dir@, entry_view(entry)) == Some(
                Ok::<ObjectMetaView, StoreErrorView>(meta@),
            ),
            Some(Err(e)) => listed(dir@, entry_view(entry)) == Some(
                Err::<ObjectMetaView, StoreErrorView>(e@),
            ),
        },
{
    if !entry_counts(dir, &entry) {
        return None;
    }
    match entry {
        Ok(status) => if status.isdir {
            None
        } else {
            Some(get_object_meta(&status))
        },
        Err(e) => Some(Err(store_error(e))),
    }
}

/// The objects in a directory, and the directories in it.
#[derive(Debug)]
pub struct ListResult {
    pub common_prefixes: Vec<Path>,
    pub objects: Vec<ObjectMeta>,
}

pub struct ListResultView {
    pub common_prefixes: Seq<Seq<char>>,
    pub objects: Seq<ObjectMetaView>,
}

impl View for ListResult {
    type V = ListResultView;

    open spec fn view(&self) -> ListResultView {
        ListResultView {
            common_prefixes: self.common_prefixes@.map_values(|path: Path| path@),
            objects: self.objects@.map_values(|meta: ObjectMeta| meta@),
        }
    }
}

/// The paths of the directories among `statuses`, in their order, or the error
/// for the first that is no object path.
pub open spec fn prefixes_among(statuses: Seq<FileStatusView>) -> Result<
    Seq<Seq<char>>,
    StoreErrorView,
>
    decreases statuses.len(),
{
    if statuses.len() == 0 {
        Ok(Seq::empty())
    } else {
        let status = statuses.last();
        match (prefixes_among(statuses.drop_last()), parsed(status.path)) {
            (Err(e), _) => Err(e),
            (Ok(before), _) if !status.isdir => Ok(before),
            (Ok(before), Ok(path)) => Ok(before.push(path)),
            (Ok(_), Err(source)) => Err(StoreErrorView::InvalidPath(source)),
        }
    }
}

/// What the store says of the files among `statuses`, in their order, or the
/// error for the first that it cannot say it of.
pub open spec fn objects_among(statuses: Seq<FileStatusView>) -> Result<
    Seq<ObjectMetaView>,
    StoreErrorView,
>
    decreases statuses.len(),
{
    if statuses.len() == 0 {
        Ok(Seq::empty())
    } else {
        let status = statuses.last();
        match (objects_among(statuses.drop_last()), object_meta(status)) {
            (Err(e), _) => Err(e),
            (Ok(before), _) if status.isdir => Ok(before),
            (Ok(before), Ok(meta)) => Ok(before.push(meta)),
            (Ok(_), Err(e)) => Err(e),
        }
    }
}

/// What a listing of one directory ends with: an error among its directories
/// comes before one among its files.
pub open spec fn delimited(statuses: Seq<FileStatusView>) -> Result<
    ListResultView,
    StoreErrorView,
> {
    match (prefixes_among(statuses), objects_among(statuses)) {
        (Err(e), _) => Err(e),
        (_, Err(e)) => Err(e),
        (Ok(common_prefixes), Ok(objects)) => Ok(ListResultView { common_prefixes, objects }),
    }
}

/// The listing of one directory, as far as it has come.
#[derive(Debug)]
pub struct DelimitedListing {
    dir: String,
    statuses: Vec<FileStatus>,
}

pub struct DelimitedListingView {
    pub dir: Seq<char>,
    /// The entries that count.
    pub statuses: Seq<FileStatusView>,
}

impl View for DelimitedListing {
    type V = DelimitedListingView;

    closed spec fn view(&self) -> DelimitedListingView {
        DelimitedListingView {
            dir: self.dir@,
            statuses: self.statuses@.map_values(|status: FileStatus| status@),
        }
    }
}

impl DelimitedListingView {
    /// The listing of `dir` before any entry is taken.
    pub open spec fn of(dir: Seq<char>) -> DelimitedListingView {
        DelimitedListingView { dir, statuses: Seq::empty() }
    }

    /// The listing once it has taken an entry.
    pub open spec fn after(
        self,
        entry: Result<FileStatusView, FileErrorView>,
    ) -> DelimitedListingView {
        match entry {
            Ok(status) if counts(self.dir, entry) => {
                DelimitedListingView { statuses: self.statuses.push(status), ..self }
            },
            _ => self,
        }
    }

    /// The answer to an entry: an error that counts ends the listing.
    pub open spec fn answer(self, entry: Result<FileStatusView, FileErrorView>) -> Result<
        (),
        StoreErrorView,
    > {
        match entry {
            Err(e) if counts(self.dir, entry) => Err(object_store_err(e)),
            _ => Ok(()),
        }
    }

    /// The listing once it has taken a sequence of entries, one after another,
    /// or the error that it ends with on the way.
    pub open spec fn after_all(
        self,
        entries: Seq<Result<FileStatusView, FileErrorView>>,
    ) -> Result<DelimitedListingView, StoreErrorView>
        decreases entries.len(),
    {
        if entries.len() == 0 {
            Ok(self)
        } else {
            match self.after_all(entries.drop_last()) {
                Err(e) => Err(e),
                Ok(listing) => match listing.answer(entries.last()) {
                    Err(e) => Err(e),
                    Ok(()) => Ok(listing.after(entries.last())),
                },
            }
        }
    }
}

impl DelimitedListing {
    /// Starts to list the directory that stands for `prefix`.
    pub fn start(prefix: Option<&Path>) -> (listing: DelimitedListing)
        ensures
            listing@ == DelimitedListingView::of(
                directory_of(
                    match prefix {
                        Some(path) => Some(path@),
                        None => None,
                    },
                ),
            ),
    {
        let listing = DelimitedListing { dir: list_directory(prefix), statuses: Vec::new() };
        assert(listing@.statuses == Seq::<FileStatusView>::empty());
        listing
    }

    /// The directory that is listed.
    pub fn directory(&self) -> (dir: &str)
        ensures
            dir@ == self@.dir,
    {
        self.dir.as_str()
    }

    /// Takes an entry. The listing ends with the first error that counts.
    pub fn add_entry(&mut self, entry: Result<FileStatus, FileError>) -> (r: Result<(), StoreError>)
        ensures
            final(self)@ == old(self)@.after(entry_view(entry)),
            match r {
                Ok(()) => old(self)@.answer(entry_view(entry)) is Ok,
                Err(e) => old(self)@.answer(entry_view(entry)) == Err::<(), StoreErrorView>(e@),
            },
    {
        if !entry_counts(&self.dir, &entry) {
            return Ok(());
        }
        match entry {
            Ok(status) => {
                self.statuses.push(status);
                assert(self@.statuses == old(self)@.statuses.push(status@));
                Ok(())
            },
            Err(e) => Err(store_error(e)),
        }
    }

    /// What the listing ends with, once all entries are taken.
    pub fn finish(self) -> (r: Result<ListResult, StoreError>)
        ensures
            match r {
                Ok(result) => delimited(self@.statuses) == Ok::<ListResultView, StoreErrorView>(
                    result@,
                ),
                Err(e) => delimited(self@.statuses) == Err::<ListResultView, StoreErrorView>(e@),
            },
    {
        let common_prefixes: Vec<Path> = match collect_prefixes(&self.statuses) {
            Ok(paths) => paths,
            Err(e) => {
                return Err(e);
            },
        };
        let objects: Vec<ObjectMeta> = match collect_objects(&self.statuses) {
            Ok(metas) => metas,
            Err(e) => {
                return Err(e);
            },
        };
        Ok(ListResult { common_prefixes, objects })
    }
}

proof fn lemma_prefixes_error_stays(statuses: Seq<FileStatusView>, n: int)
    requires
        0 <= n <= statuses.len(),
        prefixes_among(statuses.take(n)) is Err,
    ensures
        prefixes_among(statuses) == prefixes_among(statuses.take(n)),
    decreases statuses.len(),
{
    if n == statuses.len() {
        assert(statuses.take(n) == statuses);
    } else {
        assert(statuses.drop_last().take(n) == statuses.take(n));
        lemma_prefixes_error_stays(statuses.drop_last(), n);
    }
}

proof fn lemma_objects_error_stays(statuses: Seq<FileStatusView>, n: int)
    requires
        0 <= n <= statuses.len(),
        objects_among(statuses.take(n)) is Err,
    ensures
        objects_among(statuses) == objects_among(statuses.take(n)),
    decreases statuses.len(),
{
    if n == statuses.len() {
        assert(statuses.take(n) == statuses);
    } else {
        assert(statuses.drop_last().take(n) == statuses.take(n));
        lemma_objects_error_stays(statuses.drop_last(), n);
    }
}

fn collect_prefixes(statuses: &Vec<FileStatus>) -> (r: Result<Vec<Path>, StoreError>)
    ensures
        ({
            let views = statuses@.map_values(|status: FileStatus| status@);
            match r {
                Ok(paths) => prefixes_among(views) == Ok::<Seq<Seq<char>>, StoreErrorView>(
                    paths@.map_values(|path: Path| path@),
                ),
                Err(e) => prefixes_among(views) == Err::<Seq<Seq<char>>, StoreErrorView>(e@),
            }
        }),
{
    let ghost views = statuses@.map_values(|status: FileStatus| status@);
    let mut paths: Vec<Path> = Vec::new();
    assert(paths@.map_values(|path: Path| path@) == Seq::<Seq<char>>::empty());
    for i in 0..statuses.len()
        invariant
            views == statuses@.map_values(|status: FileStatus| status@),
            prefixes_among(views.take(i as int)) == Ok::<Seq<Seq<char>>, StoreErrorView>(
                paths@.map_values(|path: Path| path@),
            ),
    {
        assert(views.take(i + 1).drop_last() == views.take(i as int));
        if statuses[i].isdir {
            match Path::parse(statuses[i].path.as_str()) {
                Ok(path) => {
                    let ghost before = paths@;
                    paths.push(path);
                    assert(paths@.map_values(|path: Path| path@) == before.map_values(
                        |path: Path| path@,
                    ).push(path@));
                },
                Err(source) => {
                    proof {
                        lemma_prefixes_error_stays(views, i + 1);
                    }
                    return Err(StoreError::InvalidPath(source));
                },
            }
        }
    }
    assert(views.take(statuses.len() as int) == views);
    Ok(paths)
}

fn collect_objects(statuses: &Vec<FileStatus>) -> (r: Result<Vec<ObjectMeta>, StoreError>)
    ensures
        ({
            let views = statuses@.map_values(|status: FileStatus| status@);
            match r {
                Ok(metas) => objects_among(views) == Ok::<Seq<ObjectMetaView>, StoreErrorView>(
                    metas@.map_values(|meta: ObjectMeta| meta@),
                ),
                Err(e) => objects_among(views) == Err::<Seq<ObjectMetaView>, StoreErrorView>(e@),
            }
        }),
{
    let ghost views = statuses@.map_values(|status: FileStatus| status@);
    let mut metas: Vec<ObjectMeta> = Vec::new();
    assert(metas@.map_values(|meta: ObjectMeta| meta@) == Seq::<ObjectMetaView>::empty());
    for i in 0..statuses.len()
        invariant
            views == statuses@.map_values(|status: FileStatus| status@),
            objects_among(views.take(i as int)) == Ok::<Seq<ObjectMetaView>, StoreErrorView>(
                metas@.map_values(|meta: ObjectMeta| meta@),
            ),
    {
        assert(views.take(i + 1).drop_last() == views.take(i as int));
        if !statuses[i].isdir {
            match get_object_meta(&statuses[i]) {
                Ok(meta) => {
                    let ghost before = metas@;
                    metas.push(meta);
                    assert(metas@.map_values(|meta: ObjectMeta| meta@) == before.map_values(
                        |meta: ObjectMeta| meta@,
                    ).push(meta@));
                },
                Err(e) => {
                    proof {
                        lemma_objects_error_stays(views, i + 1);
                    }
                    return Err(e);
                },
            }
        }
    }
    assert(views.take(statuses.len() as int) == views);
    Ok(metas)
}

} // verus!
