//! Temporary files: the names that a write tries until one is free.
//!
//! The temporary files of `/dir/name` are `/dir/.name.tmp.1`,
//! `/dir/.name.tmp.2` and so on.

use crate::error::{
    object_store_err, store_error, FileError, FileErrorView, StoreError, StoreErrorView,
};
use crate::numeral::{decimal, law_numeral_injective, lemma_numeral_digits, write_decimal};
use crate::path::{
    absolute_file, file_name_of, find_last_slash, last_slash, lemma_last_segment,
    make_absolute_file, parent_of, Path,
};
use crate::request::{Reply, ReplyView, Request, RequestView};
use vstd::prelude::*;

verus! {

/// What the names of all temporary files of `file` start with.
pub open spec fn tmp_base(file: Seq<char>) -> Seq<char> {
    file.take(last_slash(file) + 1) + "."@ + file_name_of(file) + ".tmp"@
}

/// The temporary file of `file` with a given index.
pub open spec fn tmp_path(file: Seq<char>, index: nat) -> Seq<char> {
    tmp_base(file) + "."@ + decimal(index)
}

/// The search for a temporary file that does not exist yet.
#[derive(Debug)]
pub struct TmpFile {
    file: String,
    base: String,
    index: i32,
}

pub struct TmpFileView {
    /// The file that is to be written.
    pub file: Seq<char>,
    /// The index that is tried.
    pub index: nat,
}

impl View for TmpFile {
    type V = TmpFileView;

    closed spec fn view(&self) -> TmpFileView {
        TmpFileView { file: self.file@, index: self.index as nat }
    }
}

/// What became of the attempt to create a temporary file.
#[derive(Debug)]
pub enum TmpStep {
    /// The file exists already: the next one is to be tried.
    Next,
    /// The file is open for writing.
    Opened,
    /// The search is over without a file.
    Failed(StoreError),
}

pub enum TmpStepView {
    Next,
    Opened,
    Failed(StoreErrorView),
}

impl View for TmpStep {
    type V = TmpStepView;

    open spec fn view(&self) -> TmpStepView {
        match self {
            TmpStep::Next => TmpStepView::Next,
            TmpStep::Opened => TmpStepView::Opened,
            TmpStep::Failed(e) => TmpStepView::Failed(e@),
        }
    }
}

/// The error for a path without a file name.
pub open spec fn missing_filename() -> StoreErrorView {
    object_store_err(FileErrorView::InvalidPath("path missing filename"@))
}

impl TmpFileView {
    /// The temporary file that is tried.
    pub open spec fn path(self) -> Seq<char> {
        tmp_path(self.file, self.index)
    }

    /// The call that tries it: a file that exists stays as it is.
    pub open spec fn request(self) -> RequestView {
        RequestView::Create { path: self.path(), overwrite: false }
    }

    /// What the answer to that call means.
    pub open spec fn step(self, reply: ReplyView) -> TmpStepView {
        match reply {
            ReplyView::Failed(FileErrorView::AlreadyExists(_)) => TmpStepView::Next,
            ReplyView::Failed(e) => TmpStepView::Failed(object_store_err(e)),
            _ => TmpStepView::Opened,
        }
    }

    /// The search after that answer.
    pub open spec fn after(self, reply: ReplyView) -> TmpFileView {
        if self.step(reply) is Next {
            TmpFileView { index: self.index + 1, ..self }
        } else {
            self
        }
    }

    /// The search has a name to try after that answer: the last index has not
    /// been reached.
    pub open spec fn can_go_on(self, reply: ReplyView) -> bool {
        self.step(reply) is Next ==> self.index < i32::MAX
    }
}

impl TmpFile {
    #[verifier::type_invariant]
    pub closed spec fn well_formed(self) -> bool {
        &&& self.base@ == tmp_base(self.file@)
        &&& self.index >= 1
    }

    /// Starts the search for a temporary file of the object `location`.
    pub fn start(location: &Path) -> (r: Result<TmpFile, StoreError>)
        ensures
            match r {
                Ok(tmp) => {
                    &&& location@.len() > 0
                    &&& tmp@ == (TmpFileView { file: absolute_file(location@), index: 1 })
                },
                Err(e) => location@.len() == 0 && e@ == missing_filename(),
            },
    {
        if location.as_str().is_empty() {
            return Err(store_error(FileError::InvalidPath("path missing filename".to_owned())));
        }
        let file: String = make_absolute_file(location);
        proof {
            lemma_last_segment(file@);
            assert(file@[0] == '/');
        }
        let base: String = match find_last_slash(file.as_str()) {
            Some(at) => {
                let length: usize = file.as_str().unicode_len();
                let mut base: String = file.as_str().substring_char(0, at + 1).to_owned();
                base.append(".");
                base.append(file.as_str().substring_char(at + 1, length));
                base.append(".tmp");
                assert(file@.subrange(at + 1, length as int) == file_name_of(file@));
                base
            },
            None => String::new(),
        };
        Ok(TmpFile { file, base, index: 1 })
    }

    /// The path of the temporary file that is tried.
    pub fn path(&self) -> (r: String)
        ensures
            r@ == self@.path(),
            self@.index >= 1,
    {
        proof {
            use_type_invariant(self);
        }
        let mut path: String = self.base.clone();
        path.append(".");
        path.append(write_decimal(self.index as u64).as_str());
        path
    }

    /// The path of the file that is to be written.
    pub fn file(&self) -> (r: String)
        ensures
            r@ == self@.file,
    {
        self.file.clone()
    }

    /// The call that tries to create the temporary file.
    pub fn request(&self) -> (r: Request)
        ensures
            r@ == self@.request(),
    {
        Request::Create { path: self.path(), overwrite: false }
    }

    /// Takes the answer to that call.
    pub fn resume(&mut self, reply: Reply) -> (r: TmpStep)
        requires
            old(self)@.can_go_on(reply@),
        ensures
            final(self)@ == old(self)@.after(reply@),
            r@ == old(self)@.step(reply@),
    {
        proof {
            use_type_invariant(&*self);
        }
        match reply {
            Reply::Failed(FileError::AlreadyExists(_)) => {
                let next: i32 = self.index + 1;
                self.index = next;
                TmpStep::Next
            },
            Reply::Failed(e) => TmpStep::Failed(store_error(e)),
            _ => TmpStep::Opened,
        }
    }

    /// Whether a name is left to try after `reply`.
    pub fn can_go_on(&self, reply: &Reply) -> (r: bool)
        ensures
            r == self@.can_go_on(reply@),
    {
        proof {
            use_type_invariant(self);
        }
        match reply {
            Reply::Failed(FileError::AlreadyExists(_)) => self.index < i32::MAX,
            _ => true,
        }
    }
}

proof fn lemma_last_slash_at(s: Seq<char>, at: int)
    requires
        0 <= at < s.len(),
        s[at] == '/',
        forall|i: int| at < i < s.len() ==> s[i] != '/',
    ensures
        last_slash(s) == at,
{
    lemma_last_segment(s);
}

proof fn lemma_tmp_base(file: Seq<char>)
    requires
        last_slash(file) >= 0,
    ensures
        last_slash(tmp_base(file)) == last_slash(file),
        parent_of(tmp_base(file)) == parent_of(file),
        file_name_of(tmp_base(file)) == "."@ + file_name_of(file) + ".tmp"@,
        file == file.take(last_slash(file) + 1) + file_name_of(file),
{
    reveal_strlit(".");
    reveal_strlit(".tmp");
    lemma_last_segment(file);
    let at = last_slash(file);
    let base = tmp_base(file);
    let name = "."@ + file_name_of(file) + ".tmp"@;
    assert(base == file.take(at + 1) + name);
    assert(base[at] == '/');
    assert forall|i: int| at < i < base.len() implies base[i] != '/' by {
        assert(base[i] == name[i - at - 1]);
        if 0 < i - at - 1 <= file_name_of(file).len() {
            assert(name[i - at - 1] == file[i - 1]);
        }
    }
    lemma_last_slash_at(base, at);
    assert(parent_of(base) == parent_of(file));
    assert(file_name_of(base) == name);
}

/// A temporary file lies in the directory of the file that it is for, under a
/// hidden name, and is never that file itself.
pub proof fn law_tmp_file_lies_beside(file: Seq<char>, index: nat)
    requires
        last_slash(file) >= 0,
    ensures
        parent_of(tmp_path(file, index)) == parent_of(file),
        file_name_of(tmp_path(file, index)) == "."@ + file_name_of(file) + ".tmp"@ + "."@ + decimal(
            index,
        ),
        tmp_path(file, index) != file,
{
    reveal_strlit(".");
    reveal_strlit(".tmp");
    lemma_tmp_base(file);
    lemma_numeral_digits(index, 10);
    lemma_last_segment(file);
    let base = tmp_base(file);
    lemma_last_segment(base);
    let path = tmp_path(file, index);
    let at = last_slash(file);
    assert(path[at] == base[at]);
    assert forall|i: int| at < i < path.len() implies path[i] != '/' by {
        if i < base.len() {
            assert(path[i] == base[i]);
        } else if i > base.len() {
            assert(path[i] == decimal(index)[i - base.len() - 1]);
        }
    }
    lemma_last_slash_at(path, at);
    assert(parent_of(path) == parent_of(base));
    assert(file_name_of(path) == file_name_of(base) + "."@ + decimal(index));
    assert(file_name_of(path).len() > file_name_of(file).len());
}

/// The name of a temporary file tells which file it is for, and its index: equal
/// names mean the same file and the same index.
pub proof fn law_tmp_paths_distinct(f: Seq<char>, i: nat, g: Seq<char>, j: nat)
    requires
        last_slash(f) >= 0,
        last_slash(g) >= 0,
        tmp_path(f, i) == tmp_path(g, j),
    ensures
        f == g,
        i == j,
{
    reveal_strlit(".");
    reveal_strlit(".tmp");
    lemma_tmp_base(f);
    lemma_tmp_base(g);
    lemma_numeral_digits(i, 10);
    lemma_numeral_digits(j, 10);
    let path = tmp_path(f, i);
    let m = tmp_base(f).len() as int;
    let n = tmp_base(g).len() as int;
    assert(tmp_path(f, i)[m] == '.');
    assert(tmp_path(g, j)[n] == '.');
    assert(path.len() == m + 1 + decimal(i).len());
    assert(path.len() == n + 1 + decimal(j).len());
    if m < n {
        assert(tmp_path(f, i)[n] == decimal(i)[n - m - 1]);
        assert(false);
    }
    if n < m {
        assert(tmp_path(g, j)[m] == decimal(j)[m - n - 1]);
        assert(false);
    }
    assert(path.take(m) == tmp_base(f));
    assert(path.take(n) == tmp_base(g));
    assert(path.skip(m + 1) == decimal(i));
    assert(path.skip(n + 1) == decimal(j));
    law_numeral_injective(i, j, 10);
    lemma_last_segment(f);
    lemma_last_segment(g);
    let at = last_slash(f);
    let named_f = file_name_of(tmp_base(f));
    let named_g = file_name_of(tmp_base(g));
    assert(named_f.subrange(1, named_f.len() - 4) == file_name_of(f));
    assert(named_g.subrange(1, named_g.len() - 4) == file_name_of(g));
    assert(tmp_base(f).take(at + 1) == f.take(at + 1));
    assert(tmp_base(g).take(at + 1) == g.take(at + 1));
}

/// The search takes any answer, and has a next name to try up to the largest
/// index; the next name has the next index and is for the same file.
pub proof fn law_search_tries_every_index(tmp: TmpFileView, reply: ReplyView)
    ensures
        tmp.can_go_on(reply) || tmp.index >= 0x7fff_ffff,
        !(reply is Failed) ==> tmp.can_go_on(reply) && tmp.step(reply) is Opened,
        reply matches ReplyView::Failed(FileErrorView::AlreadyExists(_)) ==> tmp.step(reply)
            is Next && tmp.after(reply).path() == tmp_path(tmp.file, tmp.index + 1),
        reply matches ReplyView::Failed(e) ==> e is AlreadyExists || tmp.step(reply)
            == TmpStepView::Failed(object_store_err(e)),
{
}

} // verus!
