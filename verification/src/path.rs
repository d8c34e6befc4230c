//! Object paths and the absolute file system paths that stand for them.
//!
//! An object path has no leading slash; the file system wants one. The pieces
//! of a path between its slashes are its segments.

use vstd::prelude::*;

verus! {

/// The segment of a path that no rule on segments lets through, as
/// `object_store` describes it.
#[verifier::external_type_specification]
#[verifier::external_body]
pub struct ExInvalidPart(object_store::path::InvalidPart);

/// The error of the path functions of `object_store`.
#[verifier::external_type_specification]
#[verifier::external_body]
pub struct ExObjectPathError(object_store::path::Error);

/// Why a text is not an object path.
#[derive(Debug)]
pub enum PathError {
    /// Two slashes of the path have nothing between them.
    EmptySegment { path: String },
    /// A segment of the path is a relative one or holds a control character.
    BadSegment { path: String, source: object_store::path::InvalidPart },
    /// Any other error that `object_store` has for paths.
    Other(object_store::path::Error),
}

pub enum PathErrorView {
    EmptySegment { path: Seq<char> },
    BadSegment { path: Seq<char>, source: object_store::path::InvalidPart },
    Other,
}

impl View for PathError {
    type V = PathErrorView;

    open spec fn view(&self) -> PathErrorView {
        match self {
            PathError::EmptySegment { path } => PathErrorView::EmptySegment { path: path@ },
            PathError::BadSegment { path, source } => {
                PathErrorView::BadSegment { path: path@, source: *source }
            },
            PathError::Other(_) => PathErrorView::Other,
        }
    }
}

/// The pieces of `s` between the separators in it, in order; a text without a
/// separator is one piece.
pub open spec fn pieces(s: Seq<char>, separator: char) -> Seq<Seq<char>>
    decreases s.len(),
{
    if s.len() == 0 {
        seq![s]
    } else {
        let before = pieces(s.drop_last(), separator);
        if s.last() == separator {
            before.push(Seq::empty())
        } else {
            before.drop_last().push(before.last().push(s.last()))
        }
    }
}

/// The segments of `s`: its pieces between slashes.
pub open spec fn segments(s: Seq<char>) -> Seq<Seq<char>> {
    pieces(s, '/')
}

/// The position of the last slash of `s`, or -1 where it has none.
pub open spec fn last_slash(s: Seq<char>) -> int
    decreases s.len(),
{
    if s.len() == 0 {
        -1
    } else if s.last() == '/' {
        s.len() - 1
    } else {
        last_slash(s.drop_last())
    }
}

/// What stands before the last slash of `s`.
pub open spec fn parent_of(s: Seq<char>) -> Seq<char> {
    if last_slash(s) < 0 {
        Seq::empty()
    } else {
        s.take(last_slash(s))
    }
}

/// What stands behind the last slash of `s`.
pub open spec fn file_name_of(s: Seq<char>) -> Seq<char> {
    s.skip(last_slash(s) + 1)
}

/// The file system path of the object `path`.
pub open spec fn absolute_file(path: Seq<char>) -> Seq<char> {
    seq!['/'] + path
}

/// The file system path of the directory `path`, with a slash at its end.
pub open spec fn absolute_dir(path: Seq<char>) -> Seq<char> {
    if path.len() > 0 {
        seq!['/'] + path + seq!['/']
    } else {
        seq!['/']
    }
}

/// `path` lies below `prefix`, segment by segment: the segments of `prefix` are
/// the first segments of `path`, and `path` has more of them. Every path but
/// the root lies below the root.
pub open spec fn lies_below(path: Seq<char>, prefix: Seq<char>) -> bool {
    if prefix.len() == 0 {
        path.len() > 0
    } else {
        &&& segments(prefix).len() < segments(path).len()
        &&& segments(path).take(segments(prefix).len() as int) == segments(prefix)
    }
}

/// The control characters of ASCII.
pub open spec fn is_control(c: char) -> bool {
    c <= '\x1f' || c == '\x7f'
}

/// A segment that an object path may have: not empty, not relative, without
/// control characters.
pub open spec fn valid_segment(segment: Seq<char>) -> bool {
    &&& segment.len() > 0
    &&& segment != seq!['.']
    &&& segment != seq!['.', '.']
    &&& forall|i: int| 0 <= i < segment.len() ==> !is_control(#[trigger] segment[i])
}

/// The text of an object path: the empty text stands for the root.
pub open spec fn valid_path(s: Seq<char>) -> bool {
    s.len() == 0 || forall|i: int|
        0 <= i < segments(s).len() ==> valid_segment(#[trigger] segments(s)[i])
}

/// The first segment that is not valid.
pub open spec fn first_fault(parts: Seq<Seq<char>>) -> Option<Seq<char>>
    decreases parts.len(),
{
    if parts.len() == 0 {
        None
    } else if !valid_segment(parts[0]) {
        Some(parts[0])
    } else {
        first_fault(parts.drop_first())
    }
}

/// `s` without one leading slash.
pub open spec fn without_leading_slash(s: Seq<char>) -> Seq<char> {
    if s.len() > 0 && s[0] == '/' {
        s.drop_first()
    } else {
        s
    }
}

/// `s` without one trailing slash.
pub open spec fn without_trailing_slash(s: Seq<char>) -> Seq<char> {
    if s.len() > 0 && s.last() == '/' {
        s.drop_last()
    } else {
        s
    }
}

/// What parsing `s` as an object path gives: one leading and one trailing
/// slash go, and what is left is the path unless a segment of it is not valid.
pub open spec fn parsed(s: Seq<char>) -> Result<Seq<char>, PathErrorView> {
    let relative = without_leading_slash(s);
    let stripped = without_trailing_slash(relative);
    if relative.len() == 0 {
        Ok(relative)
    } else {
        match first_fault(segments(stripped)) {
            None => Ok(stripped),
            Some(segment) if segment.len() == 0 => Err(PathErrorView::EmptySegment { path: s }),
            Some(_) => Err(PathErrorView::BadSegment { path: s, source: bad_segment(s) }),
        }
    }
}

/// How `object_store::path::Path::parse` describes the first bad segment of a
/// text.
pub uninterp spec fn bad_segment(path: Seq<char>) -> object_store::path::InvalidPart;

/// Calls `object_store::path::Path::parse` and hands out the text of the path.
///
/// Claimed of it: one leading and one trailing slash are dropped; the root
/// comes out where nothing follows the leading slash; otherwise every segment
/// must be non-empty, other than `.` and `..`, and free of ASCII control
/// characters, and the first that is not decides the error, which carries the
/// text as it was given. The description of a bad segment depends on the text
/// alone; what it says is left unsaid, as the fields of `InvalidPart` are
/// private to `object_store`.
#[verifier::external_body]
fn parse_object_path(path: &str) -> (r: Result<String, PathError>)
    ensures
        match r {
            Ok(raw) => parsed(path@) == Ok::<Seq<char>, PathErrorView>(raw@),
            Err(e) => parsed(path@) == Err::<Seq<char>, PathErrorView>(e@),
        },
        r matches Err(PathError::BadSegment { source, .. }) ==> source == bad_segment(path@),
{
    match object_store::path::Path::parse(path) {
        Ok(parsed) => Ok(String::from(parsed)),
        Err(object_store::path::Error::EmptySegment { path }) => {
            Err(PathError::EmptySegment { path })
        },
        Err(object_store::path::Error::BadSegment { path, source }) => {
            Err(PathError::BadSegment { path, source })
        },
        Err(source) => Err(PathError::Other(source)),
    }
}

/// The path of an object, relative to the root of the store.
#[derive(Debug)]
pub struct Path {
    raw: String,
}

impl View for Path {
    type V = Seq<char>;

    closed spec fn view(&self) -> Seq<char> {
        self.raw@
    }
}

impl Path {
    /// The text of every path is valid.
    #[verifier::type_invariant]
    pub open spec fn well_formed(self) -> bool {
        valid_path(self@)
    }

    /// Parses `path`, dropping one leading and one trailing slash.
    pub fn parse(path: &str) -> (r: Result<Path, PathError>)
        ensures
            match r {
                Ok(p) => parsed(path@) == Ok::<Seq<char>, PathErrorView>(p@),
                Err(e) => parsed(path@) == Err::<Seq<char>, PathErrorView>(e@),
            },
    {
        match parse_object_path(path) {
            Ok(raw) => {
                proof {
                    lemma_parsed_is_valid(path@);
                }
                Ok(Path { raw })
            },
            Err(e) => Err(e),
        }
    }

    /// The text of the path.
    pub fn as_str(&self) -> (text: &str)
        ensures
            text@ == self@,
            valid_path(self@),
    {
        proof {
            use_type_invariant(self);
        }
        self.raw.as_str()
    }

    /// The path without its last segment, if any segment is left then.
    pub fn parent(&self) -> (r: Option<Path>)
        ensures
            r is None <==> last_slash(self@) < 0,
            r matches Some(parent) ==> parent@ == parent_of(self@) && parent@.len() > 0,
    {
        proof {
            use_type_invariant(self);
        }
        match find_last_slash(self.raw.as_str()) {
            None => None,
            Some(at) => {
                proof {
                    lemma_last_segment(self@);
                    lemma_parent_is_valid(self@);
                }
                Some(Path { raw: self.raw.as_str().substring_char(0, at).to_owned() })
            },
        }
    }
}

pub(crate) fn find_last_slash(s: &str) -> (r: Option<usize>)
    ensures
        match r {
            None => last_slash(s@) == -1,
            Some(at) => last_slash(s@) == at,
        },
        s@.len() <= usize::MAX,
{
    let mut found: Option<usize> = None;
    let mut at: usize = 0;
    let length: usize = s.unicode_len();
    for c in it: s.chars()
        invariant
            it.seq() == s@,
            length == s@.len(),
            at == it.index(),
            match found {
                None => last_slash(s@.take(at as int)) == -1,
                Some(i) => last_slash(s@.take(at as int)) == i,
            },
    {
        assert(s@.take(at + 1).drop_last() == s@.take(at as int));
        if c == '/' {
            found = Some(at);
        }
        at = at + 1;
    }
    assert(s@.take(at as int) == s@);
    found
}

/// The file system path of an object: object paths have no leading slash, so
/// it is put back.
pub fn make_absolute_file(path: &Path) -> (r: String)
    ensures
        r@ == absolute_file(path@),
{
    proof {
        reveal_strlit("/");
    }
    let mut absolute: String = "/".to_owned();
    absolute.append(path.as_str());
    assert(absolute@ == absolute_file(path@));
    absolute
}

/// The file system path of a directory, with a slash at its end.
pub fn make_absolute_dir(path: &Path) -> (r: String)
    ensures
        r@ == absolute_dir(path@),
{
    proof {
        reveal_strlit("/");
    }
    let mut absolute: String = "/".to_owned();
    if !path.as_str().is_empty() {
        absolute.append(path.as_str());
        absolute.append("/");
    }
    assert(absolute@ == absolute_dir(path@));
    absolute
}

/// The position of the last slash, and the segments before and behind it.
pub proof fn lemma_last_segment(s: Seq<char>)
    ensures
        -1 <= last_slash(s) < s.len(),
        last_slash(s) >= 0 ==> s[last_slash(s)] == '/',
        forall|i: int| last_slash(s) < i < s.len() ==> s[i] != '/',
        last_slash(s) < 0 ==> segments(s) == seq![s],
        last_slash(s) >= 0 ==> segments(s) == segments(parent_of(s)).push(file_name_of(s)),
        segments(s).len() >= 1,
    decreases s.len(),
{
    if s.len() > 0 {
        let front = s.drop_last();
        lemma_last_segment(front);
        if s.last() == '/' {
            assert(parent_of(s) == front);
            assert(file_name_of(s) == Seq::<char>::empty());
        } else {
            assert forall|i: int| last_slash(s) < i < s.len() implies s[i] != '/' by {
                if i < front.len() {
                    assert(front[i] == s[i]);
                }
            }
            if last_slash(s) < 0 {
                assert(segments(s) == seq![front.push(s.last())]);
                assert(front.push(s.last()) == s);
            } else {
                assert(parent_of(s) == parent_of(front));
                assert(file_name_of(front).push(s.last()) == file_name_of(s));
                let before = segments(front);
                assert(before.drop_last() == segments(parent_of(s)));
            }
        }
    }
}

/// The parent of a path is a path, and its last segment is a valid one.
pub proof fn lemma_parent_is_valid(s: Seq<char>)
    requires
        valid_path(s),
        last_slash(s) >= 0,
    ensures
        valid_path(parent_of(s)),
        parent_of(s).len() > 0,
        valid_segment(file_name_of(s)),
{
    lemma_last_segment(s);
    let before = segments(parent_of(s));
    assert(segments(s)[before.len() as int] == file_name_of(s));
    assert forall|i: int| 0 <= i < before.len() implies valid_segment(#[trigger] before[i]) by {
        assert(segments(s)[i] == before[i]);
    }
    if parent_of(s).len() == 0 {
        assert(before[0].len() == 0);
    }
}

proof fn lemma_first_fault(parts: Seq<Seq<char>>)
    ensures
        first_fault(parts) is None <==> forall|i: int|
            0 <= i < parts.len() ==> valid_segment(#[trigger] parts[i]),
    decreases parts.len(),
{
    if parts.len() > 0 {
        let rest = parts.drop_first();
        lemma_first_fault(rest);
        if first_fault(parts) is None {
            assert forall|i: int| 0 <= i < parts.len() implies valid_segment(#[trigger] parts[i]) by {
                if i > 0 {
                    assert(rest[i - 1] == parts[i]);
                }
            }
        } else if valid_segment(parts[0]) {
            let i = choose|i: int| 0 <= i < rest.len() && !valid_segment(#[trigger] rest[i]);
            assert(!valid_segment(parts[i + 1]));
        }
    }
}

/// Whatever parsing lets through is a valid path.
pub proof fn lemma_parsed_is_valid(s: Seq<char>)
    ensures
        parsed(s) matches Ok(raw) ==> valid_path(raw),
{
    let stripped = without_trailing_slash(without_leading_slash(s));
    lemma_first_fault(segments(stripped));
}

/// A path that is not the root has a slash at neither end.
pub proof fn lemma_valid_ends(path: Seq<char>)
    requires
        valid_path(path),
        path.len() > 0,
    ensures
        path[0] != '/',
        path.last() != '/',
    decreases path.len(),
{
    lemma_last_segment(path);
    if last_slash(path) >= 0 {
        lemma_parent_is_valid(path);
        lemma_valid_ends(parent_of(path));
    }
}

/// A valid path is parsed as itself, and so are the file system path of the
/// object and of the directory that it names: the leading slash that is put
/// back is the one that parsing takes away.
pub proof fn law_absolute_round_trip(path: Seq<char>)
    requires
        valid_path(path),
    ensures
        parsed(path) == Ok::<Seq<char>, PathErrorView>(path),
        parsed(absolute_file(path)) == Ok::<Seq<char>, PathErrorView>(path),
        parsed(absolute_dir(path)) == Ok::<Seq<char>, PathErrorView>(path),
{
    assert(without_leading_slash(absolute_file(path)) == path);
    if path.len() > 0 {
        lemma_valid_ends(path);
        lemma_first_fault(segments(path));
        assert(without_leading_slash(absolute_dir(path)) == path.push('/'));
        assert(path.push('/').drop_last() == path);
    } else {
        assert(without_leading_slash(absolute_dir(path)) == path);
    }
}

/// Different objects have different file system paths.
pub proof fn law_absolute_file_injective(a: Seq<char>, b: Seq<char>)
    requires
        absolute_file(a) == absolute_file(b),
    ensures
        a == b,
{
    assert(absolute_file(a).drop_first() == a);
    assert(absolute_file(b).drop_first() == b);
}

proof fn lemma_segments_concat(a: Seq<char>, b: Seq<char>)
    ensures
        segments(a.push('/') + b) == segments(a) + segments(b),
    decreases b.len(),
{
    let whole = a.push('/') + b;
    if b.len() == 0 {
        assert(whole == a.push('/'));
        assert(whole.drop_last() == a);
        assert(segments(a) + segments(b) == segments(a).push(b));
        assert(b == Seq::<char>::empty());
    } else {
        assert(whole.drop_last() == a.push('/') + b.drop_last());
        lemma_segments_concat(a, b.drop_last());
        lemma_last_segment(b.drop_last());
        let before = segments(b.drop_last());
        let joined = segments(a) + before;
        assert(joined.last() == before.last());
        if b.last() == '/' {
            assert(joined.push(Seq::empty()) == segments(a) + segments(b));
        } else {
            assert(joined.drop_last().push(before.last().push(b.last())) == segments(a) + segments(
                b,
            ));
        }
    }
}

proof fn lemma_segments_injective(a: Seq<char>, b: Seq<char>)
    requires
        segments(a) == segments(b),
    ensures
        a == b,
    decreases a.len(),
{
    lemma_last_segment(a);
    lemma_last_segment(b);
    lemma_last_segment(parent_of(a));
    lemma_last_segment(parent_of(b));
    if last_slash(a) < 0 && last_slash(b) < 0 {
        assert(segments(a)[0] == segments(b)[0]);
    } else if last_slash(a) >= 0 && last_slash(b) >= 0 {
        let pa = segments(parent_of(a));
        let pb = segments(parent_of(b));
        assert(pa.push(file_name_of(a)).drop_last() == pa);
        assert(pb.push(file_name_of(b)).drop_last() == pb);
        assert(pa.push(file_name_of(a)).last() == file_name_of(a));
        assert(pb.push(file_name_of(b)).last() == file_name_of(b));
        lemma_segments_injective(parent_of(a), parent_of(b));
        assert(a == parent_of(a).push('/') + file_name_of(a));
        assert(b == parent_of(b).push('/') + file_name_of(b));
    }
}

proof fn lemma_below_starts_with(path: Seq<char>, prefix: Seq<char>)
    requires
        prefix.len() > 0,
        lies_below(path, prefix),
    ensures
        prefix.push('/').is_prefix_of(path),
    decreases path.len(),
{
    lemma_last_segment(path);
    lemma_last_segment(prefix);
    let n = segments(prefix).len() as int;
    assert(last_slash(path) >= 0);
    let above = segments(parent_of(path));
    assert(above.take(n) == segments(path).take(n));
    assert(path == parent_of(path).push('/') + file_name_of(path));
    if above.len() == n {
        assert(above.take(n) == above);
        lemma_segments_injective(parent_of(path), prefix);
    } else {
        lemma_below_starts_with(parent_of(path), prefix);
    }
}

/// Prefixes work segment by segment: an object lies below `prefix` exactly
/// where its file system path goes on, behind that of `prefix`, with a slash.
/// So `foo/bar/x` lies below `foo/bar`, and `foo/bar_baz/x` does not.
pub proof fn law_prefix_by_segment(path: Seq<char>, prefix: Seq<char>)
    requires
        prefix.len() > 0,
    ensures
        lies_below(path, prefix) <==> absolute_file(prefix).push('/').is_prefix_of(
            absolute_file(path),
        ),
{
    let from = absolute_file(prefix).push('/');
    assert(from == seq!['/'] + prefix.push('/'));
    if lies_below(path, prefix) {
        lemma_below_starts_with(path, prefix);
        let rest = path.skip(prefix.len() as int + 1);
        assert(path == prefix.push('/') + rest);
        assert(absolute_file(path) == from + rest);
    }
    if from.is_prefix_of(absolute_file(path)) {
        let rest = path.skip(prefix.len() as int + 1);
        assert(path =~= prefix.push('/') + rest) by {
            assert forall|i: int| 0 <= i < prefix.len() + 1 implies path[i] == prefix.push('/')[i] by {
                assert(absolute_file(path)[i + 1] == from[i + 1]);
            }
        }
        lemma_segments_concat(prefix, rest);
        lemma_last_segment(rest);
        assert(segments(path).take(segments(prefix).len() as int) == segments(prefix));
    }
}

} // verus!
