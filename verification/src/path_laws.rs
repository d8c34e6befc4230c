//! What object paths are, character by character.

use crate::path::{
    absolute_dir, absolute_file, bad_segment, file_name_of, first_fault, is_control, last_slash,
    law_absolute_round_trip, law_prefix_by_segment, lemma_last_segment, lemma_parsed_is_valid,
    lemma_valid_ends, lies_below, parent_of, parsed, pieces, segments, valid_path, valid_segment,
    without_leading_slash, without_trailing_slash, PathErrorView,
};
use crate::text_laws::{law_pieces_stand_between_separators, piece_at};
use vstd::prelude::*;

verus! {

/// What may stand between two slashes of an object path: something, but neither
/// of the two relative segments, and without the characters below the space and
/// the one that deletes.
pub open spec fn is_plain(segment: Seq<char>) -> bool {
    &&& segment.len() > 0
    &&& !(segment.len() == 1 && segment[0] == '.')
    &&& !(segment.len() == 2 && segment[0] == '.' && segment[1] == '.')
    &&& forall|i: int|
        0 <= i < segment.len() ==> {
            let code = #[trigger] segment[i] as int;
            code >= 0x20 && code != 0x7f
        }
}

/// A text is an object path exactly where it is empty, or every stretch of it
/// between two slashes is a plain one.
pub proof fn law_valid_path_is_plain(s: Seq<char>)
    ensures
        valid_path(s) <==> s.len() == 0 || forall|a: int, b: int| #[trigger]
            piece_at(s, '/', a, b) ==> is_plain(s.subrange(a, b)),
{
    let dot = seq!['.'];
    let dots = seq!['.', '.'];
    assert forall|segment: Seq<char>| valid_segment(segment) == #[trigger] is_plain(
        segment,
    ) by {
        assert(segment == dot <==> segment.len() == 1 && segment[0] == '.') by {
            if segment.len() == 1 && segment[0] == '.' {
                assert(segment =~= dot);
            }
        }
        assert(segment == dots <==> segment.len() == 2 && segment[0] == '.' && segment[1] == '.')
            by {
            if segment.len() == 2 && segment[0] == '.' && segment[1] == '.' {
                assert(segment =~= dots);
            }
        }
        if is_plain(segment) {
            assert forall|i: int| 0 <= i < segment.len() implies !is_control(
                #[trigger] segment[i],
            ) by {
                assert(segment[i] as int >= 0x20);
            }
        }
        if valid_segment(segment) {
            assert forall|i: int| 0 <= i < segment.len() implies {
                let code = #[trigger] segment[i] as int;
                code >= 0x20 && code != 0x7f
            } by {
                assert(!is_control(segment[i]));
            }
        }
    }
    if s.len() > 0 {
        if valid_path(s) {
            assert forall|a: int, b: int| #[trigger] piece_at(s, '/', a, b) implies is_plain(
                s.subrange(a, b),
            ) by {
                let piece = s.subrange(a, b);
                law_pieces_stand_between_separators(s, '/', piece);
                let i = segments(s).index_of(piece);
                assert(valid_segment(segments(s)[i]));
            }
        } else {
            let i = choose|i: int|
                0 <= i < segments(s).len() && !valid_segment(
                    #[trigger] segments(s)[i],
                );
            let piece = segments(s)[i];
            assert(segments(s).contains(piece));
            law_pieces_stand_between_separators(s, '/', piece);
            assert(!is_plain(piece));
        }
    }
}

/// `s` is the path `p`, with a slash before it, behind it, or both.
pub open spec fn is_written_as(s: Seq<char>, p: Seq<char>) -> bool {
    ||| s == p
    ||| s == seq!['/'] + p
    ||| p.len() > 0 && s == p + seq!['/']
    ||| p.len() > 0 && s == seq!['/'] + p + seq!['/']
}

/// Parsing takes a path from every text that it can be written as, and refuses
/// every other text; the error has the text as it was given.
pub proof fn law_parsed_takes_every_writing(s: Seq<char>)
    ensures
        match parsed(s) {
            Ok(p) => valid_path(p) && is_written_as(s, p),
            Err(e) => {
                &&& e is EmptySegment ==> e->EmptySegment_path == s
                &&& e is BadSegment ==> e->BadSegment_path == s
                &&& !(e is Other)
                &&& forall|p: Seq<char>| valid_path(p) ==> !#[trigger] is_written_as(s, p)
            },
        },
        forall|p: Seq<char>|
            valid_path(p) && #[trigger] is_written_as(s, p) ==> parsed(s) == Ok::<
                Seq<char>,
                PathErrorView,
            >(p),
{
    assert forall|p: Seq<char>| valid_path(p) && #[trigger] is_written_as(s, p) implies parsed(s)
        == Ok::<Seq<char>, PathErrorView>(p) by {
        law_absolute_round_trip(p);
        if p.len() > 0 && s == p + seq!['/'] {
            lemma_valid_ends(p);
            assert(s[0] == p[0]);
            assert(without_leading_slash(s) == s);
            assert(without_trailing_slash(s) == p);
            assert(without_leading_slash(p) == p);
            assert(without_trailing_slash(p) == p);
        }
    }
    if let Ok(p) = parsed(s) {
        lemma_parsed_is_valid(s);
        let relative = without_leading_slash(s);
        let stripped = without_trailing_slash(relative);
        if relative != s {
            assert(s == seq!['/'] + relative);
        }
        if relative.len() > 0 && stripped != relative {
            assert(relative == stripped + seq!['/']);
            if relative != s {
                assert(s == seq!['/'] + stripped + seq!['/']);
            }
            if stripped.len() == 0 {
                assert(pieces(stripped, '/') == seq![stripped]);
                assert(!valid_segment(stripped));
                assert(first_fault(segments(stripped)) == Some(stripped)) by {
                    assert(segments(stripped)[0] == stripped);
                }
            }
        }
    }
}

/// The file of an object is its path with a slash before it, and the path of a
/// directory has one behind it too, but for the root, which is one slash.
pub proof fn law_absolute_paths_put_slashes(p: Seq<char>)
    ensures
        absolute_file(p).len() == p.len() + 1,
        absolute_file(p)[0] == '/',
        absolute_file(p).skip(1) == p,
        absolute_dir(p)[0] == '/',
        p.len() > 0 ==> absolute_dir(p).len() == p.len() + 2 && absolute_dir(p).last() == '/'
            && absolute_dir(p).subrange(1, p.len() as int + 1) == p,
        p.len() == 0 ==> absolute_dir(p).len() == 1,
{
    assert(absolute_file(p).skip(1) == p);
    if p.len() > 0 {
        assert(absolute_dir(p).subrange(1, p.len() as int + 1) == p);
    }
}

/// The last slash of a text parts what is before it from a name without slashes.
pub proof fn law_last_slash_parts_name(s: Seq<char>)
    ensures
        forall|i: int| 0 <= i < file_name_of(s).len() ==> file_name_of(s)[i] != '/',
        last_slash(s) >= 0 ==> s == parent_of(s) + seq!['/'] + file_name_of(s),
        last_slash(s) < 0 ==> file_name_of(s) == s && parent_of(s).len() == 0,
        last_slash(s) >= 0 <==> s.contains('/'),
{
    lemma_last_segment(s);
    if last_slash(s) >= 0 {
        assert(s == parent_of(s) + seq!['/'] + file_name_of(s));
        assert(s[last_slash(s)] == '/');
    } else {
        assert(file_name_of(s) == s);
    }
}

/// What lies below a prefix goes on behind it with a slash and something else;
/// all but the root lies below the root.
pub proof fn law_below_goes_on(path: Seq<char>, prefix: Seq<char>)
    ensures
        prefix.len() == 0 ==> (lies_below(path, prefix) <==> path.len() > 0),
        prefix.len() > 0 ==> (lies_below(path, prefix) <==> path.len() > prefix.len()
            && path.take(prefix.len() as int) == prefix && path[prefix.len() as int] == '/'),
{
    if prefix.len() > 0 {
        law_prefix_by_segment(path, prefix);
        let from = absolute_file(prefix).push('/');
        let n = prefix.len() as int;
        if from.is_prefix_of(absolute_file(path)) {
            assert forall|i: int| 0 <= i < n implies path[i] == prefix[i] by {
                assert(absolute_file(path)[i + 1] == from[i + 1]);
            }
            assert(absolute_file(path)[n + 1] == from[n + 1]);
            assert(path.take(n) == prefix);
        }
        if path.len() > n && path.take(n) == prefix && path[n] == '/' {
            assert forall|i: int| 0 <= i < from.len() implies from[i] == absolute_file(
                path,
            )[i] by {
                if 1 <= i <= n {
                    assert(prefix[i - 1] == path.take(n)[i - 1]);
                }
            }
            assert(from =~= absolute_file(path).subrange(0, from.len() as int));
        }
    }
}

proof fn lemma_fault_is_among(parts: Seq<Seq<char>>)
    ensures
        first_fault(parts) matches Some(segment) ==> parts.contains(segment) && !valid_segment(
            segment,
        ),
    decreases parts.len(),
{
    if parts.len() > 0 {
        let rest = parts.drop_first();
        lemma_fault_is_among(rest);
        if let Some(segment) = first_fault(parts) {
            if valid_segment(parts[0]) {
                let i = rest.index_of(segment);
                assert(parts[i + 1] == segment);
            } else {
                assert(parts[0] == segment);
            }
        }
    }
}

/// What is wrong with a text that is no path: it is said to have an empty segment
/// only where nothing stands between two of its slashes, and a bad one only where
/// something does that is not plain.
pub proof fn law_parse_error_tells_fault(s: Seq<char>)
    requires
        parsed(s) is Err,
    ensures
        ({
            let text = without_trailing_slash(without_leading_slash(s));
            match parsed(s)->Err_0 {
                PathErrorView::EmptySegment { .. } => exists|a: int| #[trigger]
                    piece_at(text, '/', a, a),
                PathErrorView::BadSegment { source, .. } => source == bad_segment(s) && exists|
                    a: int,
                    b: int,
                | #[trigger]
                    piece_at(text, '/', a, b) && a < b && !valid_segment(text.subrange(a, b)),
                PathErrorView::Other => false,
            }
        }),
{
    let text = without_trailing_slash(without_leading_slash(s));
    lemma_fault_is_among(segments(text));
    let segment = first_fault(segments(text))->0;
    law_pieces_stand_between_separators(text, '/', segment);
    let (a, b) = choose|a: int, b: int| #[trigger]
        piece_at(text, '/', a, b) && segment == text.subrange(a, b);
    assert(piece_at(text, '/', a, b));
    assert(segment.len() == b - a);
}

} // verus!
