//! What a read gives back from a disk.

use crate::conditions::{
    condition_text, is_white_space, lists_tag, trimmed, unconditional, GetOptionsView,
};
use crate::error::{object_store_err, ErrorSourceView, FileErrorView, StoreErrorView};
use crate::get::{get_start, refusal, GetResultView, GetView};
use crate::meta::{
    at_millis, etag, object_meta, signed_millis, FileStatusView, ObjectMetaView, TimestampView,
};
use crate::model::Disk;
use crate::numeral::{hexadecimal, lemma_numeral_digits};
use crate::path::{absolute_file, law_absolute_round_trip, pieces, valid_path};
use crate::range::{law_range_within_object, resolved, ByteRange, GetRange, RangeErrorView};
use crate::request::{ProgressView, ReplyView, RequestView};
use crate::text_laws::{law_pieces_stand_between_separators, piece_at};
use vstd::prelude::*;

verus! {

/// What a read ends with on a disk, and the bytes that come with it.
pub open spec fn get_on(disk: Disk, location: Seq<char>, options: GetOptionsView) -> (
    Result<GetResultView, StoreErrorView>,
    Seq<u8>,
) {
    let asking = get_start(location, options);
    let (disk, reply) = disk.call(asking.request(), Seq::empty());
    match asking.resume(reply) {
        ProgressView::Ended(r) => (r, Seq::empty()),
        ProgressView::Pending(opening) => {
            let (disk, reply) = disk.call(opening.request(), Seq::empty());
            match opening.resume(reply) {
                ProgressView::Ended(Ok(result)) => {
                    let (offset, length) = result.content->0;
                    let stream = RequestView::Stream {
                        offset: offset as nat,
                        length: length as nat,
                    };
                    (Ok(result), disk.call(stream, Seq::empty()).0.stream)
                },
                ProgressView::Ended(Err(e)) => (Err(e), Seq::empty()),
                ProgressView::Pending(_) => arbitrary(),
            }
        },
    }
}

/// The disk has the object, and what the disk says of it makes sense to the
/// store.
pub open spec fn readable(disk: Disk, location: Seq<char>) -> bool {
    let file = absolute_file(location);
    &&& valid_path(location)
    &&& disk.has(file)
    &&& disk.files[file].content.len() <= usize::MAX
    &&& at_millis(signed_millis(disk.files[file].modified)).in_range()
}

/// What the store says of an object on a disk.
pub open spec fn meta_on(disk: Disk, location: Seq<char>) -> ObjectMetaView {
    let status = disk.status(absolute_file(location));
    ObjectMetaView {
        location,
        last_modified: at_millis(signed_millis(status.modification_time)),
        size: status.length,
        e_tag: Some(etag(status)),
        version: None,
    }
}

/// A read gives back the bytes that the file holds: those of the range that is
/// asked for, all of them if there is none, and none of them for a head
/// request.
pub proof fn law_get_reads_file(disk: Disk, location: Seq<char>, options: GetOptionsView)
    requires
        readable(disk, location),
        options.wants(meta_on(disk, location)),
        options.is_news(meta_on(disk, location)),
    ensures
        ({
            let content = disk.files[absolute_file(location)].content;
            let length = content.len() as u64;
            let (result, bytes) = get_on(disk, location, options);
            if options.head {
                &&& result == Ok::<GetResultView, StoreErrorView>(
                    GetResultView {
                        meta: meta_on(disk, location),
                        range: ByteRange { start: 0, end: 0 },
                        content: None,
                    },
                )
                &&& bytes == Seq::<u8>::empty()
            } else {
                let range = match options.range {
                    None => Ok(ByteRange { start: 0, end: length }),
                    Some(range) => resolved(range, length),
                };
                match range {
                    Ok(r) => {
                        &&& result matches Ok(served)
                        &&& served.meta == meta_on(disk, location)
                        &&& served.range == r
                        &&& bytes == content.subrange(r.start as int, r.end as int)
                    },
                    Err(_) => result is Err,
                }
            }
        }),
{
    law_absolute_round_trip(location);
    let file = absolute_file(location);
    let status = disk.status(file);
    let content = disk.files[file].content;
    assert(object_meta(status) == Ok::<ObjectMetaView, StoreErrorView>(meta_on(disk, location)));
    if let Some(range) = options.range {
        law_range_within_object(range, content.len() as u64);
    }
}

/// A read of a whole object gives back all bytes that the file holds.
pub proof fn law_get_reads_whole_file(disk: Disk, location: Seq<char>)
    requires
        readable(disk, location),
    ensures
        ({
            let (result, bytes) = get_on(disk, location, unconditional(false));
            &&& result matches Ok(got)
            &&& got.meta == meta_on(disk, location)
            &&& bytes == disk.files[absolute_file(location)].content
        }),
{
    let content = disk.files[absolute_file(location)].content;
    law_get_reads_file(disk, location, unconditional(false));
    assert(content.subrange(0, content.len() as int) == content);
}

/// A read of an object that the disk does not have finds nothing, whatever it
/// asks for.
pub proof fn law_missing_object_is_not_found(
    disk: Disk,
    location: Seq<char>,
    options: GetOptionsView,
)
    requires
        !disk.has(absolute_file(location)),
    ensures
        get_on(disk, location, options).0 == Err::<GetResultView, StoreErrorView>(
            object_store_err(FileErrorView::FileNotFound(absolute_file(location))),
        ),
{
}

proof fn lemma_one_piece(s: Seq<char>, separator: char)
    requires
        forall|i: int| 0 <= i < s.len() ==> s[i] != separator,
    ensures
        pieces(s, separator) == seq![s],
    decreases s.len(),
{
    if s.len() > 0 {
        assert forall|i: int| 0 <= i < s.drop_last().len() implies s.drop_last()[i]
            != separator by {
            assert(s.drop_last()[i] == s[i]);
        }
        lemma_one_piece(s.drop_last(), separator);
        assert(pieces(s, separator) == seq![s.drop_last().push(s.last())]);
        assert(s.drop_last().push(s.last()) == s);
    }
}

/// The ETag that the store gives out for a file works in the conditions of a
/// later request: a request that wants this ETag is not refused for it, and a
/// request that knows it gets no news, as long as the file does not change.
pub proof fn law_own_etag_is_recognised(
    status: FileStatusView,
    meta: ObjectMetaView,
    options: GetOptionsView,
)
    requires
        object_meta(status) == Ok::<ObjectMetaView, StoreErrorView>(meta),
    ensures
        meta.e_tag == Some(etag(status)),
        options.if_match == meta.e_tag ==> options.wants(meta),
        options.if_none_match == meta.e_tag ==> !options.is_news(meta),
{
    let tag = etag(status);
    let time = hexadecimal(status.modification_time);
    let size = hexadecimal(status.length);
    lemma_numeral_digits(status.modification_time, 16);
    lemma_numeral_digits(status.length, 16);
    assert forall|i: int| 0 <= i < tag.len() implies tag[i] != ',' && !is_white_space(tag[i]) by {
        if i < time.len() {
            assert(tag[i] == time[i]);
        } else if i > time.len() {
            assert(tag[i] == size[i - time.len() - 1]);
        } else {
            assert(tag[i] == '-');
        }
    }
    lemma_one_piece(tag, ',');
    assert(trimmed(pieces(tag, ',')[0]) == tag);
    assert(lists_tag(tag, tag));
}

/// A list of ETags names a tag: it is a star, or the tag is what stands between
/// two of its commas, without the white space around it.
pub open spec fn names_tag(list: Seq<char>, tag: Seq<char>) -> bool {
    ||| list.len() == 1 && list[0] == '*'
    ||| exists|a: int, b: int| #[trigger]
        piece_at(list, ',', a, b) && trimmed(list.subrange(a, b)) == tag
}

proof fn lemma_names_tag(list: Seq<char>, tag: Seq<char>)
    ensures
        lists_tag(list, tag) <==> names_tag(list, tag),
{
    reveal_strlit("*");
    if list.len() == 1 && list[0] == '*' {
        assert(list =~= "*"@);
    }
    if exists|i: int| 0 <= i < pieces(list, ',').len() && trimmed(#[trigger] pieces(list, ',')[i])
        == tag {
        let i = choose|i: int|
            0 <= i < pieces(list, ',').len() && trimmed(#[trigger] pieces(list, ',')[i]) == tag;
        let piece = pieces(list, ',')[i];
        assert(pieces(list, ',').contains(piece));
        law_pieces_stand_between_separators(list, ',', piece);
        let (a, b) = choose|a: int, b: int| #[trigger]
            piece_at(list, ',', a, b) && piece == list.subrange(a, b);
        assert(piece_at(list, ',', a, b));
    }
    if exists|a: int, b: int| #[trigger]
        piece_at(list, ',', a, b) && trimmed(list.subrange(a, b)) == tag {
        let (a, b) = choose|a: int, b: int| #[trigger]
            piece_at(list, ',', a, b) && trimmed(list.subrange(a, b)) == tag;
        let piece = list.subrange(a, b);
        law_pieces_stand_between_separators(list, ',', piece);
        let i = pieces(list, ',').index_of(piece);
        assert(trimmed(pieces(list, ',')[i]) == tag);
    }
}

/// The reason that is given for a refusal: it is that for all conditions of the
/// request, and for the ETag and the time of the object on the disk.
pub open spec fn reason_on(
    disk: Disk,
    location: Seq<char>,
    options: GetOptionsView,
) -> Seq<char> {
    let status = disk.status(absolute_file(location));
    let modified = at_millis(signed_millis(status.modification_time));
    condition_text(
        options.if_match,
        options.if_none_match,
        match options.if_modified_since {
            Some(time) => Some((time.secs, time.nanos)),
            None => None,
        },
        match options.if_unmodified_since {
            Some(time) => Some((time.secs, time.nanos)),
            None => None,
        },
        Some(etag(status)),
        (modified.secs, modified.nanos),
    )
}

/// What becomes of a request for an object, by its conditions.
pub enum Ruling {
    Precondition,
    NotModified,
    Served,
}

/// The ruling on a request for an object with this ETag and this time of
/// modification. A list of ETags comes before a time; that the object is the one
/// that is wanted comes before that it is news.
pub open spec fn ruling(
    if_match: Option<Seq<char>>,
    if_unmodified_since: Option<TimestampView>,
    if_none_match: Option<Seq<char>>,
    if_modified_since: Option<TimestampView>,
    tag: Seq<char>,
    modified: TimestampView,
) -> Ruling {
    let wanted = match (if_match, if_unmodified_since) {
        (Some(list), _) => names_tag(list, tag),
        (None, Some(time)) => !modified.after(time),
        (None, None) => true,
    };
    let known = match (if_none_match, if_modified_since) {
        (Some(list), _) => names_tag(list, tag),
        (None, Some(time)) => !modified.after(time),
        (None, None) => false,
    };
    if !wanted {
        Ruling::Precondition
    } else if known {
        Ruling::NotModified
    } else {
        Ruling::Served
    }
}

/// What a request for an object on a disk is answered with: the conditions alone
/// decide whether it is served, not the range that it asks for, nor whether it
/// asks for content. A request that is refused gets no bytes. One that is served
/// gets what the store says of the object, and the bytes that it asks for: all of
/// them, those of its range, or none for a head request; a range without bytes is
/// an error that tells the range and the length of the object.
pub proof fn law_conditions_decide_get(disk: Disk, location: Seq<char>, options: GetOptionsView)
    requires
        readable(disk, location),
    ensures
        ({
            let content = disk.files[absolute_file(location)].content;
            let length = content.len() as u64;
            let meta = meta_on(disk, location);
            let (result, bytes) = get_on(disk, location, options);
            match ruling(
                options.if_match,
                options.if_unmodified_since,
                options.if_none_match,
                options.if_modified_since,
                etag(disk.status(absolute_file(location))),
                at_millis(signed_millis(disk.files[absolute_file(location)].modified)),
            ) {
                Ruling::Precondition => {
                    &&& result matches Err(StoreErrorView::Precondition { path, source })
                    &&& path == location
                    &&& source == ErrorSourceView::Message(reason_on(disk, location, options))
                    &&& bytes == Seq::<u8>::empty()
                },
                Ruling::NotModified => {
                    &&& result matches Err(StoreErrorView::NotModified { path, source })
                    &&& path == location
                    &&& source == ErrorSourceView::Message(reason_on(disk, location, options))
                    &&& bytes == Seq::<u8>::empty()
                },
                Ruling::Served => match (options.head, options.range) {
                    (true, _) => {
                        &&& result matches Ok(got)
                        &&& got.meta == meta
                        &&& got.range == (ByteRange { start: 0, end: 0 })
                        &&& got.content is None
                        &&& bytes == Seq::<u8>::empty()
                    },
                    (false, None) => {
                        &&& result matches Ok(got)
                        &&& got.meta == meta
                        &&& got.range == (ByteRange { start: 0, end: length })
                        &&& bytes == content
                    },
                    (false, Some(range)) => match resolved(range, length) {
                        Ok(part) => {
                            &&& result matches Ok(got)
                            &&& got.meta == meta
                            &&& got.range == part
                            &&& bytes == content.subrange(part.start as int, part.end as int)
                        },
                        Err(text) => {
                            &&& result == Err::<GetResultView, StoreErrorView>(
                                StoreErrorView::Generic {
                                    store: "HFDS"@,
                                    source: ErrorSourceView::Range(
                                        RangeErrorView { range, length, text },
                                    ),
                                },
                            )
                            &&& bytes == Seq::<u8>::empty()
                        },
                    },
                },
            }
        }),
{
    let file = absolute_file(location);
    let tag = etag(disk.status(file));
    let content = disk.files[file].content;
    law_absolute_round_trip(location);
    assert(object_meta(disk.status(file)) == Ok::<ObjectMetaView, StoreErrorView>(
        meta_on(disk, location),
    ));
    if let Some(list) = options.if_match {
        lemma_names_tag(list, tag);
    }
    if let Some(list) = options.if_none_match {
        lemma_names_tag(list, tag);
    }
    if let Some(range) = options.range {
        law_range_within_object(range, content.len() as u64);
    }
    assert(content.subrange(0, content.len() as int) == content);
}

/// Two requests with the same conditions are refused alike, whatever range they
/// ask for, and whether or not they ask for content.
pub proof fn law_refusal_ignores_range_and_head(
    options: GetOptionsView,
    range: Option<GetRange>,
    head: bool,
    meta: ObjectMetaView,
)
    ensures
        refusal(GetOptionsView { range, head, ..options }, meta) == refusal(options, meta),
{
}

/// A failed call ends a request with the error of the call.
pub proof fn law_failed_call_ends_get(op: GetView, e: FileErrorView)
    ensures
        op.resume(ReplyView::Failed(e)) == ProgressView::<GetView, GetResultView>::Ended(
            Err(object_store_err(e)),
        ),
{
}

/// A request looks at the file of the object first. A directory is not found,
/// under the path of the object; a file that the store can say nothing of is
/// answered with the reason for that. Only a request that is served and asks for
/// content goes on, and opens that same file.
pub proof fn law_get_looks_first(
    location: Seq<char>,
    options: GetOptionsView,
    status: FileStatusView,
)
    ensures
        ({
            let asking = get_start(location, options);
            let next = asking.resume(ReplyView::Status(status));
            &&& asking.request() == (RequestView::GetFileInfo { path: seq!['/'] + location })
            &&& status.isdir ==> next == ProgressView::<GetView, GetResultView>::Ended(
                Err(
                    StoreErrorView::NotFound {
                        path: location,
                        source: ErrorSourceView::Message("Head cannot be called on a directory"@),
                    },
                ),
            )
            &&& !status.isdir ==> (object_meta(status) matches Err(e) ==> next == ProgressView::<
                GetView,
                GetResultView,
            >::Ended(Err(e)))
            &&& next matches ProgressView::Pending(opening) ==> !options.head && opening.request()
                == (RequestView::Open { path: seq!['/'] + location })
        }),
{
}

/// A request without conditions is served whatever the object is.
pub proof fn law_no_conditions_no_refusal(head: bool, meta: ObjectMetaView)
    ensures
        refusal(unconditional(head), meta) is None,
        unconditional(head).head == head,
        unconditional(head).range is None,
{
}

} // verus!
