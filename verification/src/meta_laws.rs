//! What the store says of a file, in terms of what the file system says.

use crate::error::{ErrorSourceView, StoreErrorView};
use crate::meta::{etag, object_meta, FileStatusView, ObjectMetaView, TimestampView};
use crate::numeral::hexadecimal;
use crate::path::{absolute_file, law_absolute_round_trip, parsed, valid_path};
use crate::text_laws::{is_numeral, law_numeral_reads_back, value_of};
use vstd::prelude::*;

verus! {

/// An ETag can be read back: it is two hexadecimal numerals with a hyphen between
/// them, and they stand for the modification time and the length of the file.
pub proof fn law_etag_reads_back(status: FileStatusView) -> (hyphen: int)
    ensures
        ({
            let tag = etag(status);
            let (time, size) = (tag.take(hyphen), tag.skip(hyphen + 1));
            &&& 0 <= hyphen < tag.len()
            &&& tag[hyphen] == '-'
            &&& is_numeral(time, 16) && value_of(time, 16) == status.modification_time
            &&& is_numeral(size, 16) && value_of(size, 16) == status.length
        }),
{
    let (time, size) = (hexadecimal(status.modification_time), hexadecimal(status.length));
    law_numeral_reads_back(status.modification_time, 16);
    law_numeral_reads_back(status.length, 16);
    let hyphen = time.len() as int;
    assert(etag(status).take(hyphen) == time);
    assert(etag(status).skip(hyphen + 1) == size);
    hyphen
}

/// The modification time of a file in milliseconds, which the file system gives
/// as a number of sixty-four bits.
pub open spec fn millis_of(modification_time: nat) -> int {
    if modification_time < 0x8000_0000_0000_0000 {
        modification_time as int
    } else {
        modification_time - 0x1_0000_0000_0000_0000
    }
}

/// The times that the store can handle, in milliseconds.
pub open spec fn is_known_time(millis: int) -> bool {
    -8_334_601_228_800_000 <= millis <= 8_210_266_876_799_999
}

/// What the store says of a file: under its path, its whole length as the size,
/// its modification time to the millisecond, its ETag, and no version.
pub proof fn law_meta_says_what_status_says(status: FileStatusView)
    ensures
        object_meta(status) matches Ok(meta) ==> {
            &&& parsed(status.path) matches Ok(location) && location == meta.location
            &&& meta.size == status.length
            &&& meta.e_tag == Some(etag(status))
            &&& meta.version is None
            &&& 0 <= meta.last_modified.nanos < 1_000_000_000
            &&& meta.last_modified.secs * 1_000_000_000 + meta.last_modified.nanos == millis_of(
                status.modification_time,
            ) * 1_000_000
        },
{
}

/// When the store says anything of a file: where its path is an object path and
/// its time is one that the store can handle. Otherwise it says which of the two
/// is wrong, the path first.
pub proof fn law_meta_is_known_of_every_object(status: FileStatusView, location: Seq<char>)
    ensures
        valid_path(location) && status.path == absolute_file(location) ==> {
            if is_known_time(millis_of(status.modification_time)) {
                object_meta(status) matches Ok(meta) && meta.location == location
            } else {
                object_meta(status) == Err::<ObjectMetaView, StoreErrorView>(
                    StoreErrorView::Generic {
                        store: "HFDS"@,
                        source: ErrorSourceView::Message("Last modified timestamp out of bounds"@),
                    },
                )
            }
        },
        parsed(status.path) matches Err(e) ==> object_meta(status) == Err::<
            ObjectMetaView,
            StoreErrorView,
        >(StoreErrorView::InvalidPath(e)),
{
    if valid_path(location) {
        law_absolute_round_trip(location);
    }
}

/// Later is later: of two points in time outside of leap seconds, one comes after
/// the other exactly where more nanoseconds have passed. Of any two, one comes
/// after the other or they are the same.
pub proof fn law_later_is_after(a: TimestampView, b: TimestampView)
    ensures
        0 <= a.nanos < 1_000_000_000 && 0 <= b.nanos < 1_000_000_000 ==> (a.after(b)
            <==> a.secs * 1_000_000_000 + a.nanos > b.secs * 1_000_000_000 + b.nanos),
        a.after(b) ==> !b.after(a),
        a == b || a.after(b) || b.after(a),
        !a.after(a),
{
}

/// The points in time that there are: any nanosecond of the known seconds, and
/// those of a leap second at the end of a minute.
pub proof fn law_known_points_in_time(t: TimestampView)
    ensures
        t.in_range() <==> {
            &&& -8_334_601_228_800 <= t.secs <= 8_210_266_876_799
            &&& 0 <= t.nanos < 2_000_000_000
            &&& t.nanos < 1_000_000_000 || t.secs % 60 == 59
        },
{
}

} // verus!
