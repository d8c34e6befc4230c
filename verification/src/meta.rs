//! What the store says of an object: its path, its size, when it was last
//! modified, and its ETag.

use crate::error::{generic, generic_message, StoreError, StoreErrorView};
use crate::numeral::{
    hexadecimal, law_numeral_injective, lemma_numeral_digits, write_hexadecimal,
};
use crate::path::{parsed, Path};
use vstd::prelude::*;

verus! {

/// The first and the last second that a point in time can lie in.
pub const MIN_SECS: i64 = -8_334_601_228_800;

pub const MAX_SECS: i64 = 8_210_266_876_799;

/// A point in time: seconds since the Unix epoch, and nanoseconds into the
/// second. From 1,000,000,000 on, the nanoseconds lie in a leap second.
#[derive(Debug, Clone, Copy, PartialEq, Eq)]
pub struct Timestamp {
    secs: i64,
    nanos: u32,
}

pub struct TimestampView {
    pub secs: int,
    pub nanos: int,
}

impl View for Timestamp {
    type V = TimestampView;

    closed spec fn view(&self) -> TimestampView {
        TimestampView { secs: self.secs as int, nanos: self.nanos as int }
    }
}

impl TimestampView {
    /// The points in time that the store can handle. A leap second comes only
    /// at the end of a minute.
    pub open spec fn in_range(self) -> bool {
        &&& MIN_SECS <= self.secs <= MAX_SECS
        &&& 0 <= self.nanos < 1_000_000_000 || (self.secs % 60 == 59 && 0 <= self.nanos
            < 2_000_000_000)
    }

    /// This point in time comes after `other`.
    pub open spec fn after(self, other: TimestampView) -> bool {
        self.secs > other.secs || (self.secs == other.secs && self.nanos > other.nanos)
    }
}

impl Timestamp {
    #[verifier::type_invariant]
    pub open spec fn well_formed(self) -> bool {
        self@.in_range()
    }

    /// The point in time `nanos` nanoseconds into the second `secs`.
    pub fn new(secs: i64, nanos: u32) -> (r: Option<Timestamp>)
        ensures
            ({
                let wanted = TimestampView { secs: secs as int, nanos: nanos as int };
                match r {
                    Some(t) => wanted.in_range() && t@ == wanted,
                    None => !wanted.in_range(),
                }
            }),
    {
        let minute_ends: bool = match secs.checked_rem_euclid(60) {
            Some(second) => second == 59,
            None => false,
        };
        if MIN_SECS <= secs && secs <= MAX_SECS && (nanos < 1_000_000_000 || (minute_ends && nanos
            < 2_000_000_000)) {
            Some(Timestamp { secs, nanos })
        } else {
            None
        }
    }

    /// Seconds since the Unix epoch.
    pub fn secs(&self) -> (r: i64)
        ensures
            r == self@.secs,
            self@.in_range(),
    {
        proof {
            use_type_invariant(self);
        }
        self.secs
    }

    /// Nanoseconds into the second.
    pub fn nanos(&self) -> (r: u32)
        ensures
            r == self@.nanos,
            self@.in_range(),
    {
        proof {
            use_type_invariant(self);
        }
        self.nanos
    }
}

/// The point in time `millis` milliseconds after the Unix epoch.
pub open spec fn at_millis(millis: int) -> TimestampView {
    TimestampView { secs: millis / 1000, nanos: (millis % 1000) * 1_000_000 }
}

/// Calls `chrono::DateTime::from_timestamp_millis` and takes the result apart.
///
/// Claimed of it: milliseconds within chrono's range of years (from the first
/// second of `MIN_SECS` to the end of `MAX_SECS`) give that point in time, and
/// no others do.
#[verifier::external_body]
fn seconds_from_millis(millis: i64) -> (r: Option<(i64, u32)>)
    ensures
        match r {
            Some((secs, nanos)) => {
                &&& at_millis(millis as int).in_range()
                &&& secs == at_millis(millis as int).secs
                &&& nanos == at_millis(millis as int).nanos
            },
            None => !at_millis(millis as int).in_range(),
        },
{
    match chrono::DateTime::from_timestamp_millis(millis) {
        Some(time) => Some((time.timestamp(), time.timestamp_subsec_nanos())),
        None => None,
    }
}

/// What the file system says of a file or a directory.
#[derive(Debug)]
pub struct FileStatus {
    /// The absolute path.
    pub path: String,
    /// The length in bytes.
    pub length: usize,
    pub isdir: bool,
    /// Milliseconds since the Unix epoch.
    pub modification_time: u64,
}

pub struct FileStatusView {
    pub path: Seq<char>,
    pub length: nat,
    pub isdir: bool,
    pub modification_time: nat,
}

impl View for FileStatus {
    type V = FileStatusView;

    open spec fn view(&self) -> FileStatusView {
        FileStatusView {
            path: self.path@,
            length: self.length as nat,
            isdir: self.isdir,
            modification_time: self.modification_time as nat,
        }
    }
}

/// What the store says of an object.
#[derive(Debug)]
pub struct ObjectMeta {
    pub location: Path,
    pub last_modified: Timestamp,
    /// The size in bytes.
    pub size: u64,
    pub e_tag: Option<String>,
    pub version: Option<String>,
}

pub struct ObjectMetaView {
    pub location: Seq<char>,
    pub last_modified: TimestampView,
    pub size: nat,
    pub e_tag: Option<Seq<char>>,
    pub version: Option<Seq<char>>,
}

/// The text of an optional string.
pub open spec fn text_of(s: Option<String>) -> Option<Seq<char>> {
    match s {
        Some(text) => Some(text@),
        None => None,
    }
}

impl View for ObjectMeta {
    type V = ObjectMetaView;

    open spec fn view(&self) -> ObjectMetaView {
        ObjectMetaView {
            location: self.location@,
            last_modified: self.last_modified@,
            size: self.size as nat,
            e_tag: text_of(self.e_tag),
            version: text_of(self.version),
        }
    }
}

/// The ETag of a file: its modification time and its length, in hexadecimal,
/// with a hyphen between them.
pub open spec fn etag(status: FileStatusView) -> Seq<char> {
    hexadecimal(status.modification_time).push('-') + hexadecimal(status.length)
}

/// A modification time read as a signed number of milliseconds.
pub open spec fn signed_millis(modification_time: nat) -> int {
    if modification_time <= i64::MAX {
        modification_time as int
    } else {
        modification_time - 0x1_0000_0000_0000_0000
    }
}

/// What the store says of the object that is kept in a file.
pub open spec fn object_meta(status: FileStatusView) -> Result<ObjectMetaView, StoreErrorView> {
    let last_modified = at_millis(signed_millis(status.modification_time));
    match parsed(status.path) {
        Err(source) => Err(StoreErrorView::InvalidPath(source)),
        Ok(location) => if last_modified.in_range() {
            Ok(
                ObjectMetaView {
                    location,
                    last_modified,
                    size: status.length,
                    e_tag: Some(etag(status)),
                    version: None,
                },
            )
        } else {
            Err(generic("Last modified timestamp out of bounds"@))
        },
    }
}

/// The ETag of a file, in the manner of HTTP servers.
pub fn get_etag(status: &FileStatus) -> (tag: String)
    ensures
        tag@ == etag(status@),
{
    proof {
        reveal_strlit("-");
    }
    let mut tag: String = write_hexadecimal(status.modification_time);
    tag.append("-");
    tag.append(write_hexadecimal(status.length as u64).as_str());
    assert(tag@ == etag(status@));
    tag
}

/// What the store says of the object that is kept in a file: an error where
/// the file's path is no object path, or its modification time out of bounds.
pub fn get_object_meta(status: &FileStatus) -> (r: Result<ObjectMeta, StoreError>)
    ensures
        match r {
            Ok(meta) => object_meta(status@) == Ok::<ObjectMetaView, StoreErrorView>(meta@),
            Err(e) => object_meta(status@) == Err::<ObjectMetaView, StoreErrorView>(e@),
        },
{
    let location: Path = match Path::parse(status.path.as_str()) {
        Ok(location) => location,
        Err(source) => {
            return Err(StoreError::InvalidPath(source));
        },
    };
    let time: u64 = status.modification_time;
    assert(time <= 0x7fff_ffff_ffff_ffff ==> time as i64 == time) by (bit_vector);
    assert(time > 0x7fff_ffff_ffff_ffff ==> time as i64 == time - 0x1_0000_0000_0000_0000)
        by (bit_vector);
    let millis: i64 = #[verifier::truncate] (time as i64);
    match seconds_from_millis(millis) {
        Some((secs, nanos)) => Ok(
            ObjectMeta {
                location,
                last_modified: Timestamp { secs, nanos },
                size: status.length as u64,
                e_tag: Some(get_etag(status)),
                version: None,
            },
        ),
        None => Err(generic_message("Last modified timestamp out of bounds")),
    }
}

/// Two files have the same ETag exactly where they have the same modification
/// time and the same length.
pub proof fn law_etag_identifies_version(a: FileStatusView, b: FileStatusView)
    ensures
        etag(a) == etag(b) <==> a.modification_time == b.modification_time && a.length == b.length,
{
    let ta = hexadecimal(a.modification_time);
    let tb = hexadecimal(b.modification_time);
    let la = hexadecimal(a.length);
    let lb = hexadecimal(b.length);
    lemma_numeral_digits(a.modification_time, 16);
    lemma_numeral_digits(b.modification_time, 16);
    if etag(a) == etag(b) {
        assert(etag(a)[ta.len() as int] == '-');
        assert(etag(b)[tb.len() as int] == '-');
        if ta.len() < tb.len() {
            assert(etag(b)[ta.len() as int] == tb[ta.len() as int]);
            assert(false);
        }
        if tb.len() < ta.len() {
            assert(etag(a)[tb.len() as int] == ta[tb.len() as int]);
            assert(false);
        }
        assert(etag(a).take(ta.len() as int) == ta);
        assert(etag(b).take(tb.len() as int) == tb);
        assert(etag(a).skip(ta.len() as int + 1) == la);
        assert(etag(b).skip(tb.len() as int + 1) == lb);
        law_numeral_injective(a.modification_time, b.modification_time, 16);
        law_numeral_injective(a.length, b.length, 16);
    }
}

} // verus!
