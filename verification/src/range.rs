//! The part of an object that a request asks for.

use crate::numeral::decimal;
use vstd::prelude::*;

verus! {

/// A part of an object.
#[derive(Debug, Clone, Copy, PartialEq, Eq)]
pub enum GetRange {
    /// From the byte `start` up to the byte `end`, which is left out.
    Bounded { start: u64, end: u64 },
    /// From a byte to the end.
    Offset(u64),
    /// The last bytes, as many as there are up to the given number.
    Suffix(u64),
}

/// The bytes from `start` up to `end`, which is left out.
#[derive(Debug, Clone, Copy, PartialEq, Eq)]
pub struct ByteRange {
    pub start: u64,
    pub end: u64,
}

/// The bytes of an object of `length` bytes that `range` stands for, if it
/// stands for any: what lies behind the end of the object is cut off, a range
/// that starts there is in error, and so is a bounded range without bytes or
/// with more than an address can count.
pub open spec fn resolved(range: GetRange, length: u64) -> Result<ByteRange, Seq<char>> {
    match range {
        GetRange::Bounded { start, end } => if end <= start {
            Err(
                "Range started at "@ + decimal(start as nat) + " and ended at "@ + decimal(
                    end as nat,
                ),
            )
        } else if end - start > usize::MAX {
            Err(
                "Range "@ + decimal(start as nat) + " is larger than system memory limit "@
                    + decimal(usize::MAX as nat),
            )
        } else if start >= length {
            Err(starts_too_late(start, length))
        } else if end > length {
            Ok(ByteRange { start, end: length })
        } else {
            Ok(ByteRange { start, end })
        },
        GetRange::Offset(start) => if start >= length {
            Err(starts_too_late(start, length))
        } else {
            Ok(ByteRange { start, end: length })
        },
        GetRange::Suffix(count) => if count >= length {
            Ok(ByteRange { start: 0, end: length })
        } else {
            Ok(ByteRange { start: (length - count) as u64, end: length })
        },
    }
}

pub open spec fn starts_too_late(start: u64, length: u64) -> Seq<char> {
    "Wanted range starting at "@ + decimal(start as nat) + ", but object was only "@ + decimal(
        length as nat,
    ) + " bytes long"@
}

/// The error that `object_store` gives for a range of an object of `length`
/// bytes. Its type has no public name: the range and the length tell which error
/// it is, and the text is what it says.
#[derive(Debug)]
pub struct RangeError {
    pub range: GetRange,
    pub length: u64,
    pub text: String,
}

pub struct RangeErrorView {
    pub range: GetRange,
    pub length: u64,
    pub text: Seq<char>,
}

impl View for RangeError {
    type V = RangeErrorView;

    open spec fn view(&self) -> RangeErrorView {
        RangeErrorView { range: self.range, length: self.length, text: self.text@ }
    }
}

/// Calls `object_store::GetRange::as_range`; of its error it keeps the text.
///
/// Claimed of it: the range comes out cut off at the length, or the error that
/// says why it has no bytes, as [`resolved`] has it.
#[verifier::external_body]
fn as_range(range: &GetRange, length: u64) -> (r: Result<ByteRange, String>)
    ensures
        match r {
            Ok(bytes) => resolved(*range, length) == Ok::<ByteRange, Seq<char>>(bytes),
            Err(text) => resolved(*range, length) == Err::<ByteRange, Seq<char>>(text@),
        },
{
    let wanted = match range {
        GetRange::Bounded { start, end } => object_store::GetRange::Bounded(*start..*end),
        GetRange::Offset(start) => object_store::GetRange::Offset(*start),
        GetRange::Suffix(count) => object_store::GetRange::Suffix(*count),
    };
    match wanted.as_range(length) {
        Ok(bytes) => Ok(ByteRange { start: bytes.start, end: bytes.end }),
        Err(e) => Err(e.to_string()),
    }
}

/// The bytes of an object of `length` bytes that `range` stands for, or the error
/// that says why it stands for none.
pub fn resolve(range: &GetRange, length: u64) -> (r: Result<ByteRange, RangeError>)
    ensures
        match r {
            Ok(bytes) => resolved(*range, length) == Ok::<ByteRange, Seq<char>>(bytes),
            Err(e) => {
                &&& resolved(*range, length) == Err::<ByteRange, Seq<char>>(e@.text)
                &&& e@.range == *range
                &&& e@.length == length
            },
        },
{
    match as_range(range, length) {
        Ok(bytes) => Ok(bytes),
        Err(text) => Err(RangeError { range: *range, length, text }),
    }
}

/// A range that stands for bytes of an object stays within the object.
pub proof fn law_range_within_object(range: GetRange, length: u64)
    ensures
        resolved(range, length) matches Ok(bytes) ==> bytes.start <= bytes.end <= length,
{
}

/// The byte `at` of an object of `length` bytes is one that `range` asks for.
pub open spec fn asks_for(range: GetRange, length: u64, at: int) -> bool {
    match range {
        GetRange::Bounded { start, end } => start <= at < end,
        GetRange::Offset(start) => start <= at,
        GetRange::Suffix(count) => length - count <= at,
    }
}

/// A range stands for exactly the bytes of the object that it asks for. One that
/// asks for none is in error, but for the last bytes, of which there may be none;
/// a bounded one is so too where it is longer than an address can count.
pub proof fn law_range_takes_what_it_asks_for(range: GetRange, length: u64)
    ensures
        resolved(range, length) matches Ok(bytes) ==> forall|at: int|
            bytes.start <= at < bytes.end <==> 0 <= at < length && #[trigger] asks_for(
                range,
                length,
                at,
            ),
        range is Suffix ==> resolved(range, length) is Ok,
        range is Offset ==> (resolved(range, length) is Ok <==> asks_for(
            range,
            length,
            length - 1,
        ) && length > 0),
        range matches GetRange::Bounded { start, end } ==> (resolved(range, length) is Ok <==> start
            < length && start < end && end - start <= usize::MAX),
{
}

/// What is said of a range without bytes: where it starts, and how long the
/// object is or where the range ends.
pub proof fn law_range_errors_tell_numbers(range: GetRange, length: u64)
    requires
        resolved(range, length) is Err,
    ensures
        ({
            let text = resolved(range, length)->Err_0;
            match range {
                GetRange::Offset(start) => text == "Wanted range starting at "@ + decimal(
                    start as nat,
                ) + ", but object was only "@ + decimal(length as nat) + " bytes long"@,
                GetRange::Bounded { start, end } => if end <= start {
                    text == "Range started at "@ + decimal(start as nat) + " and ended at "@
                        + decimal(end as nat)
                } else if end - start > usize::MAX {
                    text == "Range "@ + decimal(start as nat)
                        + " is larger than system memory limit "@ + decimal(usize::MAX as nat)
                } else {
                    text == "Wanted range starting at "@ + decimal(start as nat)
                        + ", but object was only "@ + decimal(length as nat) + " bytes long"@
                },
                GetRange::Suffix(_) => false,
            }
        }),
{
}

} // verus!
