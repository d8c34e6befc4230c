//! The conditions under which a request for an object is served.

use crate::meta::{text_of, ObjectMeta, ObjectMetaView, Timestamp, TimestampView};
use crate::path::pieces;
use crate::range::GetRange;
use chrono::DateTime;
use object_store::Error;
use vstd::prelude::*;

verus! {

/// What a request for an object asks for, and on what conditions.
#[derive(Debug)]
pub struct GetOptions {
    /// Served only if the ETag is in this list.
    pub if_match: Option<String>,
    /// Served only if the ETag is not in this list.
    pub if_none_match: Option<String>,
    /// Served only if the object was modified after this time.
    pub if_modified_since: Option<Timestamp>,
    /// Served only if the object was not modified after this time.
    pub if_unmodified_since: Option<Timestamp>,
    /// The part that is asked for; the whole object if there is none.
    pub range: Option<GetRange>,
    /// Asks for no content.
    pub head: bool,
}

pub struct GetOptionsView {
    pub if_match: Option<Seq<char>>,
    pub if_none_match: Option<Seq<char>>,
    pub if_modified_since: Option<TimestampView>,
    pub if_unmodified_since: Option<TimestampView>,
    pub range: Option<GetRange>,
    pub head: bool,
}

/// The point in time of an optional timestamp.
pub open spec fn time_of(t: Option<Timestamp>) -> Option<TimestampView> {
    match t {
        Some(time) => Some(time@),
        None => None,
    }
}

impl View for GetOptions {
    type V = GetOptionsView;

    open spec fn view(&self) -> GetOptionsView {
        GetOptionsView {
            if_match: text_of(self.if_match),
            if_none_match: text_of(self.if_none_match),
            if_modified_since: time_of(self.if_modified_since),
            if_unmodified_since: time_of(self.if_unmodified_since),
            range: self.range,
            head: self.head,
        }
    }
}

impl GetOptions {
    /// A request without conditions, for the whole object or, with `head`, for
    /// no content.
    pub fn unconditional(head: bool) -> (r: GetOptions)
        ensures
            r@ == unconditional(head),
    {
        GetOptions {
            if_match: None,
            if_none_match: None,
            if_modified_since: None,
            if_unmodified_since: None,
            range: None,
            head,
        }
    }
}

/// A request without conditions.
pub open spec fn unconditional(head: bool) -> GetOptionsView {
    GetOptionsView {
        if_match: None,
        if_none_match: None,
        if_modified_since: None,
        if_unmodified_since: None,
        range: None,
        head,
    }
}

/// The characters that Unicode calls white space.
pub open spec fn is_white_space(c: char) -> bool {
    ||| '\u{9}' <= c <= '\u{d}'
    ||| c == ' '
    ||| c == '\u{85}'
    ||| c == '\u{a0}'
    ||| c == '\u{1680}'
    ||| '\u{2000}' <= c <= '\u{200a}'
    ||| c == '\u{2028}'
    ||| c == '\u{2029}'
    ||| c == '\u{202f}'
    ||| c == '\u{205f}'
    ||| c == '\u{3000}'
}

/// `s` without the white space at its two ends.
pub open spec fn trimmed(s: Seq<char>) -> Seq<char>
    decreases s.len(),
{
    if s.len() > 0 && is_white_space(s[0]) {
        trimmed(s.drop_first())
    } else if s.len() > 0 && is_white_space(s.last()) {
        trimmed(s.drop_last())
    } else {
        s
    }
}

/// The list of ETags `list` holds `tag`: a star stands for every tag, and
/// otherwise commas separate the tags, with white space around them.
pub open spec fn lists_tag(list: Seq<char>, tag: Seq<char>) -> bool {
    list == "*"@ || exists|i: int|
        0 <= i < pieces(list, ',').len() && trimmed(#[trigger] pieces(list, ',')[i]) == tag
}

/// The ETag that the conditions look at.
pub open spec fn tag_of(e_tag: Option<Seq<char>>) -> Seq<char> {
    match e_tag {
        Some(tag) => tag,
        None => "*"@,
    }
}

/// An object is the one that a request wants: its ETag is in the list for a
/// match or, where there is no such list, it was not modified after the given
/// time.
pub open spec fn is_wanted(
    if_match: Option<Seq<char>>,
    if_unmodified_since: Option<TimestampView>,
    e_tag: Option<Seq<char>>,
    last_modified: TimestampView,
) -> bool {
    match (if_match, if_unmodified_since) {
        (Some(list), _) => lists_tag(list, tag_of(e_tag)),
        (None, Some(time)) => !last_modified.after(time),
        (None, None) => true,
    }
}

/// An object is news to the requester: its ETag is not in the list of known
/// ones or, where there is no such list, it was modified after the given time.
pub open spec fn is_news(
    if_none_match: Option<Seq<char>>,
    if_modified_since: Option<TimestampView>,
    e_tag: Option<Seq<char>>,
    last_modified: TimestampView,
) -> bool {
    match (if_none_match, if_modified_since) {
        (Some(list), _) => !lists_tag(list, tag_of(e_tag)),
        (None, Some(time)) => last_modified.after(time),
        (None, None) => true,
    }
}

impl GetOptionsView {
    /// The object is the one that the request wants.
    pub open spec fn wants(self, meta: ObjectMetaView) -> bool {
        is_wanted(self.if_match, self.if_unmodified_since, meta.e_tag, meta.last_modified)
    }

    /// The object is news to the requester.
    pub open spec fn is_news(self, meta: ObjectMetaView) -> bool {
        is_news(self.if_none_match, self.if_modified_since, meta.e_tag, meta.last_modified)
    }

    /// Why an object does not meet the conditions.
    pub open spec fn reason(self, meta: ObjectMetaView) -> Seq<char> {
        condition_text(
            self.if_match,
            self.if_none_match,
            pair_of(self.if_modified_since),
            pair_of(self.if_unmodified_since),
            meta.e_tag,
            (meta.last_modified.secs, meta.last_modified.nanos),
        )
    }
}

/// Whether the conditions of a request are met.
#[derive(Debug)]
pub enum Verdict {
    Met,
    /// The object is not the one that the request wants; the text says why.
    Failed(String),
    /// The object is no news to the requester; the text says why.
    NotModified(String),
}

/// The text of the error of `object_store::GetOptions::check_preconditions`
/// for these conditions, this ETag and this time of modification.
pub uninterp spec fn condition_text(
    if_match: Option<Seq<char>>,
    if_none_match: Option<Seq<char>>,
    if_modified_since: Option<(int, int)>,
    if_unmodified_since: Option<(int, int)>,
    e_tag: Option<Seq<char>>,
    last_modified: (int, int),
) -> Seq<char>;

/// Seconds and nanoseconds of an optional point in time.
pub open spec fn pair_of(time: Option<TimestampView>) -> Option<(int, int)> {
    match time {
        Some(t) => Some((t.secs, t.nanos)),
        None => None,
    }
}

/// Calls `object_store::GetOptions::check_preconditions` for an object with
/// this ETag and this time of modification, which is all that it looks at.
///
/// Claimed of it: the request fails where the object is not the one that it
/// wants; else it is answered with "not modified" where the object is no news;
/// else its conditions are met. The text of the error depends on nothing but
/// the conditions, the ETag and the time of modification; where a list of
/// ETags decided, it quotes the tag and the list.
#[verifier::external_body]
fn check_preconditions(
    if_match: Option<String>,
    if_none_match: Option<String>,
    if_modified_since: Option<Timestamp>,
    if_unmodified_since: Option<Timestamp>,
    e_tag: Option<String>,
    last_modified: Timestamp,
) -> (r: Verdict)
    requires
        last_modified@.in_range(),
        if_modified_since matches Some(time) ==> time@.in_range(),
        if_unmodified_since matches Some(time) ==> time@.in_range(),
    ensures
        ({
            let (list, known, tag) = (text_of(if_match), text_of(if_none_match), text_of(e_tag));
            let (since, until) = (time_of(if_modified_since), time_of(if_unmodified_since));
            let modified = last_modified@;
            let text = condition_text(
                list,
                known,
                pair_of(since),
                pair_of(until),
                tag,
                (modified.secs, modified.nanos),
            );
            match r {
                Verdict::Met => {
                    &&& is_wanted(list, until, tag, modified)
                    &&& is_news(known, since, tag, modified)
                },
                Verdict::Failed(reason) => {
                    &&& !is_wanted(list, until, tag, modified)
                    &&& reason@ == text
                    &&& list matches Some(l) ==> text == tag_of(tag) + " does not match "@ + l
                },
                Verdict::NotModified(reason) => {
                    &&& is_wanted(list, until, tag, modified)
                    &&& !is_news(known, since, tag, modified)
                    &&& reason@ == text
                    &&& known matches Some(k) ==> text == tag_of(tag) + " matches "@ + k
                },
            }
        }),
{
    let at = |t: Timestamp| DateTime::from_timestamp(t.secs(), t.nanos());
    let asked = object_store::GetOptions::new()
        .with_if_match(if_match)
        .with_if_none_match(if_none_match)
        .with_if_modified_since(if_modified_since.and_then(at))
        .with_if_unmodified_since(if_unmodified_since.and_then(at));
    let last_modified = at(last_modified).unwrap_or_default();
    let (location, size, version) = (Default::default(), 0, None);
    let found = object_store::ObjectMeta { location, last_modified, size, e_tag, version };
    match asked.check_preconditions(&found) {
        Ok(_) => Verdict::Met,
        Err(Error::NotModified { source, .. }) => Verdict::NotModified(source.to_string()),
        Err(Error::Precondition { source, .. }) => Verdict::Failed(source.to_string()),
        Err(other) => Verdict::Failed(other.to_string()),
    }
}

fn copy_of(text: &Option<String>) -> (r: Option<String>)
    ensures
        text_of(r) == text_of(*text),
{
    match text {
        Some(text) => Some(text.clone()),
        None => None,
    }
}

impl GetOptions {
    /// Whether an object meets the conditions of the request: it has to be the
    /// one that the request wants, and then it has to be news.
    pub fn check(&self, meta: &ObjectMeta) -> (r: Verdict)
        ensures
            match r {
                Verdict::Met => self@.wants(meta@) && self@.is_news(meta@),
                Verdict::Failed(text) => {
                    !self@.wants(meta@) && text@ == self@.reason(meta@)
                },
                Verdict::NotModified(text) => {
                    &&& self@.wants(meta@)
                    &&& !self@.is_news(meta@)
                    &&& text@ == self@.reason(meta@)
                },
            },
            !self@.wants(meta@) ==> (self@.if_match matches Some(list) ==> self@.reason(meta@)
                == tag_of(meta@.e_tag) + " does not match "@ + list),
            self@.wants(meta@) && !self@.is_news(meta@) ==> (self@.if_none_match matches Some(list)
                ==> self@.reason(meta@) == tag_of(meta@.e_tag) + " matches "@ + list),
    {
        proof {
            use_type_invariant(&meta.last_modified);
            if let Some(time) = &self.if_modified_since {
                use_type_invariant(time);
            }
            if let Some(time) = &self.if_unmodified_since {
                use_type_invariant(time);
            }
        }
        check_preconditions(
            copy_of(&self.if_match),
            copy_of(&self.if_none_match),
            self.if_modified_since,
            self.if_unmodified_since,
            copy_of(&meta.e_tag),
            meta.last_modified,
        )
    }
}

} // verus!
