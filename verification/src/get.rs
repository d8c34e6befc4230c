//! Reading an object.

use crate::conditions::{GetOptions, GetOptionsView, Verdict};
use crate::error::{
    generic_error, generic_from, object_store_err, store_error, ErrorSource, ErrorSourceView,
    StoreError, StoreErrorView,
};
use crate::meta::{
    get_object_meta, object_meta, FileStatus, FileStatusView, ObjectMeta, ObjectMetaView,
};
use crate::path::{absolute_file, make_absolute_file, Path};
use crate::range::{resolve, resolved, ByteRange, RangeErrorView};
use crate::request::{Progress, ProgressView, Reply, ReplyView, Request, RequestView};
use vstd::prelude::*;

verus! {

/// What a request for an object is answered with.
#[derive(Debug)]
pub struct GetResult {
    pub meta: ObjectMeta,
    /// The part of the object that is served.
    pub range: ByteRange,
    /// The stretch of the open file that holds this part: its offset and its
    /// length. There is none where no content was asked for.
    pub content: Option<(usize, usize)>,
}

pub struct GetResultView {
    pub meta: ObjectMetaView,
    pub range: ByteRange,
    pub content: Option<(usize, usize)>,
}

impl View for GetResult {
    type V = GetResultView;

    open spec fn view(&self) -> GetResultView {
        GetResultView { meta: self.meta@, range: self.range, content: self.content }
    }
}

/// The error for conditions that an object does not meet, if it does not meet
/// all of them.
pub open spec fn refusal(options: GetOptionsView, meta: ObjectMetaView) -> Option<StoreErrorView> {
    let source = ErrorSourceView::Message(options.reason(meta));
    if !options.wants(meta) {
        Some(StoreErrorView::Precondition { path: meta.location, source })
    } else if !options.is_news(meta) {
        Some(StoreErrorView::NotModified { path: meta.location, source })
    } else {
        None
    }
}

/// What is served of the file that `status` tells of: what the store says of
/// the object, and the bytes of it; or the error that the request ends with.
pub open spec fn served(
    location: Seq<char>,
    options: GetOptionsView,
    status: FileStatusView,
) -> Result<(ObjectMetaView, ByteRange), StoreErrorView> {
    if status.isdir {
        Err(
            StoreErrorView::NotFound {
                path: location,
                source: ErrorSourceView::Message("Head cannot be called on a directory"@),
            },
        )
    } else {
        match object_meta(status) {
            Err(e) => Err(e),
            Ok(meta) => match (refusal(options, meta), options.head, options.range) {
                (Some(e), _, _) => Err(e),
                (None, true, _) => Ok((meta, ByteRange { start: 0, end: 0 })),
                (None, false, None) => Ok((meta, ByteRange { start: 0, end: meta.size as u64 })),
                (None, false, Some(range)) => match resolved(range, meta.size as u64) {
                    Ok(bytes) => Ok((meta, bytes)),
                    Err(text) => {
                        let length = meta.size as u64;
                        Err(
                            generic_from(
                                ErrorSourceView::Range(RangeErrorView { range, length, text }),
                            ),
                        )
                    },
                },
            },
        }
    }
}

/// Decides what is served of the file that `status` tells of.
pub fn serve(location: &Path, options: &GetOptions, status: &FileStatus) -> (r: Result<
    (ObjectMeta, ByteRange),
    StoreError,
>)
    ensures
        match r {
            Ok((meta, range)) => {
                &&& served(location@, options@, status@) == Ok::<
                    (ObjectMetaView, ByteRange),
                    StoreErrorView,
                >((meta@, range))
                &&& range.start <= range.end <= status.length
            },
            Err(e) => served(location@, options@, status@) == Err::<
                (ObjectMetaView, ByteRange),
                StoreErrorView,
            >(e@),
        },
{
    if status.isdir {
        return Err(
            StoreError::NotFound {
                path: location.as_str().to_owned(),
                source: ErrorSource::Message("Head cannot be called on a directory".to_owned()),
            },
        );
    }
    let meta: ObjectMeta = match get_object_meta(status) {
        Ok(meta) => meta,
        Err(e) => {
            return Err(e);
        },
    };
    match options.check(&meta) {
        Verdict::Met => {},
        Verdict::Failed(text) => {
            return Err(
                StoreError::Precondition {
                    path: meta.location.as_str().to_owned(),
                    source: ErrorSource::Message(text),
                },
            );
        },
        Verdict::NotModified(text) => {
            return Err(
                StoreError::NotModified {
                    path: meta.location.as_str().to_owned(),
                    source: ErrorSource::Message(text),
                },
            );
        },
    }
    if options.head {
        return Ok((meta, ByteRange { start: 0, end: 0 }));
    }
    match &options.range {
        None => {
            let end: u64 = meta.size;
            Ok((meta, ByteRange { start: 0, end }))
        },
        Some(range) => match resolve(range, meta.size) {
            Ok(bytes) => Ok((meta, bytes)),
            Err(e) => Err(generic_error(ErrorSource::Range(e))),
        },
    }
}

#[derive(Debug)]
enum GetStage {
    /// Waits for the status of the file.
    Asking { options: GetOptions },
    /// Waits for the file to be open.
    Opening { meta: ObjectMeta, range: ByteRange },
}

/// A request for an object that is being served.
#[derive(Debug)]
pub struct GetOperation {
    location: Path,
    stage: GetStage,
}

pub enum GetView {
    Asking { location: Seq<char>, options: GetOptionsView },
    Opening { location: Seq<char>, meta: ObjectMetaView, range: ByteRange },
}

impl View for GetOperation {
    type V = GetView;

    closed spec fn view(&self) -> GetView {
        match self.stage {
            GetStage::Asking { options } => {
                GetView::Asking { location: self.location@, options: options@ }
            },
            GetStage::Opening { meta, range } => {
                GetView::Opening { location: self.location@, meta: meta@, range }
            },
        }
    }
}

/// The start of a request.
pub open spec fn get_start(location: Seq<char>, options: GetOptionsView) -> GetView {
    GetView::Asking { location, options }
}

impl GetView {
    /// The call that the operation waits for.
    pub open spec fn request(self) -> RequestView {
        match self {
            GetView::Asking { location, .. } => {
                RequestView::GetFileInfo { path: absolute_file(location) }
            },
            GetView::Opening { location, .. } => {
                RequestView::Open { path: absolute_file(location) }
            },
        }
    }

    /// Where the operation stands after the answer to that call.
    pub open spec fn resume(self, reply: ReplyView) -> ProgressView<GetView, GetResultView> {
        match (self, reply) {
            (_, ReplyView::Failed(e)) => ProgressView::Ended(Err(object_store_err(e))),
            (GetView::Asking { location, options }, ReplyView::Status(status)) => {
                match served(location, options, status) {
                    Err(e) => ProgressView::Ended(Err(e)),
                    Ok((meta, range)) => if options.head {
                        ProgressView::Ended(Ok(GetResultView { meta, range, content: None }))
                    } else {
                        ProgressView::Pending(GetView::Opening { location, meta, range })
                    },
                }
            },
            (GetView::Opening { meta, range, .. }, _) => {
                let content = (range.start as usize, (range.end - range.start) as usize);
                ProgressView::Ended(Ok(GetResultView { meta, range, content: Some(content) }))
            },
            _ => arbitrary(),
        }
    }
}

impl GetOperation {
    /// The bytes of a file that is being opened can be addressed.
    #[verifier::type_invariant]
    spec fn well_formed(self) -> bool {
        self.stage matches GetStage::Opening { range, .. } ==> range.start <= range.end
            <= usize::MAX
    }

    /// Starts to serve a request.
    pub fn start(location: Path, options: GetOptions) -> (op: GetOperation)
        ensures
            op@ == get_start(location@, options@),
    {
        GetOperation { location, stage: GetStage::Asking { options } }
    }

    /// The call that the operation waits for.
    pub fn request(&self) -> (r: Request)
        ensures
            r@ == self@.request(),
    {
        let path: String = make_absolute_file(&self.location);
        match &self.stage {
            GetStage::Asking { .. } => Request::GetFileInfo { path },
            GetStage::Opening { .. } => Request::Open { path },
        }
    }

    /// Takes the answer to that call.
    pub fn resume(self, reply: Reply) -> (r: Progress<GetOperation, GetResult>)
        requires
            self@.request().answered_by(reply@),
        ensures
            r@ == self@.resume(reply@),
    {
        proof {
            use_type_invariant(&self);
        }
        let GetOperation { location, stage } = self;
        match (stage, reply) {
            (_, Reply::Failed(e)) => Progress::Ended(Err(store_error(e))),
            (GetStage::Asking { options }, Reply::Status(status)) => {
                match serve(&location, &options, &status) {
                    Err(e) => Progress::Ended(Err(e)),
                    Ok((meta, range)) => if options.head {
                        Progress::Ended(Ok(GetResult { meta, range, content: None }))
                    } else {
                        Progress::Pending(
                            GetOperation { location, stage: GetStage::Opening { meta, range } },
                        )
                    },
                }
            },
            (GetStage::Opening { meta, range }, _) => {
                let offset: usize = range.start as usize;
                let length: usize = (range.end - range.start) as usize;
                Progress::Ended(Ok(GetResult { meta, range, content: Some((offset, length)) }))
            },
            (GetStage::Asking { .. }, _) => vstd::pervasive::unreached(),
        }
    }
}

} // verus!
