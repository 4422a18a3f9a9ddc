//! One call, stage by stage.
//!
//! A call passes through its stages in a fixed order: the image is
//! normalized, the request built, then encoded, then sent; the answer is
//! decoded and its text extracted. Every stage can fail, which ends the call;
//! no stage is entered twice. The library does the work of every stage but
//! one: while a call is being sent it waits for the caller to post the request
//! and to deliver the answer, or to report that none came.

use vstd::prelude::*;
use crate::error::{LensError, LensErrorView};
use crate::extract::{extract_text, extracted};
use crate::image_processor::{
    normalized, process_image_from_bytes, ProcessedImage, ProcessedImageView,
};
use crate::message::{decoded, encoded, Message};
use crate::proto::{
    LensOverlayServerRequest, LensOverlayServerRequestView, LensOverlayServerResponse,
    LensOverlayServerResponseView,
};
use crate::member::text_of;
use crate::transport::{
    failed_exchange, is_success, lossy_text, post_of, post_request, status_is_success,
    valid_header_value, HttpRequest, HttpRequestView,
};
use crate::{
    build_request, fresh_request_id, language_or_default, posted, prepared, request_model,
    LensClient,
};

verus! {

/// A call and what it holds at its stage.
#[derive(Clone, Debug, PartialEq)]
pub enum Call {
    /// Nothing was asked yet.
    Idle,
    /// The image is about to be normalized.
    Normalizing { source: Vec<u8>, language: Option<String> },
    /// The request is about to be built around the normalized image.
    Building { image: ProcessedImage, language: Option<String> },
    /// The request is about to be serialized.
    Encoding { message: LensOverlayServerRequest },
    /// The request is ready; the call waits for the answer.
    Sending { request: HttpRequest },
    /// The answer is about to be decoded.
    Decoding { body: Vec<u8> },
    /// The text is about to be extracted from the decoded answer.
    Extracting { response: LensOverlayServerResponse },
    /// The call ended with text.
    Done { text: String },
    /// The call ended with an error.
    Failed { error: LensError },
}

/// Model of [`Call`].
pub ghost enum CallView {
    Idle,
    Normalizing { source: Seq<u8>, language: Option<Seq<char>> },
    Building { image: ProcessedImageView, language: Option<Seq<char>> },
    Encoding { message: LensOverlayServerRequestView },
    Sending { request: HttpRequestView },
    Decoding { body: Seq<u8> },
    Extracting { response: LensOverlayServerResponseView },
    Done { text: Seq<char> },
    Failed { error: LensErrorView },
}

impl View for Call {
    type V = CallView;

    open spec fn view(&self) -> CallView {
        match *self {
            Call::Idle => CallView::Idle,
            Call::Normalizing { source, language } => CallView::Normalizing {
                source: source@,
                language: text_of(language),
            },
            Call::Building { image, language } => CallView::Building {
                image: image@,
                language: text_of(language),
            },
            Call::Encoding { message } => CallView::Encoding { message: message@ },
            Call::Sending { request } => CallView::Sending { request: request@ },
            Call::Decoding { body } => CallView::Decoding { body: body@ },
            Call::Extracting { response } => CallView::Extracting { response: response@ },
            Call::Done { text } => CallView::Done { text: text@ },
            Call::Failed { error } => CallView::Failed { error: error@ },
        }
    }
}

impl CallView {
    /// How far a call has come. Both ends of a call count as the last stage.
    pub open spec fn rank(self) -> nat {
        match self {
            CallView::Idle => 0,
            CallView::Normalizing { .. } => 1,
            CallView::Building { .. } => 2,
            CallView::Encoding { .. } => 3,
            CallView::Sending { .. } => 4,
            CallView::Decoding { .. } => 5,
            CallView::Extracting { .. } => 6,
            CallView::Done { .. } => 7,
            CallView::Failed { .. } => 7,
        }
    }

    /// Whether the call is at a stage whose work the library does.
    pub open spec fn working(self) -> bool {
        self is Normalizing || self is Building || self is Encoding || self is Decoding
            || self is Extracting
    }

    /// Whether the call has ended.
    pub open spec fn finished(self) -> bool {
        self is Done || self is Failed
    }

    /// The call after an image was submitted: an idle call starts, any other
    /// stays as it is.
    pub open spec fn submitted(self, source: Seq<u8>, language: Option<Seq<char>>) -> CallView {
        match self {
            CallView::Idle => CallView::Normalizing { source, language },
            _ => self,
        }
    }

    /// The call after an image was submitted that is normalized already: an
    /// idle call starts at the building of the request, any other stays as
    /// it is.
    pub open spec fn submitted_image(self, image: ProcessedImageView, language: Option<Seq<char>>)
        -> CallView {
        match self {
            CallView::Idle => CallView::Building { image, language },
            _ => self,
        }
    }

    /// The call after the work of its stage was done, for a client with the
    /// credential `key`, where `request_id` is the identifier that was
    /// drawn. A call that waits or has ended stays as it is.
    pub open spec fn advanced(self, key: Seq<char>, request_id: u64) -> CallView {
        match self {
            CallView::Normalizing { source, language } => match normalized(source) {
                Ok(image) => CallView::Building { image, language },
                Err(error) => CallView::Failed { error },
            },
            CallView::Building { image, language } => CallView::Encoding {
                message: request_model(
                    image.bytes,
                    image.width,
                    image.height,
                    language_or_default(language),
                    request_id,
                ),
            },
            CallView::Encoding { message } => if valid_header_value(key) {
                CallView::Sending { request: post_of(key, encoded(message)) }
            } else {
                CallView::Failed { error: LensErrorView::Config }
            },
            CallView::Decoding { body } => match decoded::<LensOverlayServerResponseView>(body) {
                Some(response) => CallView::Extracting { response },
                None => CallView::Failed { error: LensErrorView::WireDecode },
            },
            CallView::Extracting { response } => match extracted(response) {
                Some(text) => CallView::Done { text },
                None => CallView::Failed { error: LensErrorView::EmptyResult },
            },
            _ => self,
        }
    }

    /// The call after an answer was delivered: a call that was being sent
    /// goes on to decode the body of a success and fails on any other
    /// status; a call at any other stage stays as it is.
    pub open spec fn delivered(self, status: u16, body: Seq<u8>) -> CallView {
        match self {
            CallView::Sending { .. } => if status_is_success(status) {
                CallView::Decoding { body }
            } else {
                CallView::Failed {
                    error: LensErrorView::Transport { status, body: lossy_text(body) },
                }
            },
            _ => self,
        }
    }

    /// The call after the caller reported that no answer came: a call that
    /// was being sent fails for the reason given; a call at any other stage
    /// stays as it is.
    pub open spec fn lost(self, reason: Seq<char>) -> CallView {
        match self {
            CallView::Sending { .. } => CallView::Failed {
                error: LensErrorView::Network { reason },
            },
            _ => self,
        }
    }

    /// The call after all the work was done that can be done without the
    /// caller: three stages at most lie between two waits.
    pub open spec fn settled(self, key: Seq<char>, request_id: u64) -> CallView {
        self.advanced(key, request_id).advanced(key, request_id).advanced(key, request_id)
    }
}

impl Call {
    /// A call that has not started.
    pub fn new() -> (call: Call)
        ensures
            call@ == CallView::Idle,
    {
        Call::Idle
    }

    /// Submits an image, with the language to ask for. Only an idle call
    /// takes it.
    pub fn submit(self, source: Vec<u8>, language: Option<String>) -> (next: Call)
        ensures
            next@ == self@.submitted(source@, text_of(language)),
    {
        match self {
            Call::Idle => Call::Normalizing { source, language },
            other => other,
        }
    }

    /// Submits an image that is normalized already, with the language to
    /// ask for. Only an idle call takes it.
    pub fn submit_image(self, image: ProcessedImage, language: Option<String>) -> (next: Call)
        ensures
            next@ == self@.submitted_image(image@, text_of(language)),
    {
        match self {
            Call::Idle => Call::Building { image, language },
            other => other,
        }
    }

    /// Reports that the request of a call that is being sent got no answer:
    /// the service was not reached, or the time allowed ran out.
    pub fn lose(self, reason: String) -> (next: Call)
        ensures
            next@ == self@.lost(reason@),
    {
        match self {
            Call::Sending { .. } => Call::Failed { error: LensError::Network { reason } },
            other => other,
        }
    }

    /// Delivers the answer to the request of a call that is being sent.
    pub fn deliver(self, status: u16, body: Vec<u8>) -> (next: Call)
        ensures
            next@ == self@.delivered(status, body@),
    {
        match self {
            Call::Sending { .. } => {
                if is_success(status) {
                    Call::Decoding { body }
                } else {
                    Call::Failed { error: failed_exchange(status, body.as_slice()) }
                }
            },
            other => other,
        }
    }

    /// Whether the library can go on with this call.
    pub fn is_working(&self) -> (b: bool)
        ensures
            b == self@.working(),
    {
        match self {
            Call::Normalizing { .. } => true,
            Call::Building { .. } => true,
            Call::Encoding { .. } => true,
            Call::Decoding { .. } => true,
            Call::Extracting { .. } => true,
            _ => false,
        }
    }

    /// Whether this call has ended.
    pub fn is_finished(&self) -> (b: bool)
        ensures
            b == self@.finished(),
    {
        match self {
            Call::Done { .. } => true,
            Call::Failed { .. } => true,
            _ => false,
        }
    }
}

impl LensClient {
    /// Does the work of the stage that a call is at and moves it to the
    /// next stage, or to its failure. A call that waits or has ended is
    /// handed back as it is.
    ///
    /// Whatever identifier is drawn, the next stage is the one that
    /// [`CallView::advanced`] names for it.
    pub fn advance(&self, call: Call) -> (next: Call)
        ensures
            exists|request_id: u64| next@ == #[trigger] call@.advanced(self.key(), request_id),
    {
        match call {
            Call::Normalizing { source, language } => {
                let next = match process_image_from_bytes(source.as_slice()) {
                    Ok(image) => Call::Building { image, language },
                    Err(error) => Call::Failed { error },
                };
                assert(next@ == call@.advanced(self.key(), 0));
                next
            },
            Call::Building { image, language } => {
                let request_id: u64 = fresh_request_id();
                let message = match &language {
                    Some(text) => build_request(image, Some(text.as_str()), request_id),
                    None => build_request(image, None, request_id),
                };
                let next = Call::Encoding { message };
                assert(next@ == call@.advanced(self.key(), request_id));
                next
            },
            Call::Encoding { message } => {
                let body: Vec<u8> = message.encode_to_vec();
                let next = match post_request(self.api_key(), body) {
                    Ok(request) => Call::Sending { request },
                    Err(error) => Call::Failed { error },
                };
                assert(next@ == call@.advanced(self.key(), 0));
                next
            },
            Call::Decoding { body } => {
                let next = match LensOverlayServerResponse::decode(body.as_slice()) {
                    Ok(response) => Call::Extracting { response },
                    Err(_) => Call::Failed { error: LensError::WireDecode },
                };
                assert(next@ == call@.advanced(self.key(), 0));
                next
            },
            Call::Extracting { response } => {
                let next = match extract_text(response) {
                    Ok(text) => Call::Done { text },
                    Err(error) => Call::Failed { error },
                };
                assert(next@ == call@.advanced(self.key(), 0));
                next
            },
            other => {
                assert(other@ == call@.advanced(self.key(), 0));
                other
            },
        }
    }

    /// Goes on with a call until it waits for the caller or has ended.
    ///
    /// Whatever identifier is drawn, the call ends up where
    /// [`CallView::settled`] says for it.
    pub fn settle(&self, call: Call) -> (next: Call)
        ensures
            exists|request_id: u64| next@ == #[trigger] call@.settled(self.key(), request_id),
            !next@.working(),
    {
        let first = self.advance(call);
        let second = self.advance(first);
        let third = self.advance(second);
        proof {
            let key = self.key();
            let id1 = choose|request_id: u64| first@ == #[trigger] call@.advanced(key, request_id);
            let id2 = choose|request_id: u64|
                second@ == #[trigger] first@.advanced(key, request_id);
            let id3 = choose|request_id: u64|
                third@ == #[trigger] second@.advanced(key, request_id);
            let request_id = if call@ is Building {
                id1
            } else {
                id2
            };
            assert(first@ == call@.advanced(key, request_id));
            assert(second@ == first@.advanced(key, request_id));
            assert(third@ == second@.advanced(key, request_id));
            assert(third@ == call@.settled(key, request_id));
        }
        third
    }
}

/// A call moves forward only: the work of a stage takes a call to a later
/// stage or to its end, and a call that waits or has ended stays where it
/// is.
pub proof fn lemma_advance_moves_forward(call: CallView, key: Seq<char>, request_id: u64)
    ensures
        call.working() ==> call.rank() < call.advanced(key, request_id).rank(),
        !call.working() ==> call.advanced(key, request_id) == call,
        call.advanced(key, request_id).rank() <= 7,
{
}

/// What the caller reports moves a call forward only, and only a call that
/// was being sent: an answer takes it on or ends it, the lack of one ends
/// it.
pub proof fn lemma_deliver_moves_forward(
    call: CallView,
    status: u16,
    body: Seq<u8>,
    reason: Seq<char>,
)
    ensures
        call is Sending ==> call.rank() < call.delivered(status, body).rank(),
        call is Sending ==> call.lost(reason) == (CallView::Failed {
            error: LensErrorView::Network { reason },
        }),
        !(call is Sending) ==> call.delivered(status, body) == call && call.lost(reason) == call,
{
}

/// A call that has ended stays as it ended, whatever is done with it.
pub proof fn lemma_finished_stays(
    call: CallView,
    key: Seq<char>,
    request_id: u64,
    source: Seq<u8>,
    image: ProcessedImageView,
    language: Option<Seq<char>>,
    status: u16,
    body: Seq<u8>,
    reason: Seq<char>,
)
    requires
        call.finished(),
    ensures
        call.advanced(key, request_id) == call,
        call.submitted(source, language) == call,
        call.submitted_image(image, language) == call,
        call.delivered(status, body) == call,
        call.lost(reason) == call,
{
}

/// After the work that can be done without the caller, a call waits or has
/// ended.
pub proof fn lemma_settled_waits(call: CallView, key: Seq<char>, request_id: u64)
    ensures
        !call.settled(key, request_id).working(),
{
}

/// The stages from the delivery of an answer to the end of the call amount
/// to what the answer means: the text, or the error that stands for it.
pub proof fn lemma_answer_through_the_stages(
    request: HttpRequestView,
    key: Seq<char>,
    status: u16,
    body: Seq<u8>,
    request_id: u64,
)
    ensures
        (CallView::Sending { request }).delivered(status, body).settled(key, request_id)
            == match crate::transport::reply_outcome(status, body) {
            Ok(text) => CallView::Done { text },
            Err(error) => CallView::Failed { error },
        },
{
}

/// The stages from the submission of an image to the wait for the answer
/// amount to preparing the call in one go: the first failure ends the call,
/// and otherwise the request that is ready is the one to post.
pub proof fn lemma_image_through_the_stages(
    source: Seq<u8>,
    language: Option<Seq<char>>,
    key: Seq<char>,
    request_id: u64,
)
    ensures
        CallView::Idle.submitted(source, language).settled(key, request_id) == match prepared(
            source,
            language_or_default(language),
            key,
            request_id,
        ) {
            Ok(request) => CallView::Sending { request },
            Err(error) => CallView::Failed { error },
        },
{
}

/// The stages from the submission of a normalized image to the wait for the
/// answer amount to making the request for it.
pub proof fn lemma_normalized_image_through_the_stages(
    image: ProcessedImageView,
    language: Option<Seq<char>>,
    key: Seq<char>,
    request_id: u64,
)
    ensures
        CallView::Idle.submitted_image(image, language).settled(key, request_id) == match posted(
            image,
            language_or_default(language),
            key,
            request_id,
        ) {
            Ok(request) => CallView::Sending { request },
            Err(error) => CallView::Failed { error },
        },
{
}

} // verus!
