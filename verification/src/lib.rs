//! Client-side protocol pipeline for a remote text-recognition service.
//!
//! A call normalizes an image, builds and serializes a request, hands it to
//! the caller to be posted, and turns the answer into plain text. The library
//! itself does no input or output: [`LensClient::process_image_bytes`] and
//! [`LensClient::send_request`] yield the request to post, and
//! [`LensClient::receive_reply`] takes what came back. The same call can be
//! taken stage by stage with [`call::Call`], which also takes the report
//! that no answer came.

use vstd::prelude::*;

pub mod constants;
pub mod error;
pub mod varint;
pub mod wire;
pub mod message;
pub mod member;
pub mod proto;
pub mod codec_request;
pub mod codec_response;
pub mod extract;
pub mod image_processor;
pub mod transport;
pub mod call;

use crate::constants::{
    DEFAULT_API_KEY, DEFAULT_CLIENT_REGION, DEFAULT_CLIENT_TIME_ZONE, DEFAULT_LANGUAGE,
};
use crate::error::{outcome_of, LensError, LensErrorView};
use crate::extract::extracted;
use crate::image_processor::{
    normalized, process_image_from_bytes, size_is_normal, source_size, ProcessedImage,
    ProcessedImageView,
};
use crate::message::{encoded, Message};
use crate::proto::{
    ImageData, ImageDataView, ImageMetadata, ImagePayload, ImagePayloadView,
    LensOverlayClientContext, LensOverlayClientContextView, LensOverlayObjectsRequest,
    LensOverlayObjectsRequestView, LensOverlayRequestContext, LensOverlayRequestContextView,
    LensOverlayRequestId, LensOverlayServerRequest, LensOverlayServerRequestView,
    LensOverlayServerResponse, LocaleContext, LocaleContextView, Platform, Surface,
};
use crate::transport::{
    interpret_reply, post_of, post_request, reply_outcome, status_is_success,
    valid_header_value, HttpRequest, HttpRequestView,
};
use vstd::utf8::{decode_utf8, valid_utf8};

verus! {

/// A client of the service. It holds the credential and nothing else: no
/// state of a call outlives the call.
pub struct LensClient {
    api_key: String,
}

/// The language that a request names: the one asked for, or the default.
pub open spec fn language_or_default(language: Option<Seq<char>>) -> Seq<char> {
    match language {
        Some(language) => language,
        None => DEFAULT_LANGUAGE@,
    }
}

/// The language that a request names: the one asked for, or the default.
pub open spec fn language_of(lang: Option<&str>) -> Seq<char> {
    language_or_default(
        match lang {
            Some(language) => Some(language@),
            None => None,
        },
    )
}

/// What comes of preparing a call for the image in `source`, for a client
/// with the credential `key`, where `request_id` is the identifier that was
/// drawn. The first failure decides, in the order decode, encode,
/// credential; otherwise the request to post carries the normalized image,
/// its size and the language.
pub open spec fn prepared(source: Seq<u8>, language: Seq<char>, key: Seq<char>, request_id: u64)
    -> Result<HttpRequestView, LensErrorView> {
    match normalized(source) {
        Ok(image) => posted(image, language, key, request_id),
        Err(error) => Err(error),
    }
}

/// What comes of making the request for a normalized image: a
/// configuration error where the credential cannot stand in a header, and
/// otherwise the request to post.
pub open spec fn posted(
    image: ProcessedImageView,
    language: Seq<char>,
    key: Seq<char>,
    request_id: u64,
) -> Result<HttpRequestView, LensErrorView> {
    if valid_header_value(key) {
        Ok(
            post_of(
                key,
                encoded(
                    request_model(image.bytes, image.width, image.height, language, request_id),
                ),
            ),
        )
    } else {
        Err(LensErrorView::Config)
    }
}

/// The model of the outcome of preparing a call.
pub open spec fn request_outcome(result: Result<HttpRequest, LensError>) -> Result<
    HttpRequestView,
    LensErrorView,
> {
    match result {
        Ok(request) => Ok(request@),
        Err(error) => Err(error@),
    }
}

/// The request for an image of the given encoded bytes and size, in the
/// given language, under the given identifier.
pub open spec fn request_model(
    image_bytes: Seq<u8>,
    width: i32,
    height: i32,
    language: Seq<char>,
    request_id: u64,
) -> LensOverlayServerRequestView {
    LensOverlayServerRequestView {
        objects_request: Some(
            LensOverlayObjectsRequestView {
                request_context: Some(
                    LensOverlayRequestContextView {
                        request_id: Some(
                            LensOverlayRequestId {
                                uuid: request_id,
                                sequence_id: 1,
                                image_sequence_id: 1,
                            },
                        ),
                        client_context: Some(
                            LensOverlayClientContextView {
                                platform: Platform::Web.number(),
                                surface: Surface::Chromium.number(),
                                locale_context: Some(
                                    LocaleContextView {
                                        language,
                                        region: DEFAULT_CLIENT_REGION@,
                                        time_zone: DEFAULT_CLIENT_TIME_ZONE@,
                                    },
                                ),
                            },
                        ),
                    },
                ),
                image_data: Some(
                    ImageDataView {
                        payload: Some(ImagePayloadView { image_bytes }),
                        image_metadata: Some(ImageMetadata { width, height }),
                    },
                ),
            },
        ),
    }
}

/// Draws the identifier of a request.
///
/// Trusted only to return: `rand::random` may yield any value.
#[verifier::external_body]
pub(crate) fn fresh_request_id() -> u64 {
    rand::random::<u64>()
}

/// Builds the request for a normalized image.
///
/// The identifier is the one given; both sequence numbers are 1; platform
/// and surface are fixed; region and time zone are the defaults; the language
/// is the one asked for, or the default. The image goes in as it is, and its
/// size is repeated in the metadata.
pub fn build_request(image: ProcessedImage, lang: Option<&str>, request_id: u64) -> (request:
    LensOverlayServerRequest)
    ensures
        request@ == request_model(
            image.bytes@,
            image.width,
            image.height,
            language_of(lang),
            request_id,
        ),
{
    let language: String = match lang {
        Some(language) => language.to_owned(),
        None => DEFAULT_LANGUAGE.to_owned(),
    };
    LensOverlayServerRequest {
        objects_request: Some(
            LensOverlayObjectsRequest {
                request_context: Some(
                    LensOverlayRequestContext {
                        request_id: Some(
                            LensOverlayRequestId {
                                uuid: request_id,
                                sequence_id: 1,
                                image_sequence_id: 1,
                            },
                        ),
                        client_context: Some(
                            LensOverlayClientContext {
                                platform: Platform::Web.as_i32(),
                                surface: Surface::Chromium.as_i32(),
                                locale_context: Some(
                                    LocaleContext {
                                        language,
                                        region: DEFAULT_CLIENT_REGION.to_owned(),
                                        time_zone: DEFAULT_CLIENT_TIME_ZONE.to_owned(),
                                    },
                                ),
                            },
                        ),
                    },
                ),
                image_data: Some(
                    ImageData {
                        payload: Some(ImagePayload { image_bytes: image.bytes }),
                        image_metadata: Some(
                            ImageMetadata { width: image.width, height: image.height },
                        ),
                    },
                ),
            },
        ),
    }
}

impl LensClient {
    /// The credential of this client.
    pub closed spec fn key(&self) -> Seq<char> {
        self.api_key@
    }

    /// A client with the given credential, or with the default one.
    pub fn new(api_key: Option<String>) -> (client: Self)
        ensures
            client.key() == match api_key {
                Some(key) => key@,
                None => DEFAULT_API_KEY@,
            },
    {
        let api_key: String = match api_key {
            Some(key) => key,
            None => DEFAULT_API_KEY.to_owned(),
        };
        LensClient { api_key }
    }

    /// The credential of this client.
    pub fn api_key(&self) -> (key: &str)
        ensures
            key@ == self.key(),
    {
        self.api_key.as_str()
    }

    /// The request to post for a normalized image, under a given identifier.
    ///
    /// Fails with [`LensError::Config`] exactly where the credential cannot
    /// be the value of a header. Otherwise the body is the serialized form of
    /// the request that [`build_request`] makes.
    pub fn request_with_id(&self, image: ProcessedImage, lang: Option<&str>, request_id: u64) -> (r:
        Result<HttpRequest, LensError>)
        ensures
            match r {
                Ok(request) => valid_header_value(self.key()) && request@ == post_of(
                    self.key(),
                    encoded(
                        request_model(
                            image.bytes@,
                            image.width,
                            image.height,
                            language_of(lang),
                            request_id,
                        ),
                    ),
                ),
                Err(e) => e is Config && !valid_header_value(self.key()),
            },
    {
        let message: LensOverlayServerRequest = build_request(image, lang, request_id);
        let body: Vec<u8> = message.encode_to_vec();
        post_request(self.api_key.as_str(), body)
    }

    /// The request to post for a normalized image, under a fresh identifier.
    ///
    /// Whatever identifier is drawn, the outcome is that of
    /// [`LensClient::request_with_id`] for it.
    pub fn send_request(&self, image: ProcessedImage, lang: Option<&str>) -> (r: Result<
        HttpRequest,
        LensError,
    >)
        ensures
            match r {
                Ok(request) => valid_header_value(self.key()) && exists|request_id: u64|
                    request@ == post_of(
                        self.key(),
                        #[trigger] encoded(
                            request_model(
                                image.bytes@,
                                image.width,
                                image.height,
                                language_of(lang),
                                request_id,
                            ),
                        ),
                    ),
                Err(e) => e is Config && !valid_header_value(self.key()),
            },
    {
        let request_id: u64 = fresh_request_id();
        self.request_with_id(image, lang, request_id)
    }

    /// Normalizes the image in `bytes` and makes the request to post for it.
    ///
    /// The first failure decides: bytes that are no image give
    /// [`LensError::ImageDecode`] whatever the credential; an image that
    /// cannot be written out gives [`LensError::ImageEncode`]; only then does
    /// a credential that cannot stand in a header give [`LensError::Config`].
    /// On success the request carries the normalized image, its size and the
    /// language. Whatever identifier is drawn, the outcome is what
    /// [`prepared`] says for it.
    ///
    /// The size that the request names is within the limit on both sides.
    /// An image that was within the limit keeps its size. One that was not
    /// has a side at the limit and keeps its proportions to within one
    /// pixel.
    pub fn process_image_bytes(&self, bytes: &[u8], lang: Option<&str>) -> (r: Result<
        HttpRequest,
        LensError,
    >)
        ensures
            exists|request_id: u64|
                request_outcome(r) == #[trigger] prepared(
                    bytes@,
                    language_of(lang),
                    self.key(),
                    request_id,
                ),
            source_size(bytes@, None) matches Some((w, h)) ==> size_is_normal(w, h),
    {
        let processed: ProcessedImage = match process_image_from_bytes(bytes) {
            Ok(processed) => processed,
            Err(error) => {
                assert(request_outcome(Err(error)) == prepared(
                    bytes@,
                    language_of(lang),
                    self.key(),
                    0,
                ));
                return Err(error);
            },
        };
        let request_id: u64 = fresh_request_id();
        let r = self.request_with_id(processed, lang, request_id);
        assert(request_outcome(r) == prepared(
            bytes@,
            language_of(lang),
            self.key(),
            request_id,
        ));
        r
    }

    /// Says what the answer to a posted request means.
    ///
    /// A status outside the success class gives [`LensError::Transport`] with
    /// that status and the body as text, whatever the body holds. Otherwise
    /// the body is decoded and the text extracted.
    pub fn receive_reply(&self, status: u16, body: &[u8]) -> (r: Result<String, LensError>)
        ensures
            outcome_of(r) == reply_outcome(status, body@),
            !status_is_success(status) && valid_utf8(body@) ==> (r matches Err(
                LensError::Transport { status: s, body: b },
            ) && s == status && b@ == decode_utf8(body@)),
    {
        interpret_reply(status, body)
    }

    /// Extracts the recognized text from a decoded response.
    pub fn extract_text(&self, response: LensOverlayServerResponse) -> (r: Result<
        String,
        LensError,
    >)
        ensures
            match r {
                Ok(text) => extracted(response@) == Some(text@) && text@.len() > 0,
                Err(e) => e is EmptyResult && extracted(response@) is None,
            },
    {
        crate::extract::extract_text(response)
    }
}

} // verus!
