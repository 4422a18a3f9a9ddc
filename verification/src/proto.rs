//! The messages of the protocol and their mathematical models.
//!
//! Every message is a plain value. A member that holds text, bytes or other
//! messages is modelled by its view: a `String` by its characters, a `Vec` by
//! the sequence of its elements, an optional member by an `Option`. A message
//! made of numbers alone is its own model.

use vstd::prelude::*;
use crate::member::{text_of, view_of, views, Float32};

verus! {

/// The kind of device a request comes from.
#[derive(Clone, Copy, Debug, PartialEq, Eq, Hash, PartialOrd, Ord, Structural)]
pub enum Platform {
    Unspecified,
    Web,
}

impl Platform {
    /// The number that stands for this platform on the wire.
    pub open spec fn number(self) -> i32 {
        match self {
            Platform::Unspecified => 0,
            Platform::Web => 3,
        }
    }

    /// The number that stands for this platform on the wire.
    pub fn as_i32(self) -> (n: i32)
        ensures
            n == self.number(),
    {
        match self {
            Platform::Unspecified => 0,
            Platform::Web => 3,
        }
    }

    /// The platform that `value` stands for, if any.
    pub fn from_i32(value: i32) -> (r: Option<Platform>)
        ensures
            match r {
                Some(p) => p.number() == value,
                None => value != 0 && value != 3,
            },
    {
        if value == 0 {
            Some(Platform::Unspecified)
        } else if value == 3 {
            Some(Platform::Web)
        } else {
            None
        }
    }
}

/// The user interface a request comes from.
#[derive(Clone, Copy, Debug, PartialEq, Eq, Hash, PartialOrd, Ord, Structural)]
pub enum Surface {
    Unspecified,
    Chromium,
}

impl Surface {
    /// The number that stands for this surface on the wire.
    pub open spec fn number(self) -> i32 {
        match self {
            Surface::Unspecified => 0,
            Surface::Chromium => 4,
        }
    }

    /// The number that stands for this surface on the wire.
    pub fn as_i32(self) -> (n: i32)
        ensures
            n == self.number(),
    {
        match self {
            Surface::Unspecified => 0,
            Surface::Chromium => 4,
        }
    }

    /// The surface that `value` stands for, if any.
    pub fn from_i32(value: i32) -> (r: Option<Surface>)
        ensures
            match r {
                Some(s) => s.number() == value,
                None => value != 0 && value != 4,
            },
    {
        if value == 0 {
            Some(Surface::Unspecified)
        } else if value == 4 {
            Some(Surface::Chromium)
        } else {
            None
        }
    }
}

/// How a translation ended.
#[derive(Clone, Copy, Debug, PartialEq, Eq, Hash, PartialOrd, Ord, Structural)]
pub enum TranslationStatus {
    Unknown,
    Success,
    ServerError,
}

impl TranslationStatus {
    /// The number that stands for this status on the wire.
    pub open spec fn number(self) -> i32 {
        match self {
            TranslationStatus::Unknown => 0,
            TranslationStatus::Success => 1,
            TranslationStatus::ServerError => 2,
        }
    }

    /// The number that stands for this status on the wire.
    pub fn as_i32(self) -> (n: i32)
        ensures
            n == self.number(),
    {
        match self {
            TranslationStatus::Unknown => 0,
            TranslationStatus::Success => 1,
            TranslationStatus::ServerError => 2,
        }
    }

    /// The status that `value` stands for, if any.
    pub fn from_i32(value: i32) -> (r: Option<TranslationStatus>)
        ensures
            match r {
                Some(s) => s.number() == value,
                None => value < 0 || value > 2,
            },
    {
        if value == 0 {
            Some(TranslationStatus::Unknown)
        } else if value == 1 {
            Some(TranslationStatus::Success)
        } else if value == 2 {
            Some(TranslationStatus::ServerError)
        } else {
            None
        }
    }
}

/// The request as it is sent to the service.
#[derive(Clone, Debug, PartialEq)]
pub struct LensOverlayServerRequest {
    pub objects_request: Option<LensOverlayObjectsRequest>,
}

/// Model of [`LensOverlayServerRequest`].
pub ghost struct LensOverlayServerRequestView {
    pub objects_request: Option<LensOverlayObjectsRequestView>,
}

impl View for LensOverlayServerRequest {
    type V = LensOverlayServerRequestView;

    open spec fn view(&self) -> Self::V {
        LensOverlayServerRequestView { objects_request: view_of(self.objects_request) }
    }
}

/// What is asked about one image: who asks, and the image itself.
#[derive(Clone, Debug, PartialEq)]
pub struct LensOverlayObjectsRequest {
    pub request_context: Option<LensOverlayRequestContext>,
    pub image_data: Option<ImageData>,
}

/// Model of [`LensOverlayObjectsRequest`].
pub ghost struct LensOverlayObjectsRequestView {
    pub request_context: Option<LensOverlayRequestContextView>,
    pub image_data: Option<ImageDataView>,
}

impl View for LensOverlayObjectsRequest {
    type V = LensOverlayObjectsRequestView;

    open spec fn view(&self) -> Self::V {
        LensOverlayObjectsRequestView {
            request_context: view_of(self.request_context),
            image_data: view_of(self.image_data),
        }
    }
}

/// Identity of a request and of the client that makes it.
#[derive(Clone, Debug, PartialEq)]
pub struct LensOverlayRequestContext {
    pub request_id: Option<LensOverlayRequestId>,
    pub client_context: Option<LensOverlayClientContext>,
}

/// Model of [`LensOverlayRequestContext`].
pub ghost struct LensOverlayRequestContextView {
    pub request_id: Option<LensOverlayRequestId>,
    pub client_context: Option<LensOverlayClientContextView>,
}

impl View for LensOverlayRequestContext {
    type V = LensOverlayRequestContextView;

    open spec fn view(&self) -> Self::V {
        LensOverlayRequestContextView {
            request_id: self.request_id,
            client_context: view_of(self.client_context),
        }
    }
}

/// Identifier of a request and its place in a sequence of requests.
#[derive(Clone, Copy, Debug, PartialEq, Eq)]
pub struct LensOverlayRequestId {
    pub uuid: u64,
    pub sequence_id: i32,
    pub image_sequence_id: i32,
}

impl View for LensOverlayRequestId {
    type V = LensOverlayRequestId;

    open spec fn view(&self) -> Self::V {
        *self
    }
}

/// Platform, surface and locale of the client.
#[derive(Clone, Debug, PartialEq)]
pub struct LensOverlayClientContext {
    pub platform: i32,
    pub surface: i32,
    pub locale_context: Option<LocaleContext>,
}

/// Model of [`LensOverlayClientContext`].
pub ghost struct LensOverlayClientContextView {
    pub platform: i32,
    pub surface: i32,
    pub locale_context: Option<LocaleContextView>,
}

impl View for LensOverlayClientContext {
    type V = LensOverlayClientContextView;

    open spec fn view(&self) -> Self::V {
        LensOverlayClientContextView {
            platform: self.platform,
            surface: self.surface,
            locale_context: view_of(self.locale_context),
        }
    }
}

/// Language, region and time zone of the client.
#[derive(Clone, Debug, PartialEq)]
pub struct LocaleContext {
    pub language: String,
    pub region: String,
    pub time_zone: String,
}

/// Model of [`LocaleContext`].
pub ghost struct LocaleContextView {
    pub language: Seq<char>,
    pub region: Seq<char>,
    pub time_zone: Seq<char>,
}

impl View for LocaleContext {
    type V = LocaleContextView;

    open spec fn view(&self) -> Self::V {
        LocaleContextView {
            language: self.language@,
            region: self.region@,
            time_zone: self.time_zone@,
        }
    }
}

/// An image and what is known about it.
#[derive(Clone, Debug, PartialEq)]
pub struct ImageData {
    pub payload: Option<ImagePayload>,
    pub image_metadata: Option<ImageMetadata>,
}

/// Model of [`ImageData`].
pub ghost struct ImageDataView {
    pub payload: Option<ImagePayloadView>,
    pub image_metadata: Option<ImageMetadata>,
}

impl View for ImageData {
    type V = ImageDataView;

    open spec fn view(&self) -> Self::V {
        ImageDataView { payload: view_of(self.payload), image_metadata: self.image_metadata }
    }
}

/// The encoded bytes of an image.
#[derive(Clone, Debug, PartialEq)]
pub struct ImagePayload {
    pub image_bytes: Vec<u8>,
}

/// Model of [`ImagePayload`].
pub ghost struct ImagePayloadView {
    pub image_bytes: Seq<u8>,
}

impl View for ImagePayload {
    type V = ImagePayloadView;

    open spec fn view(&self) -> Self::V {
        ImagePayloadView { image_bytes: self.image_bytes@ }
    }
}

/// Width and height of an image, in pixels.
#[derive(Clone, Copy, Debug, PartialEq, Eq)]
pub struct ImageMetadata {
    pub width: i32,
    pub height: i32,
}

impl View for ImageMetadata {
    type V = ImageMetadata;

    open spec fn view(&self) -> Self::V {
        *self
    }
}

/// The answer of the service.
#[derive(Clone, Debug, PartialEq)]
pub struct LensOverlayServerResponse {
    pub objects_response: Option<LensOverlayObjectsResponse>,
}

/// Model of [`LensOverlayServerResponse`].
pub ghost struct LensOverlayServerResponseView {
    pub objects_response: Option<LensOverlayObjectsResponseView>,
}

impl View for LensOverlayServerResponse {
    type V = LensOverlayServerResponseView;

    open spec fn view(&self) -> Self::V {
        LensOverlayServerResponseView { objects_response: view_of(self.objects_response) }
    }
}

/// What the service found in an image: text, and data attached to it.
#[derive(Clone, Debug, PartialEq)]
pub struct LensOverlayObjectsResponse {
    pub text: Option<Text>,
    pub deep_gleams: Vec<DeepGleamData>,
}

/// Model of [`LensOverlayObjectsResponse`].
pub ghost struct LensOverlayObjectsResponseView {
    pub text: Option<TextView>,
    pub deep_gleams: Seq<DeepGleamDataView>,
}

impl View for LensOverlayObjectsResponse {
    type V = LensOverlayObjectsResponseView;

    open spec fn view(&self) -> Self::V {
        LensOverlayObjectsResponseView {
            text: view_of(self.text),
            deep_gleams: views(self.deep_gleams@),
        }
    }
}

/// Data attached to recognized text; here, a translation.
#[derive(Clone, Debug, PartialEq)]
pub struct DeepGleamData {
    pub translation: Option<TranslationData>,
}

/// Model of [`DeepGleamData`].
pub ghost struct DeepGleamDataView {
    pub translation: Option<TranslationDataView>,
}

impl View for DeepGleamData {
    type V = DeepGleamDataView;

    open spec fn view(&self) -> Self::V {
        DeepGleamDataView { translation: view_of(self.translation) }
    }
}

/// A translation and how it ended.
#[derive(Clone, Debug, PartialEq)]
pub struct TranslationData {
    pub status: Option<TranslationStatusMsg>,
    pub translation: String,
}

/// Model of [`TranslationData`].
pub ghost struct TranslationDataView {
    pub status: Option<TranslationStatusMsg>,
    pub translation: Seq<char>,
}

impl View for TranslationData {
    type V = TranslationDataView;

    open spec fn view(&self) -> Self::V {
        TranslationDataView { status: self.status, translation: self.translation@ }
    }
}

/// The status code of a translation.
#[derive(Clone, Copy, Debug, PartialEq, Eq)]
pub struct TranslationStatusMsg {
    pub code: i32,
}

impl View for TranslationStatusMsg {
    type V = TranslationStatusMsg;

    open spec fn view(&self) -> Self::V {
        *self
    }
}

/// Recognized text: its layout and its language.
#[derive(Clone, Debug, PartialEq)]
pub struct Text {
    pub text_layout: Option<TextLayout>,
    pub content_language: String,
}

/// Model of [`Text`].
pub ghost struct TextView {
    pub text_layout: Option<TextLayoutView>,
    pub content_language: Seq<char>,
}

impl View for Text {
    type V = TextView;

    open spec fn view(&self) -> Self::V {
        TextView {
            text_layout: view_of(self.text_layout),
            content_language: self.content_language@,
        }
    }
}

/// The paragraphs of recognized text, in document order.
#[derive(Clone, Debug, PartialEq)]
pub struct TextLayout {
    pub paragraphs: Vec<TextLayoutParagraph>,
}

/// Model of [`TextLayout`].
pub ghost struct TextLayoutView {
    pub paragraphs: Seq<TextLayoutParagraphView>,
}

impl View for TextLayout {
    type V = TextLayoutView;

    open spec fn view(&self) -> Self::V {
        TextLayoutView { paragraphs: views(self.paragraphs@) }
    }
}

/// A paragraph: its lines, in order, and where it lies.
#[derive(Clone, Debug, PartialEq)]
pub struct TextLayoutParagraph {
    pub lines: Vec<TextLayoutLine>,
    pub geometry: Option<Geometry>,
}

/// Model of [`TextLayoutParagraph`].
pub ghost struct TextLayoutParagraphView {
    pub lines: Seq<TextLayoutLineView>,
    pub geometry: Option<Geometry>,
}

impl View for TextLayoutParagraph {
    type V = TextLayoutParagraphView;

    open spec fn view(&self) -> Self::V {
        TextLayoutParagraphView { lines: views(self.lines@), geometry: self.geometry }
    }
}

/// A line: its words, in order, and where it lies.
#[derive(Clone, Debug, PartialEq)]
pub struct TextLayoutLine {
    pub words: Vec<TextLayoutWord>,
    pub geometry: Option<Geometry>,
}

/// Model of [`TextLayoutLine`].
pub ghost struct TextLayoutLineView {
    pub words: Seq<TextLayoutWordView>,
    pub geometry: Option<Geometry>,
}

impl View for TextLayoutLine {
    type V = TextLayoutLineView;

    open spec fn view(&self) -> Self::V {
        TextLayoutLineView { words: views(self.words@), geometry: self.geometry }
    }
}

/// A word: its text, what separates it from the next word, and where it
/// lies.
#[derive(Clone, Debug, PartialEq)]
pub struct TextLayoutWord {
    pub plain_text: String,
    pub text_separator: Option<String>,
    pub geometry: Option<Geometry>,
}

/// Model of [`TextLayoutWord`].
pub ghost struct TextLayoutWordView {
    pub plain_text: Seq<char>,
    pub text_separator: Option<Seq<char>>,
    pub geometry: Option<Geometry>,
}

impl View for TextLayoutWord {
    type V = TextLayoutWordView;

    open spec fn view(&self) -> Self::V {
        TextLayoutWordView {
            plain_text: self.plain_text@,
            text_separator: text_of(self.text_separator),
            geometry: self.geometry,
        }
    }
}

/// Where a piece of text lies in the image.
#[derive(Clone, Copy, Debug, PartialEq, Eq)]
pub struct Geometry {
    pub bounding_box: Option<CenterRotatedBox>,
}

impl View for Geometry {
    type V = Geometry;

    open spec fn view(&self) -> Self::V {
        *self
    }
}

/// A box given by its centre, its size and its rotation.
#[derive(Clone, Copy, Debug, PartialEq, Eq)]
pub struct CenterRotatedBox {
    pub center_x: Float32,
    pub center_y: Float32,
    pub width: Float32,
    pub height: Float32,
    pub rotation_z: Float32,
}

impl View for CenterRotatedBox {
    type V = CenterRotatedBox;

    open spec fn view(&self) -> Self::V {
        *self
    }
}

} // verus!
