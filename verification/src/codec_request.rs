//! Wire form of the request messages.

use vstd::prelude::*;
use crate::message::{
    decoded, encoded, lemma_decode_encode, lemma_merge_fields_concat, merge_fields, Message,
    WireLaws, WireModel,
};
use crate::proto::{
    ImageData, ImageDataView, ImageMetadata, ImagePayload, ImagePayloadView,
    LensOverlayClientContext, LensOverlayClientContextView, LensOverlayObjectsRequest,
    LensOverlayObjectsRequestView, LensOverlayRequestContext, LensOverlayRequestContextView,
    LensOverlayRequestId, LensOverlayServerRequest, LensOverlayServerRequestView, LocaleContext,
    LocaleContextView,
};
use crate::member::{
    bytes_fields, int32_fields, lemma_int32_reads_back, lemma_merge_short,
    lemma_message_reads_back, lemma_parts_within, lemma_string_reads_back, lemma_written_start,
    message_fields, put_bytes_member, put_int32, put_message, put_string, put_uint64,
    read_bytes, read_int32, read_optional, read_string, read_uint64, skip_unknown, skipped,
    string_fields, take_bytes, take_int32, take_optional, take_string, take_uint64,
    uint64_fields,
};
use crate::wire::{DecodeError, Field, FieldRef};

verus! {

impl WireModel for LocaleContextView {
    open spec fn blank() -> Self {
        LocaleContextView {
            language: Seq::empty(),
            region: Seq::empty(),
            time_zone: Seq::empty(),
        }
    }

    open spec fn fields(self) -> Seq<Field> {
        string_fields(1, self.language) + string_fields(2, self.region) + string_fields(
            3,
            self.time_zone,
        )
    }

    open spec fn merge_field(self, field: Field, budget: nat) -> Option<Self> {
        if field.number == 1 {
            match read_string(field.payload) {
                Some(language) => Some(LocaleContextView { language, ..self }),
                None => None,
            }
        } else if field.number == 2 {
            match read_string(field.payload) {
                Some(region) => Some(LocaleContextView { region, ..self }),
                None => None,
            }
        } else if field.number == 3 {
            match read_string(field.payload) {
                Some(time_zone) => Some(LocaleContextView { time_zone, ..self }),
                None => None,
            }
        } else {
            skipped(self, budget)
        }
    }

    open spec fn depth() -> nat {
        0
    }

    open spec fn canonical(self) -> Self {
        self
    }

    open spec fn exact(self) -> bool {
        true
    }
}

impl WireLaws for LocaleContextView {
    proof fn lemma_depth_fits() {
    }

    proof fn lemma_exact_is_canonical(self) {
    }

    proof fn lemma_fields_round_trip(self, budget: nat) {
        let f1 = string_fields(1, self.language);
        let f2 = string_fields(2, self.region);
        let f3 = string_fields(3, self.time_zone);
        let a0 = Self::blank();
        let a1 = LocaleContextView { language: self.language, ..a0 };
        let a2 = LocaleContextView { region: self.region, ..a1 };
        assert(merge_fields(a0, f1, budget) == Some(a1)) by {
            lemma_merge_short(a0, f1, budget);
            lemma_string_reads_back(self.language);
            assert(self.language.len() == 0 ==> self.language =~= Seq::<char>::empty());
        }
        assert(merge_fields(a1, f2, budget) == Some(a2)) by {
            lemma_merge_short(a1, f2, budget);
            lemma_string_reads_back(self.region);
            assert(self.region.len() == 0 ==> self.region =~= Seq::<char>::empty());
        }
        assert(merge_fields(a2, f3, budget) == Some(self)) by {
            lemma_merge_short(a2, f3, budget);
            lemma_string_reads_back(self.time_zone);
            assert(self.time_zone.len() == 0 ==> self.time_zone =~= Seq::<char>::empty());
        }
        lemma_merge_fields_concat(a0, f1, f2, budget);
        lemma_merge_fields_concat(a0, f1 + f2, f3, budget);
    }
}

impl Message for LocaleContext {
    fn empty() -> Self {
        LocaleContext { language: String::new(), region: String::new(), time_zone: String::new() }
    }

    fn encode_raw(&self, out: &mut Vec<u8>) {
        let ghost base = out@;
        let ghost f1 = string_fields(1, self.language@);
        let ghost f2 = string_fields(2, self.region@);
        proof {
            lemma_written_start(out@);
        }
        put_string(out, 1, self.language.as_str(), Ghost(base), Ghost(Seq::empty()));
        put_string(out, 2, self.region.as_str(), Ghost(base), Ghost(Seq::empty() + f1));
        put_string(out, 3, self.time_zone.as_str(), Ghost(base), Ghost(Seq::empty() + f1 + f2));
        assert(Seq::empty() + f1 + f2 + string_fields(3, self.time_zone@) =~= self@.fields());
    }

    fn merge_field(self, field: FieldRef<'_>, budget: u32) -> Result<Self, DecodeError> {
        let mut message = self;
        if field.number == 1 {
            message.language = take_string(field.payload)?;
        } else if field.number == 2 {
            message.region = take_string(field.payload)?;
        } else if field.number == 3 {
            message.time_zone = take_string(field.payload)?;
        } else {
            skip_unknown(budget)?;
        }
        Ok(message)
    }
}

impl WireModel for LensOverlayRequestId {
    open spec fn blank() -> Self {
        LensOverlayRequestId { uuid: 0, sequence_id: 0, image_sequence_id: 0 }
    }

    open spec fn fields(self) -> Seq<Field> {
        uint64_fields(1, self.uuid) + int32_fields(2, self.sequence_id) + int32_fields(
            3,
            self.image_sequence_id,
        )
    }

    open spec fn merge_field(self, field: Field, budget: nat) -> Option<Self> {
        if field.number == 1 {
            match read_uint64(field.payload) {
                Some(uuid) => Some(LensOverlayRequestId { uuid, ..self }),
                None => None,
            }
        } else if field.number == 2 {
            match read_int32(field.payload) {
                Some(sequence_id) => Some(LensOverlayRequestId { sequence_id, ..self }),
                None => None,
            }
        } else if field.number == 3 {
            match read_int32(field.payload) {
                Some(image_sequence_id) => Some(
                    LensOverlayRequestId { image_sequence_id, ..self },
                ),
                None => None,
            }
        } else {
            skipped(self, budget)
        }
    }

    open spec fn depth() -> nat {
        0
    }

    open spec fn canonical(self) -> Self {
        self
    }

    open spec fn exact(self) -> bool {
        true
    }
}

impl WireLaws for LensOverlayRequestId {
    proof fn lemma_depth_fits() {
    }

    proof fn lemma_exact_is_canonical(self) {
    }

    proof fn lemma_fields_round_trip(self, budget: nat) {
        let f1 = uint64_fields(1, self.uuid);
        let f2 = int32_fields(2, self.sequence_id);
        let f3 = int32_fields(3, self.image_sequence_id);
        let a0 = Self::blank();
        let a1 = LensOverlayRequestId { uuid: self.uuid, ..a0 };
        let a2 = LensOverlayRequestId { sequence_id: self.sequence_id, ..a1 };
        assert(merge_fields(a0, f1, budget) == Some(a1)) by {
            lemma_merge_short(a0, f1, budget);
        }
        assert(merge_fields(a1, f2, budget) == Some(a2)) by {
            lemma_merge_short(a1, f2, budget);
            lemma_int32_reads_back(self.sequence_id);
        }
        assert(merge_fields(a2, f3, budget) == Some(self)) by {
            lemma_merge_short(a2, f3, budget);
            lemma_int32_reads_back(self.image_sequence_id);
        }
        lemma_merge_fields_concat(a0, f1, f2, budget);
        lemma_merge_fields_concat(a0, f1 + f2, f3, budget);
    }
}

impl Message for LensOverlayRequestId {
    fn empty() -> Self {
        LensOverlayRequestId { uuid: 0, sequence_id: 0, image_sequence_id: 0 }
    }

    fn encode_raw(&self, out: &mut Vec<u8>) {
        let ghost base = out@;
        let ghost f1 = uint64_fields(1, self.uuid);
        let ghost f2 = int32_fields(2, self.sequence_id);
        proof {
            lemma_written_start(out@);
        }
        put_uint64(out, 1, self.uuid, Ghost(base), Ghost(Seq::empty()));
        put_int32(out, 2, self.sequence_id, Ghost(base), Ghost(Seq::empty() + f1));
        put_int32(out, 3, self.image_sequence_id, Ghost(base), Ghost(Seq::empty() + f1 + f2));
        assert(Seq::empty() + f1 + f2 + int32_fields(3, self.image_sequence_id)
            =~= self@.fields());
    }

    fn merge_field(self, field: FieldRef<'_>, budget: u32) -> Result<Self, DecodeError> {
        let mut message = self;
        if field.number == 1 {
            message.uuid = take_uint64(field.payload)?;
        } else if field.number == 2 {
            message.sequence_id = take_int32(field.payload)?;
        } else if field.number == 3 {
            message.image_sequence_id = take_int32(field.payload)?;
        } else {
            skip_unknown(budget)?;
        }
        Ok(message)
    }
}

impl WireModel for LensOverlayClientContextView {
    open spec fn blank() -> Self {
        LensOverlayClientContextView { platform: 0, surface: 0, locale_context: None }
    }

    open spec fn fields(self) -> Seq<Field> {
        int32_fields(1, self.platform) + int32_fields(2, self.surface) + message_fields(
            4,
            self.locale_context,
        )
    }

    open spec fn merge_field(self, field: Field, budget: nat) -> Option<Self> {
        if field.number == 1 {
            match read_int32(field.payload) {
                Some(platform) => Some(LensOverlayClientContextView { platform, ..self }),
                None => None,
            }
        } else if field.number == 2 {
            match read_int32(field.payload) {
                Some(surface) => Some(LensOverlayClientContextView { surface, ..self }),
                None => None,
            }
        } else if field.number == 4 {
            match read_optional(self.locale_context, field.payload, budget) {
                Some(locale) => Some(
                    LensOverlayClientContextView { locale_context: Some(locale), ..self },
                ),
                None => None,
            }
        } else {
            skipped(self, budget)
        }
    }

    open spec fn depth() -> nat {
        1
    }

    open spec fn canonical(self) -> Self {
        self
    }

    open spec fn exact(self) -> bool {
        true
    }
}

impl WireLaws for LensOverlayClientContextView {
    proof fn lemma_depth_fits() {
    }

    proof fn lemma_exact_is_canonical(self) {
    }

    proof fn lemma_fields_round_trip(self, budget: nat) {
        let f1 = int32_fields(1, self.platform);
        let f2 = int32_fields(2, self.surface);
        let f3 = message_fields(4, self.locale_context);
        let a0 = Self::blank();
        let a1 = LensOverlayClientContextView { platform: self.platform, ..a0 };
        let a2 = LensOverlayClientContextView { surface: self.surface, ..a1 };
        assert(merge_fields(a0, f1, budget) == Some(a1)) by {
            lemma_merge_short(a0, f1, budget);
            lemma_int32_reads_back(self.platform);
        }
        assert(merge_fields(a1, f2, budget) == Some(a2)) by {
            lemma_merge_short(a1, f2, budget);
            lemma_int32_reads_back(self.surface);
        }
        assert(merge_fields(a2, f3, budget) == Some(self)) by {
            lemma_merge_short(a2, f3, budget);
            lemma_parts_within(f1 + f2, f3);
            if let Some(locale) = self.locale_context {
                lemma_message_reads_back(locale, 4, budget);
            }
        }
        lemma_merge_fields_concat(a0, f1, f2, budget);
        lemma_merge_fields_concat(a0, f1 + f2, f3, budget);
    }
}

impl Message for LensOverlayClientContext {
    fn empty() -> Self {
        LensOverlayClientContext { platform: 0, surface: 0, locale_context: None }
    }

    fn encode_raw(&self, out: &mut Vec<u8>) {
        let ghost base = out@;
        let ghost f1 = int32_fields(1, self.platform);
        let ghost f2 = int32_fields(2, self.surface);
        proof {
            lemma_written_start(out@);
        }
        put_int32(out, 1, self.platform, Ghost(base), Ghost(Seq::empty()));
        put_int32(out, 2, self.surface, Ghost(base), Ghost(Seq::empty() + f1));
        put_message(out, 4, &self.locale_context, Ghost(base), Ghost(Seq::empty() + f1 + f2));
        assert(Seq::empty() + f1 + f2 + message_fields(4, self@.locale_context)
            =~= self@.fields());
    }

    fn merge_field(self, field: FieldRef<'_>, budget: u32) -> Result<Self, DecodeError> {
        let mut message = self;
        if field.number == 1 {
            message.platform = take_int32(field.payload)?;
        } else if field.number == 2 {
            message.surface = take_int32(field.payload)?;
        } else if field.number == 4 {
            let current = message.locale_context.take();
            message.locale_context = Some(take_optional(current, field.payload, budget)?);
        } else {
            skip_unknown(budget)?;
        }
        Ok(message)
    }
}

impl WireModel for LensOverlayRequestContextView {
    open spec fn blank() -> Self {
        LensOverlayRequestContextView { request_id: None, client_context: None }
    }

    open spec fn fields(self) -> Seq<Field> {
        message_fields(3, self.request_id) + message_fields(4, self.client_context)
    }

    open spec fn merge_field(self, field: Field, budget: nat) -> Option<Self> {
        if field.number == 3 {
            match read_optional(self.request_id, field.payload, budget) {
                Some(id) => Some(LensOverlayRequestContextView { request_id: Some(id), ..self }),
                None => None,
            }
        } else if field.number == 4 {
            match read_optional(self.client_context, field.payload, budget) {
                Some(client) => Some(
                    LensOverlayRequestContextView { client_context: Some(client), ..self },
                ),
                None => None,
            }
        } else {
            skipped(self, budget)
        }
    }

    open spec fn depth() -> nat {
        2
    }

    open spec fn canonical(self) -> Self {
        self
    }

    open spec fn exact(self) -> bool {
        true
    }
}

impl WireLaws for LensOverlayRequestContextView {
    proof fn lemma_depth_fits() {
    }

    proof fn lemma_exact_is_canonical(self) {
    }

    proof fn lemma_fields_round_trip(self, budget: nat) {
        let f1 = message_fields(3, self.request_id);
        let f2 = message_fields(4, self.client_context);
        let a0 = Self::blank();
        let a1 = LensOverlayRequestContextView { request_id: self.request_id, ..a0 };
        lemma_parts_within(f1, f2);
        assert(merge_fields(a0, f1, budget) == Some(a1)) by {
            lemma_merge_short(a0, f1, budget);
            if let Some(id) = self.request_id {
                lemma_message_reads_back(id, 3, budget);
            }
        }
        assert(merge_fields(a1, f2, budget) == Some(self)) by {
            lemma_merge_short(a1, f2, budget);
            if let Some(client) = self.client_context {
                lemma_message_reads_back(client, 4, budget);
            }
        }
        lemma_merge_fields_concat(a0, f1, f2, budget);
    }
}

impl Message for LensOverlayRequestContext {
    fn empty() -> Self {
        LensOverlayRequestContext { request_id: None, client_context: None }
    }

    fn encode_raw(&self, out: &mut Vec<u8>) {
        let ghost base = out@;
        let ghost f1 = message_fields(3, self@.request_id);
        proof {
            lemma_written_start(out@);
        }
        put_message(out, 3, &self.request_id, Ghost(base), Ghost(Seq::empty()));
        put_message(out, 4, &self.client_context, Ghost(base), Ghost(Seq::empty() + f1));
        assert(Seq::empty() + f1 + message_fields(4, self@.client_context) =~= self@.fields());
    }

    fn merge_field(self, field: FieldRef<'_>, budget: u32) -> Result<Self, DecodeError> {
        let mut message = self;
        if field.number == 3 {
            let current = message.request_id.take();
            message.request_id = Some(take_optional(current, field.payload, budget)?);
        } else if field.number == 4 {
            let current = message.client_context.take();
            message.client_context = Some(take_optional(current, field.payload, budget)?);
        } else {
            skip_unknown(budget)?;
        }
        Ok(message)
    }
}

impl WireModel for ImagePayloadView {
    open spec fn blank() -> Self {
        ImagePayloadView { image_bytes: Seq::empty() }
    }

    open spec fn fields(self) -> Seq<Field> {
        bytes_fields(1, self.image_bytes)
    }

    open spec fn merge_field(self, field: Field, budget: nat) -> Option<Self> {
        if field.number == 1 {
            match read_bytes(field.payload) {
                Some(image_bytes) => Some(ImagePayloadView { image_bytes }),
                None => None,
            }
        } else {
            skipped(self, budget)
        }
    }

    open spec fn depth() -> nat {
        0
    }

    open spec fn canonical(self) -> Self {
        self
    }

    open spec fn exact(self) -> bool {
        true
    }
}

impl WireLaws for ImagePayloadView {
    proof fn lemma_depth_fits() {
    }

    proof fn lemma_exact_is_canonical(self) {
    }

    proof fn lemma_fields_round_trip(self, budget: nat) {
        let f1 = bytes_fields(1, self.image_bytes);
        let a0 = Self::blank();
        assert(merge_fields(a0, f1, budget) == Some(self)) by {
            lemma_merge_short(a0, f1, budget);
            assert(self.image_bytes.len() == 0 ==> self.image_bytes =~= Seq::<u8>::empty());
        }
    }
}

impl Message for ImagePayload {
    fn empty() -> Self {
        ImagePayload { image_bytes: Vec::new() }
    }

    fn encode_raw(&self, out: &mut Vec<u8>) {
        let ghost base = out@;
        proof {
            lemma_written_start(out@);
        }
        put_bytes_member(out, 1, self.image_bytes.as_slice(), Ghost(base), Ghost(Seq::empty()));
        assert(Seq::empty() + bytes_fields(1, self.image_bytes@) =~= self@.fields());
    }

    fn merge_field(self, field: FieldRef<'_>, budget: u32) -> Result<Self, DecodeError> {
        let mut message = self;
        if field.number == 1 {
            message.image_bytes = take_bytes(field.payload)?;
        } else {
            skip_unknown(budget)?;
        }
        Ok(message)
    }
}

impl WireModel for ImageMetadata {
    open spec fn blank() -> Self {
        ImageMetadata { width: 0, height: 0 }
    }

    open spec fn fields(self) -> Seq<Field> {
        int32_fields(1, self.width) + int32_fields(2, self.height)
    }

    open spec fn merge_field(self, field: Field, budget: nat) -> Option<Self> {
        if field.number == 1 {
            match read_int32(field.payload) {
                Some(width) => Some(ImageMetadata { width, ..self }),
                None => None,
            }
        } else if field.number == 2 {
            match read_int32(field.payload) {
                Some(height) => Some(ImageMetadata { height, ..self }),
                None => None,
            }
        } else {
            skipped(self, budget)
        }
    }

    open spec fn depth() -> nat {
        0
    }

    open spec fn canonical(self) -> Self {
        self
    }

    open spec fn exact(self) -> bool {
        true
    }
}

impl WireLaws for ImageMetadata {
    proof fn lemma_depth_fits() {
    }

    proof fn lemma_exact_is_canonical(self) {
    }

    proof fn lemma_fields_round_trip(self, budget: nat) {
        let f1 = int32_fields(1, self.width);
        let f2 = int32_fields(2, self.height);
        let a0 = Self::blank();
        let a1 = ImageMetadata { width: self.width, ..a0 };
        assert(merge_fields(a0, f1, budget) == Some(a1)) by {
            lemma_merge_short(a0, f1, budget);
            lemma_int32_reads_back(self.width);
        }
        assert(merge_fields(a1, f2, budget) == Some(self)) by {
            lemma_merge_short(a1, f2, budget);
            lemma_int32_reads_back(self.height);
        }
        lemma_merge_fields_concat(a0, f1, f2, budget);
    }
}

impl Message for ImageMetadata {
    fn empty() -> Self {
        ImageMetadata { width: 0, height: 0 }
    }

    fn encode_raw(&self, out: &mut Vec<u8>) {
        let ghost base = out@;
        let ghost f1 = int32_fields(1, self.width);
        proof {
            lemma_written_start(out@);
        }
        put_int32(out, 1, self.width, Ghost(base), Ghost(Seq::empty()));
        put_int32(out, 2, self.height, Ghost(base), Ghost(Seq::empty() + f1));
        assert(Seq::empty() + f1 + int32_fields(2, self.height) =~= self@.fields());
    }

    fn merge_field(self, field: FieldRef<'_>, budget: u32) -> Result<Self, DecodeError> {
        let mut message = self;
        if field.number == 1 {
            message.width = take_int32(field.payload)?;
        } else if field.number == 2 {
            message.height = take_int32(field.payload)?;
        } else {
            skip_unknown(budget)?;
        }
        Ok(message)
    }
}

impl WireModel for ImageDataView {
    open spec fn blank() -> Self {
        ImageDataView { payload: None, image_metadata: None }
    }

    open spec fn fields(self) -> Seq<Field> {
        message_fields(1, self.payload) + message_fields(3, self.image_metadata)
    }

    open spec fn merge_field(self, field: Field, budget: nat) -> Option<Self> {
        if field.number == 1 {
            match read_optional(self.payload, field.payload, budget) {
                Some(payload) => Some(ImageDataView { payload: Some(payload), ..self }),
                None => None,
            }
        } else if field.number == 3 {
            match read_optional(self.image_metadata, field.payload, budget) {
                Some(metadata) => Some(ImageDataView { image_metadata: Some(metadata), ..self }),
                None => None,
            }
        } else {
            skipped(self, budget)
        }
    }

    open spec fn depth() -> nat {
        1
    }

    open spec fn canonical(self) -> Self {
        self
    }

    open spec fn exact(self) -> bool {
        true
    }
}

impl WireLaws for ImageDataView {
    proof fn lemma_depth_fits() {
    }

    proof fn lemma_exact_is_canonical(self) {
    }

    proof fn lemma_fields_round_trip(self, budget: nat) {
        let f1 = message_fields(1, self.payload);
        let f2 = message_fields(3, self.image_metadata);
        let a0 = Self::blank();
        let a1 = ImageDataView { payload: self.payload, ..a0 };
        lemma_parts_within(f1, f2);
        assert(merge_fields(a0, f1, budget) == Some(a1)) by {
            lemma_merge_short(a0, f1, budget);
            if let Some(payload) = self.payload {
                lemma_message_reads_back(payload, 1, budget);
            }
        }
        assert(merge_fields(a1, f2, budget) == Some(self)) by {
            lemma_merge_short(a1, f2, budget);
            if let Some(metadata) = self.image_metadata {
                lemma_message_reads_back(metadata, 3, budget);
            }
        }
        lemma_merge_fields_concat(a0, f1, f2, budget);
    }
}

impl Message for ImageData {
    fn empty() -> Self {
        ImageData { payload: None, image_metadata: None }
    }

    fn encode_raw(&self, out: &mut Vec<u8>) {
        let ghost base = out@;
        let ghost f1 = message_fields(1, self@.payload);
        proof {
            lemma_written_start(out@);
        }
        put_message(out, 1, &self.payload, Ghost(base), Ghost(Seq::empty()));
        put_message(out, 3, &self.image_metadata, Ghost(base), Ghost(Seq::empty() + f1));
        assert(Seq::empty() + f1 + message_fields(3, self@.image_metadata) =~= self@.fields());
    }

    fn merge_field(self, field: FieldRef<'_>, budget: u32) -> Result<Self, DecodeError> {
        let mut message = self;
        if field.number == 1 {
            let current = message.payload.take();
            message.payload = Some(take_optional(current, field.payload, budget)?);
        } else if field.number == 3 {
            let current = message.image_metadata.take();
            message.image_metadata = Some(take_optional(current, field.payload, budget)?);
        } else {
            skip_unknown(budget)?;
        }
        Ok(message)
    }
}

impl WireModel for LensOverlayObjectsRequestView {
    open spec fn blank() -> Self {
        LensOverlayObjectsRequestView { request_context: None, image_data: None }
    }

    open spec fn fields(self) -> Seq<Field> {
        message_fields(1, self.request_context) + message_fields(3, self.image_data)
    }

    open spec fn merge_field(self, field: Field, budget: nat) -> Option<Self> {
        if field.number == 1 {
            match read_optional(self.request_context, field.payload, budget) {
                Some(context) => Some(
                    LensOverlayObjectsRequestView { request_context: Some(context), ..self },
                ),
                None => None,
            }
        } else if field.number == 3 {
            match read_optional(self.image_data, field.payload, budget) {
                Some(image) => Some(
                    LensOverlayObjectsRequestView { image_data: Some(image), ..self },
                ),
                None => None,
            }
        } else {
            skipped(self, budget)
        }
    }

    open spec fn depth() -> nat {
        3
    }

    open spec fn canonical(self) -> Self {
        self
    }

    open spec fn exact(self) -> bool {
        true
    }
}

impl WireLaws for LensOverlayObjectsRequestView {
    proof fn lemma_depth_fits() {
    }

    proof fn lemma_exact_is_canonical(self) {
    }

    proof fn lemma_fields_round_trip(self, budget: nat) {
        let f1 = message_fields(1, self.request_context);
        let f2 = message_fields(3, self.image_data);
        let a0 = Self::blank();
        let a1 = LensOverlayObjectsRequestView { request_context: self.request_context, ..a0 };
        lemma_parts_within(f1, f2);
        assert(merge_fields(a0, f1, budget) == Some(a1)) by {
            lemma_merge_short(a0, f1, budget);
            if let Some(context) = self.request_context {
                lemma_message_reads_back(context, 1, budget);
            }
        }
        assert(merge_fields(a1, f2, budget) == Some(self)) by {
            lemma_merge_short(a1, f2, budget);
            if let Some(image) = self.image_data {
                lemma_message_reads_back(image, 3, budget);
            }
        }
        lemma_merge_fields_concat(a0, f1, f2, budget);
    }
}

impl Message for LensOverlayObjectsRequest {
    fn empty() -> Self {
        LensOverlayObjectsRequest { request_context: None, image_data: None }
    }

    fn encode_raw(&self, out: &mut Vec<u8>) {
        let ghost base = out@;
        let ghost f1 = message_fields(1, self@.request_context);
        proof {
            lemma_written_start(out@);
        }
        put_message(out, 1, &self.request_context, Ghost(base), Ghost(Seq::empty()));
        put_message(out, 3, &self.image_data, Ghost(base), Ghost(Seq::empty() + f1));
        assert(Seq::empty() + f1 + message_fields(3, self@.image_data) =~= self@.fields());
    }

    fn merge_field(self, field: FieldRef<'_>, budget: u32) -> Result<Self, DecodeError> {
        let mut message = self;
        if field.number == 1 {
            let current = message.request_context.take();
            message.request_context = Some(take_optional(current, field.payload, budget)?);
        } else if field.number == 3 {
            let current = message.image_data.take();
            message.image_data = Some(take_optional(current, field.payload, budget)?);
        } else {
            skip_unknown(budget)?;
        }
        Ok(message)
    }
}

impl WireModel for LensOverlayServerRequestView {
    open spec fn blank() -> Self {
        LensOverlayServerRequestView { objects_request: None }
    }

    open spec fn fields(self) -> Seq<Field> {
        message_fields(1, self.objects_request)
    }

    open spec fn merge_field(self, field: Field, budget: nat) -> Option<Self> {
        if field.number == 1 {
            match read_optional(self.objects_request, field.payload, budget) {
                Some(objects) => Some(
                    LensOverlayServerRequestView { objects_request: Some(objects) },
                ),
                None => None,
            }
        } else {
            skipped(self, budget)
        }
    }

    open spec fn depth() -> nat {
        4
    }

    open spec fn canonical(self) -> Self {
        self
    }

    open spec fn exact(self) -> bool {
        true
    }
}

impl WireLaws for LensOverlayServerRequestView {
    proof fn lemma_depth_fits() {
    }

    proof fn lemma_exact_is_canonical(self) {
    }

    proof fn lemma_fields_round_trip(self, budget: nat) {
        let f1 = message_fields(1, self.objects_request);
        let a0 = Self::blank();
        assert(merge_fields(a0, f1, budget) == Some(self)) by {
            lemma_merge_short(a0, f1, budget);
            if let Some(objects) = self.objects_request {
                lemma_message_reads_back(objects, 1, budget);
            }
        }
    }
}

impl Message for LensOverlayServerRequest {
    fn empty() -> Self {
        LensOverlayServerRequest { objects_request: None }
    }

    fn encode_raw(&self, out: &mut Vec<u8>) {
        let ghost base = out@;
        proof {
            lemma_written_start(out@);
        }
        put_message(out, 1, &self.objects_request, Ghost(base), Ghost(Seq::empty()));
        assert(Seq::empty() + message_fields(1, self@.objects_request) =~= self@.fields());
    }

    fn merge_field(self, field: FieldRef<'_>, budget: u32) -> Result<Self, DecodeError> {
        let mut message = self;
        if field.number == 1 {
            let current = message.objects_request.take();
            message.objects_request = Some(take_optional(current, field.payload, budget)?);
        } else {
            skip_unknown(budget)?;
        }
        Ok(message)
    }
}

/// Round trip of a request: decoding the serialized form of a request gives
/// the request back, field for field, with absent members absent. The one
/// condition is that the serialized form has a length that 64 bits can hold.
pub proof fn lemma_request_round_trip(request: LensOverlayServerRequestView)
    requires
        encoded(request).len() <= u64::MAX,
    ensures
        decoded::<LensOverlayServerRequestView>(encoded(request)) == Some(request),
{
    lemma_decode_encode(request);
}

} // verus!
