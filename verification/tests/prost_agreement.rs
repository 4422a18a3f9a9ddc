use chrome_lens_ocr::message::Message;
use chrome_lens_ocr::proto::{
    CenterRotatedBox, Geometry, ImageData, ImageMetadata, ImagePayload, LensOverlayRequestId,
    TextLayoutLine, TextLayoutWord,
};
use chrome_lens_ocr::member::Float32;
use prost::bytes::{Buf, BufMut};
use prost::encoding::{DecodeContext, WireType};
use prost::DecodeError;
use prost::Message as ProstMessage;

// The same four messages, written against prost by hand.

#[derive(Clone, Debug, Default, PartialEq)]
struct PBox {
    center_x: f32,
    center_y: f32,
    width: f32,
    height: f32,
    rotation_z: f32,
}

#[derive(Clone, Debug, Default, PartialEq)]
struct PGeometry {
    bounding_box: Option<PBox>,
}

#[derive(Clone, Debug, Default, PartialEq)]
struct PWord {
    plain_text: String,
    text_separator: Option<String>,
    geometry: Option<PGeometry>,
}

#[derive(Clone, Debug, Default, PartialEq)]
struct PLine {
    words: Vec<PWord>,
    geometry: Option<PGeometry>,
}

impl ProstMessage for PBox {
    fn encode_raw(&self, buf: &mut impl BufMut) {
        if self.center_x != 0f32 {
            prost::encoding::float::encode(1, &self.center_x, buf);
        }
        if self.center_y != 0f32 {
            prost::encoding::float::encode(2, &self.center_y, buf);
        }
        if self.width != 0f32 {
            prost::encoding::float::encode(3, &self.width, buf);
        }
        if self.height != 0f32 {
            prost::encoding::float::encode(4, &self.height, buf);
        }
        if self.rotation_z != 0f32 {
            prost::encoding::float::encode(5, &self.rotation_z, buf);
        }
    }

    fn merge_field(
        &mut self,
        tag: u32,
        wire_type: WireType,
        buf: &mut impl Buf,
        ctx: DecodeContext,
    ) -> Result<(), DecodeError> {
        match tag {
            1 => prost::encoding::float::merge(wire_type, &mut self.center_x, buf, ctx),
            2 => prost::encoding::float::merge(wire_type, &mut self.center_y, buf, ctx),
            3 => prost::encoding::float::merge(wire_type, &mut self.width, buf, ctx),
            4 => prost::encoding::float::merge(wire_type, &mut self.height, buf, ctx),
            5 => prost::encoding::float::merge(wire_type, &mut self.rotation_z, buf, ctx),
            _ => prost::encoding::skip_field(wire_type, tag, buf, ctx),
        }
    }

    fn encoded_len(&self) -> usize {
        let mut len = 0;
        for value in [self.center_x, self.center_y, self.width, self.height, self.rotation_z] {
            if value != 0f32 {
                len += 5;
            }
        }
        len
    }

    fn clear(&mut self) {
        *self = PBox::default();
    }
}

impl ProstMessage for PGeometry {
    fn encode_raw(&self, buf: &mut impl BufMut) {
        if let Some(bounding_box) = &self.bounding_box {
            prost::encoding::message::encode(1, bounding_box, buf);
        }
    }

    fn merge_field(
        &mut self,
        tag: u32,
        wire_type: WireType,
        buf: &mut impl Buf,
        ctx: DecodeContext,
    ) -> Result<(), DecodeError> {
        match tag {
            1 => prost::encoding::message::merge(
                wire_type,
                self.bounding_box.get_or_insert_with(PBox::default),
                buf,
                ctx,
            ),
            _ => prost::encoding::skip_field(wire_type, tag, buf, ctx),
        }
    }

    fn encoded_len(&self) -> usize {
        match &self.bounding_box {
            Some(bounding_box) => prost::encoding::message::encoded_len(1, bounding_box),
            None => 0,
        }
    }

    fn clear(&mut self) {
        *self = PGeometry::default();
    }
}

impl ProstMessage for PWord {
    fn encode_raw(&self, buf: &mut impl BufMut) {
        if !self.plain_text.is_empty() {
            prost::encoding::string::encode(2, &self.plain_text, buf);
        }
        if let Some(separator) = &self.text_separator {
            prost::encoding::string::encode(3, separator, buf);
        }
        if let Some(geometry) = &self.geometry {
            prost::encoding::message::encode(4, geometry, buf);
        }
    }

    fn merge_field(
        &mut self,
        tag: u32,
        wire_type: WireType,
        buf: &mut impl Buf,
        ctx: DecodeContext,
    ) -> Result<(), DecodeError> {
        match tag {
            2 => prost::encoding::string::merge(wire_type, &mut self.plain_text, buf, ctx),
            3 => prost::encoding::string::merge(
                wire_type,
                self.text_separator.get_or_insert_with(String::new),
                buf,
                ctx,
            ),
            4 => prost::encoding::message::merge(
                wire_type,
                self.geometry.get_or_insert_with(PGeometry::default),
                buf,
                ctx,
            ),
            _ => prost::encoding::skip_field(wire_type, tag, buf, ctx),
        }
    }

    fn encoded_len(&self) -> usize {
        let mut len = 0;
        if !self.plain_text.is_empty() {
            len += prost::encoding::string::encoded_len(2, &self.plain_text);
        }
        if let Some(separator) = &self.text_separator {
            len += prost::encoding::string::encoded_len(3, separator);
        }
        if let Some(geometry) = &self.geometry {
            len += prost::encoding::message::encoded_len(4, geometry);
        }
        len
    }

    fn clear(&mut self) {
        *self = PWord::default();
    }
}

impl ProstMessage for PLine {
    fn encode_raw(&self, buf: &mut impl BufMut) {
        for word in &self.words {
            prost::encoding::message::encode(1, word, buf);
        }
        if let Some(geometry) = &self.geometry {
            prost::encoding::message::encode(2, geometry, buf);
        }
    }

    fn merge_field(
        &mut self,
        tag: u32,
        wire_type: WireType,
        buf: &mut impl Buf,
        ctx: DecodeContext,
    ) -> Result<(), DecodeError> {
        match tag {
            1 => prost::encoding::message::merge_repeated(wire_type, &mut self.words, buf, ctx),
            2 => prost::encoding::message::merge(
                wire_type,
                self.geometry.get_or_insert_with(PGeometry::default),
                buf,
                ctx,
            ),
            _ => prost::encoding::skip_field(wire_type, tag, buf, ctx),
        }
    }

    fn encoded_len(&self) -> usize {
        let mut len = prost::encoding::message::encoded_len_repeated(1, &self.words);
        if let Some(geometry) = &self.geometry {
            len += prost::encoding::message::encoded_len(2, geometry);
        }
        len
    }

    fn clear(&mut self) {
        *self = PLine::default();
    }
}

#[derive(Clone, Debug, Default, PartialEq)]
struct PRequestId {
    uuid: u64,
    sequence_id: i32,
    image_sequence_id: i32,
}

#[derive(Clone, Debug, Default, PartialEq)]
struct PPayload {
    image_bytes: Vec<u8>,
}

#[derive(Clone, Debug, Default, PartialEq)]
struct PMetadata {
    width: i32,
    height: i32,
}

#[derive(Clone, Debug, Default, PartialEq)]
struct PImageData {
    payload: Option<PPayload>,
    image_metadata: Option<PMetadata>,
}

impl ProstMessage for PRequestId {
    fn encode_raw(&self, buf: &mut impl BufMut) {
        if self.uuid != 0 {
            prost::encoding::uint64::encode(1, &self.uuid, buf);
        }
        if self.sequence_id != 0 {
            prost::encoding::int32::encode(2, &self.sequence_id, buf);
        }
        if self.image_sequence_id != 0 {
            prost::encoding::int32::encode(3, &self.image_sequence_id, buf);
        }
    }

    fn merge_field(
        &mut self,
        tag: u32,
        wire_type: WireType,
        buf: &mut impl Buf,
        ctx: DecodeContext,
    ) -> Result<(), DecodeError> {
        match tag {
            1 => prost::encoding::uint64::merge(wire_type, &mut self.uuid, buf, ctx),
            2 => prost::encoding::int32::merge(wire_type, &mut self.sequence_id, buf, ctx),
            3 => prost::encoding::int32::merge(wire_type, &mut self.image_sequence_id, buf, ctx),
            _ => prost::encoding::skip_field(wire_type, tag, buf, ctx),
        }
    }

    fn encoded_len(&self) -> usize {
        let mut len = 0;
        if self.uuid != 0 {
            len += prost::encoding::uint64::encoded_len(1, &self.uuid);
        }
        if self.sequence_id != 0 {
            len += prost::encoding::int32::encoded_len(2, &self.sequence_id);
        }
        if self.image_sequence_id != 0 {
            len += prost::encoding::int32::encoded_len(3, &self.image_sequence_id);
        }
        len
    }

    fn clear(&mut self) {
        *self = PRequestId::default();
    }
}

impl ProstMessage for PPayload {
    fn encode_raw(&self, buf: &mut impl BufMut) {
        if !self.image_bytes.is_empty() {
            prost::encoding::bytes::encode(1, &self.image_bytes, buf);
        }
    }

    fn merge_field(
        &mut self,
        tag: u32,
        wire_type: WireType,
        buf: &mut impl Buf,
        ctx: DecodeContext,
    ) -> Result<(), DecodeError> {
        match tag {
            1 => prost::encoding::bytes::merge(wire_type, &mut self.image_bytes, buf, ctx),
            _ => prost::encoding::skip_field(wire_type, tag, buf, ctx),
        }
    }

    fn encoded_len(&self) -> usize {
        if self.image_bytes.is_empty() {
            0
        } else {
            prost::encoding::bytes::encoded_len(1, &self.image_bytes)
        }
    }

    fn clear(&mut self) {
        *self = PPayload::default();
    }
}

impl ProstMessage for PMetadata {
    fn encode_raw(&self, buf: &mut impl BufMut) {
        if self.width != 0 {
            prost::encoding::int32::encode(1, &self.width, buf);
        }
        if self.height != 0 {
            prost::encoding::int32::encode(2, &self.height, buf);
        }
    }

    fn merge_field(
        &mut self,
        tag: u32,
        wire_type: WireType,
        buf: &mut impl Buf,
        ctx: DecodeContext,
    ) -> Result<(), DecodeError> {
        match tag {
            1 => prost::encoding::int32::merge(wire_type, &mut self.width, buf, ctx),
            2 => prost::encoding::int32::merge(wire_type, &mut self.height, buf, ctx),
            _ => prost::encoding::skip_field(wire_type, tag, buf, ctx),
        }
    }

    fn encoded_len(&self) -> usize {
        let mut len = 0;
        if self.width != 0 {
            len += prost::encoding::int32::encoded_len(1, &self.width);
        }
        if self.height != 0 {
            len += prost::encoding::int32::encoded_len(2, &self.height);
        }
        len
    }

    fn clear(&mut self) {
        *self = PMetadata::default();
    }
}

impl ProstMessage for PImageData {
    fn encode_raw(&self, buf: &mut impl BufMut) {
        if let Some(payload) = &self.payload {
            prost::encoding::message::encode(1, payload, buf);
        }
        if let Some(metadata) = &self.image_metadata {
            prost::encoding::message::encode(3, metadata, buf);
        }
    }

    fn merge_field(
        &mut self,
        tag: u32,
        wire_type: WireType,
        buf: &mut impl Buf,
        ctx: DecodeContext,
    ) -> Result<(), DecodeError> {
        match tag {
            1 => prost::encoding::message::merge(
                wire_type,
                self.payload.get_or_insert_with(PPayload::default),
                buf,
                ctx,
            ),
            3 => prost::encoding::message::merge(
                wire_type,
                self.image_metadata.get_or_insert_with(PMetadata::default),
                buf,
                ctx,
            ),
            _ => prost::encoding::skip_field(wire_type, tag, buf, ctx),
        }
    }

    fn encoded_len(&self) -> usize {
        let mut len = 0;
        if let Some(payload) = &self.payload {
            len += prost::encoding::message::encoded_len(1, payload);
        }
        if let Some(metadata) = &self.image_metadata {
            len += prost::encoding::message::encoded_len(3, metadata);
        }
        len
    }

    fn clear(&mut self) {
        *self = PImageData::default();
    }
}

fn request_id_of(id: &PRequestId) -> LensOverlayRequestId {
    LensOverlayRequestId {
        uuid: id.uuid,
        sequence_id: id.sequence_id,
        image_sequence_id: id.image_sequence_id,
    }
}

fn image_data_of(data: &PImageData) -> ImageData {
    ImageData {
        payload: data.payload.as_ref().map(|p| ImagePayload { image_bytes: p.image_bytes.clone() }),
        image_metadata: data
            .image_metadata
            .as_ref()
            .map(|m| ImageMetadata { width: m.width, height: m.height }),
    }
}

fn box_of(b: &PBox) -> CenterRotatedBox {
    CenterRotatedBox {
        center_x: Float32::from_bits(b.center_x.to_bits()),
        center_y: Float32::from_bits(b.center_y.to_bits()),
        width: Float32::from_bits(b.width.to_bits()),
        height: Float32::from_bits(b.height.to_bits()),
        rotation_z: Float32::from_bits(b.rotation_z.to_bits()),
    }
}

fn geometry_of(g: &PGeometry) -> Geometry {
    Geometry { bounding_box: g.bounding_box.as_ref().map(box_of) }
}

fn word_of(w: &PWord) -> TextLayoutWord {
    TextLayoutWord {
        plain_text: w.plain_text.clone(),
        text_separator: w.text_separator.clone(),
        geometry: w.geometry.as_ref().map(geometry_of),
    }
}

fn line_of(l: &PLine) -> TextLayoutLine {
    TextLayoutLine {
        words: l.words.iter().map(word_of).collect(),
        geometry: l.geometry.as_ref().map(geometry_of),
    }
}

fn sample_lines() -> Vec<PLine> {
    let boxed = PGeometry {
        bounding_box: Some(PBox {
            center_x: 0.5,
            center_y: -0.0,
            width: 12.25,
            height: 0.0,
            rotation_z: -3.0,
        }),
    };
    vec![
        PLine::default(),
        PLine { words: vec![PWord::default()], geometry: Some(PGeometry::default()) },
        PLine {
            words: vec![
                PWord {
                    plain_text: "Bonjour".to_string(),
                    text_separator: Some(" ".to_string()),
                    geometry: Some(boxed.clone()),
                },
                PWord {
                    plain_text: "monde".to_string(),
                    text_separator: None,
                    geometry: None,
                },
                PWord {
                    plain_text: String::new(),
                    text_separator: Some(String::new()),
                    geometry: Some(PGeometry::default()),
                },
            ],
            geometry: Some(boxed),
        },
        PLine {
            words: vec![PWord {
                plain_text: "x".repeat(300),
                text_separator: Some("\u{1F600}".to_string()),
                geometry: None,
            }],
            geometry: None,
        },
    ]
}

/// A small generator of reproducible numbers.
struct Numbers(u64);

impl Numbers {
    fn next(&mut self) -> u64 {
        self.0 ^= self.0 << 13;
        self.0 ^= self.0 >> 7;
        self.0 ^= self.0 << 17;
        self.0
    }
}

fn same_outcome(input: &[u8]) {
    let theirs = PLine::decode(input).ok().map(|line| line_of(&line));
    let ours = TextLayoutLine::decode(input).ok();
    assert_eq!(ours, theirs, "input {:?}", input);
}

#[test]
fn the_bytes_written_are_the_bytes_prost_writes() {
    for line in sample_lines() {
        assert_eq!(line_of(&line).encode_to_vec(), line.encode_to_vec());
        for word in &line.words {
            assert_eq!(word_of(word).encode_to_vec(), word.encode_to_vec());
        }
    }
}

#[test]
fn what_prost_writes_is_read_alike() {
    for line in sample_lines() {
        same_outcome(&line.encode_to_vec());
    }
}

#[test]
fn what_is_written_here_is_read_by_prost() {
    for line in sample_lines() {
        let ours = line_of(&line);
        let back = PLine::decode(ours.encode_to_vec().as_slice()).unwrap();
        assert_eq!(line_of(&back), TextLayoutLine::decode(&ours.encode_to_vec()).unwrap());
    }
}

#[test]
fn damaged_input_is_read_alike() {
    let mut numbers = Numbers(0x9E37_79B9_7F4A_7C15);
    for line in sample_lines() {
        let bytes = line.encode_to_vec();
        if bytes.is_empty() {
            continue;
        }
        for _ in 0..400 {
            let mut damaged = bytes.clone();
            let changes = 1 + numbers.next() % 3;
            for _ in 0..changes {
                let at = (numbers.next() % damaged.len() as u64) as usize;
                match numbers.next() % 4 {
                    0 => damaged[at] = numbers.next() as u8,
                    1 => damaged[at] ^= 1 << (numbers.next() % 8),
                    2 => {
                        damaged.truncate(at);
                    }
                    _ => damaged.insert(at, numbers.next() as u8),
                }
                if damaged.is_empty() {
                    break;
                }
            }
            same_outcome(&damaged);
        }
    }
}

#[test]
fn short_inputs_are_read_alike() {
    let alphabet = [0x00u8, 0x01, 0x02, 0x08, 0x0A, 0x0B, 0x0C, 0x0D, 0x12, 0x1A, 0x22, 0x80, 0xFF];
    let mut inputs: Vec<Vec<u8>> = vec![vec![]];
    for a in alphabet {
        inputs.push(vec![a]);
        for b in alphabet {
            inputs.push(vec![a, b]);
            for c in alphabet {
                inputs.push(vec![a, b, c]);
                for d in alphabet {
                    inputs.push(vec![a, b, c, d]);
                }
            }
        }
    }
    for input in inputs {
        same_outcome(&input);
    }
}

#[test]
fn random_inputs_are_read_alike() {
    let mut numbers = Numbers(0x0123_4567_89AB_CDEF);
    let bytes = [0x00u8, 0x01, 0x02, 0x03, 0x04, 0x0A, 0x0B, 0x0C, 0x12, 0x15, 0x1A, 0x22, 0x7F, 0x80, 0xC3];
    for _ in 0..5000 {
        let len = (numbers.next() % 12) as usize;
        let input: Vec<u8> =
            (0..len).map(|_| bytes[(numbers.next() % bytes.len() as u64) as usize]).collect();
        same_outcome(&input);
    }
}

#[test]
fn deep_nesting_is_read_alike() {
    // a geometry inside a word inside a line, and groups nested inside an unknown field
    for depth in [1usize, 10, 96, 97, 98, 99, 100, 120] {
        let mut group = Vec::new();
        for _ in 0..depth {
            group.push(0x3B);
        }
        for _ in 0..depth {
            group.push(0x3C);
        }
        // the groups as an unknown field of the line itself
        same_outcome(&group);
        // of a geometry of the line
        let mut in_geometry = vec![0x12, group.len() as u8];
        in_geometry.extend_from_slice(&group);
        if group.len() < 128 {
            same_outcome(&in_geometry);
        }
        // of a box of a geometry of a word of the line
        if group.len() < 100 {
            let mut boxed = vec![0x0A, group.len() as u8];
            boxed.extend_from_slice(&group);
            let mut geometry = vec![0x22, boxed.len() as u8];
            geometry.extend_from_slice(&boxed);
            let mut word = vec![0x0A, geometry.len() as u8];
            word.extend_from_slice(&geometry);
            same_outcome(&word);
        }
    }
}

#[test]
fn numbers_are_written_and_read_alike() {
    let values = [
        (0u64, 0i32, 0i32),
        (1, 1, 1),
        (u64::MAX, i32::MAX, i32::MIN),
        (1 << 32, -1, 127),
        (127, 128, -128),
        (0xDEAD_BEEF, 0x7FFF_0000, -0x7FFF_0000),
    ];
    for (uuid, sequence_id, image_sequence_id) in values {
        let theirs = PRequestId { uuid, sequence_id, image_sequence_id };
        let ours = request_id_of(&theirs);
        let bytes = theirs.encode_to_vec();
        assert_eq!(ours.encode_to_vec(), bytes);
        assert_eq!(LensOverlayRequestId::decode(&bytes), Ok(ours));
        assert_eq!(PRequestId::decode(bytes.as_slice()).unwrap(), theirs);
    }
}

#[test]
fn random_numbers_are_read_alike() {
    let mut numbers = Numbers(0x5DEE_CE66_D1CE_4E5B);
    let bytes = [0x00u8, 0x01, 0x08, 0x10, 0x18, 0x20, 0x0A, 0x7F, 0x80, 0x81, 0xFF, 0x0D];
    for _ in 0..5000 {
        let len = (numbers.next() % 14) as usize;
        let input: Vec<u8> =
            (0..len).map(|_| bytes[(numbers.next() % bytes.len() as u64) as usize]).collect();
        let theirs = PRequestId::decode(input.as_slice()).ok().map(|id| request_id_of(&id));
        let ours = LensOverlayRequestId::decode(&input).ok();
        assert_eq!(ours, theirs, "input {:?}", input);
    }
}

#[test]
fn image_data_is_written_and_read_alike() {
    let samples = [
        PImageData::default(),
        PImageData { payload: Some(PPayload::default()), image_metadata: None },
        PImageData {
            payload: Some(PPayload { image_bytes: vec![0, 1, 2, 0xFF, 0x80] }),
            image_metadata: Some(PMetadata { width: 1200, height: 900 }),
        },
        PImageData {
            payload: Some(PPayload { image_bytes: vec![7; 300] }),
            image_metadata: Some(PMetadata { width: -5, height: 0 }),
        },
    ];
    for theirs in samples {
        let ours = image_data_of(&theirs);
        let bytes = theirs.encode_to_vec();
        assert_eq!(ours.encode_to_vec(), bytes);
        assert_eq!(ImageData::decode(&bytes), Ok(ours));
    }
}

#[test]
fn random_image_data_is_read_alike() {
    let mut numbers = Numbers(0x2545_F491_4F6C_DD1D);
    let bytes = [0x00u8, 0x01, 0x02, 0x03, 0x08, 0x0A, 0x10, 0x1A, 0x12, 0x7F, 0x80, 0xFF];
    for _ in 0..5000 {
        let len = (numbers.next() % 12) as usize;
        let input: Vec<u8> =
            (0..len).map(|_| bytes[(numbers.next() % bytes.len() as u64) as usize]).collect();
        let theirs = PImageData::decode(input.as_slice()).ok().map(|data| image_data_of(&data));
        let ours = ImageData::decode(&input).ok();
        assert_eq!(ours, theirs, "input {:?}", input);
    }
}
