use chrome_lens_ocr::build_request;
use chrome_lens_ocr::image_processor::ProcessedImage;
use chrome_lens_ocr::message::Message;
use chrome_lens_ocr::proto::{
    CenterRotatedBox, DeepGleamData, Geometry, ImageData, ImageMetadata, ImagePayload,
    LensOverlayClientContext, LensOverlayObjectsRequest, LensOverlayObjectsResponse,
    LensOverlayRequestContext, LensOverlayRequestId, LensOverlayServerRequest,
    LensOverlayServerResponse, LocaleContext, Platform, Surface, Text, TextLayout,
    TextLayoutLine, TextLayoutParagraph, TextLayoutWord, TranslationData, TranslationStatus,
    TranslationStatusMsg,
};
use chrome_lens_ocr::member::Float32;
use chrome_lens_ocr::wire::{DecodeError, RECURSION_LIMIT};

fn float(value: f32) -> Float32 {
    Float32::from_bits(value.to_bits())
}

fn sample_box() -> CenterRotatedBox {
    CenterRotatedBox {
        center_x: float(0.5),
        center_y: float(0.25),
        width: float(0.125),
        height: float(1.0e-3),
        rotation_z: float(-0.75),
    }
}

fn sample_geometry() -> Geometry {
    Geometry { bounding_box: Some(sample_box()) }
}

fn sample_request() -> LensOverlayServerRequest {
    build_request(
        ProcessedImage { bytes: vec![0x89, b'P', b'N', b'G', 0, 255], width: 640, height: 480 },
        Some("fr"),
        0xDEAD_BEEF_0123_4567,
    )
}

fn sample_response() -> LensOverlayServerResponse {
    LensOverlayServerResponse {
        objects_response: Some(LensOverlayObjectsResponse {
            text: Some(Text {
                text_layout: Some(TextLayout {
                    paragraphs: vec![
                        TextLayoutParagraph {
                            lines: vec![
                                TextLayoutLine {
                                    words: vec![
                                        TextLayoutWord {
                                            plain_text: "Grüße".to_string(),
                                            text_separator: Some(" ".to_string()),
                                            geometry: Some(sample_geometry()),
                                        },
                                        TextLayoutWord {
                                            plain_text: "世界".to_string(),
                                            text_separator: None,
                                            geometry: None,
                                        },
                                        TextLayoutWord {
                                            plain_text: String::new(),
                                            text_separator: Some(String::new()),
                                            geometry: Some(Geometry { bounding_box: None }),
                                        },
                                    ],
                                    geometry: Some(sample_geometry()),
                                },
                                TextLayoutLine { words: vec![], geometry: None },
                            ],
                            geometry: None,
                        },
                        TextLayoutParagraph { lines: vec![], geometry: Some(sample_geometry()) },
                    ],
                }),
                content_language: "de".to_string(),
            }),
            deep_gleams: vec![
                DeepGleamData {
                    translation: Some(TranslationData {
                        status: Some(TranslationStatusMsg {
                            code: TranslationStatus::Success.as_i32(),
                        }),
                        translation: "Greetings world".to_string(),
                    }),
                },
                DeepGleamData { translation: None },
            ],
        }),
    }
}

#[test]
fn request_round_trip() {
    let request = sample_request();
    let bytes = request.encode_to_vec();
    assert_eq!(LensOverlayServerRequest::decode(&bytes), Ok(request));
}

#[test]
fn response_round_trip() {
    let response = sample_response();
    let bytes = response.encode_to_vec();
    assert_eq!(LensOverlayServerResponse::decode(&bytes), Ok(response));
}

#[test]
fn absent_members_stay_absent() {
    let request = LensOverlayServerRequest {
        objects_request: Some(LensOverlayObjectsRequest {
            request_context: Some(LensOverlayRequestContext {
                request_id: None,
                client_context: Some(LensOverlayClientContext {
                    platform: 0,
                    surface: 0,
                    locale_context: None,
                }),
            }),
            image_data: None,
        }),
    };
    let bytes = request.encode_to_vec();
    assert_eq!(bytes, vec![0x0A, 0x04, 0x0A, 0x02, 0x22, 0x00]);
    assert_eq!(LensOverlayServerRequest::decode(&bytes), Ok(request));
}

#[test]
fn present_but_empty_is_not_absent() {
    let with_empty = ImageData {
        payload: Some(ImagePayload { image_bytes: vec![] }),
        image_metadata: None,
    };
    let without = ImageData { payload: None, image_metadata: None };
    assert_eq!(with_empty.encode_to_vec(), vec![0x0A, 0x00]);
    assert_eq!(without.encode_to_vec(), Vec::<u8>::new());
    assert_eq!(ImageData::decode(&[0x0A, 0x00]), Ok(with_empty));
    assert_eq!(ImageData::decode(&[]), Ok(without));
}

#[test]
fn empty_input_is_the_blank_message() {
    assert_eq!(
        LensOverlayServerResponse::decode(&[]),
        Ok(LensOverlayServerResponse { objects_response: None })
    );
    assert_eq!(LensOverlayServerResponse::decode(&[]), Ok(LensOverlayServerResponse::empty()));
    assert_eq!(
        LocaleContext::decode(&[]),
        Ok(LocaleContext {
            language: String::new(),
            region: String::new(),
            time_zone: String::new()
        })
    );
}

#[test]
fn request_id_bytes() {
    let id = LensOverlayRequestId { uuid: 300, sequence_id: 1, image_sequence_id: 1 };
    assert_eq!(id.encode_to_vec(), vec![0x08, 0xAC, 0x02, 0x10, 0x01, 0x18, 0x01]);
}

#[test]
fn scalars_at_their_default_are_left_out() {
    let id = LensOverlayRequestId { uuid: 0, sequence_id: 0, image_sequence_id: 7 };
    assert_eq!(id.encode_to_vec(), vec![0x18, 0x07]);
    let locale = LocaleContext {
        language: String::new(),
        region: "US".to_string(),
        time_zone: String::new(),
    };
    assert_eq!(locale.encode_to_vec(), vec![0x12, 0x02, b'U', b'S']);
}

#[test]
fn negative_int32_takes_ten_bytes_and_reads_back() {
    let metadata = ImageMetadata { width: -1, height: i32::MIN };
    let bytes = metadata.encode_to_vec();
    assert_eq!(
        bytes,
        vec![
            0x08, 0xFF, 0xFF, 0xFF, 0xFF, 0xFF, 0xFF, 0xFF, 0xFF, 0xFF, 0x01, 0x10, 0x80, 0x80,
            0x80, 0x80, 0xF8, 0xFF, 0xFF, 0xFF, 0xFF, 0x01
        ]
    );
    assert_eq!(ImageMetadata::decode(&bytes), Ok(metadata));
}

#[test]
fn int32_keeps_the_low_bits_of_a_wider_varint() {
    // 2^32 + 5 reads as 5
    let bytes = [0x08, 0x85, 0x80, 0x80, 0x80, 0x10];
    assert_eq!(ImageMetadata::decode(&bytes), Ok(ImageMetadata { width: 5, height: 0 }));
}

#[test]
fn extreme_scalars_round_trip() {
    for (uuid, a, b) in [
        (u64::MAX, i32::MAX, i32::MIN),
        (1, -1, 1),
        (1 << 63, 0, -2),
        (0, 0, 0),
    ] {
        let id = LensOverlayRequestId { uuid, sequence_id: a, image_sequence_id: b };
        assert_eq!(LensOverlayRequestId::decode(&id.encode_to_vec()), Ok(id));
    }
}

#[test]
fn floats_cross_bit_for_bit() {
    let b = CenterRotatedBox {
        center_x: Float32::from_bits(0x7FC0_0001),
        center_y: float(f32::INFINITY),
        width: float(f32::MIN_POSITIVE),
        height: Float32::from_bits(1),
        rotation_z: float(-1.5),
    };
    let bytes = b.encode_to_vec();
    assert_eq!(bytes.len(), 25);
    assert_eq!(CenterRotatedBox::decode(&bytes), Ok(b));
}

#[test]
fn float_bytes() {
    let b = CenterRotatedBox {
        center_x: float(1.0),
        center_y: Float32::zero(),
        width: Float32::zero(),
        height: Float32::zero(),
        rotation_z: float(-2.0),
    };
    assert_eq!(
        b.encode_to_vec(),
        vec![0x0D, 0x00, 0x00, 0x80, 0x3F, 0x2D, 0x00, 0x00, 0x00, 0xC0]
    );
}

#[test]
fn both_zeros_are_left_out() {
    let b = CenterRotatedBox {
        center_x: float(0.0),
        center_y: float(-0.0),
        width: Float32::zero(),
        height: Float32::zero(),
        rotation_z: Float32::zero(),
    };
    assert_eq!(b.encode_to_vec(), Vec::<u8>::new());
    assert_eq!(CenterRotatedBox::decode(&[]), Ok(CenterRotatedBox::empty()));
}

#[test]
fn a_negative_zero_on_the_wire_is_read_as_it_is() {
    let bytes = [0x15, 0x00, 0x00, 0x00, 0x80];
    let b = CenterRotatedBox::decode(&bytes).unwrap();
    assert_eq!(b.center_y.to_bits(), 0x8000_0000);
}

#[test]
fn unknown_fields_are_ignored() {
    let mut bytes = vec![
        0x28, 0x07, // field 5, varint
        0x32, 0x02, 0xFF, 0xFE, // field 6, two bytes that are not UTF-8
        0x3D, 1, 2, 3, 4, // field 7, four bytes
        0x41, 1, 2, 3, 4, 5, 6, 7, 8, // field 8, eight bytes
        0x4B, 0x08, 0x01, 0x4C, // field 9, a group
    ];
    bytes.extend_from_slice(&[0x0A, 0x02, b'f', b'r']);
    bytes.extend_from_slice(&[0xFA, 0x01, 0x00]); // field 31, empty
    assert_eq!(
        LocaleContext::decode(&bytes),
        Ok(LocaleContext {
            language: "fr".to_string(),
            region: String::new(),
            time_zone: String::new()
        })
    );
}

#[test]
fn the_last_value_of_a_scalar_wins() {
    let bytes = [0x0A, 0x02, b'f', b'r', 0x0A, 0x02, b'd', b'e'];
    assert_eq!(LocaleContext::decode(&bytes).unwrap().language, "de");
}

#[test]
fn a_repeated_nested_message_is_merged() {
    // the client context appears twice: once with the platform, once with the surface
    let bytes = [0x22, 0x02, 0x08, 0x03, 0x22, 0x02, 0x10, 0x04];
    assert_eq!(
        LensOverlayRequestContext::decode(&bytes),
        Ok(LensOverlayRequestContext {
            request_id: None,
            client_context: Some(LensOverlayClientContext {
                platform: Platform::Web.as_i32(),
                surface: Surface::Chromium.as_i32(),
                locale_context: None,
            }),
        })
    );
}

#[test]
fn elements_of_a_repeated_member_keep_their_order() {
    let layout = TextLayout {
        paragraphs: vec![
            TextLayoutParagraph { lines: vec![], geometry: None },
            TextLayoutParagraph {
                lines: vec![TextLayoutLine { words: vec![], geometry: None }],
                geometry: None,
            },
            TextLayoutParagraph { lines: vec![], geometry: Some(Geometry { bounding_box: None }) },
        ],
    };
    let bytes = layout.encode_to_vec();
    assert_eq!(bytes, vec![0x0A, 0x00, 0x0A, 0x02, 0x12, 0x00, 0x0A, 0x02, 0x1A, 0x00]);
    assert_eq!(TextLayout::decode(&bytes), Ok(layout));
}

#[test]
fn a_known_member_under_another_wire_type_is_rejected() {
    // language as a varint
    assert_eq!(LocaleContext::decode(&[0x08, 0x01]), Err(DecodeError));
    // width as a length-delimited field
    assert_eq!(ImageMetadata::decode(&[0x0A, 0x01, 0x05]), Err(DecodeError));
    // a float as a varint
    assert_eq!(CenterRotatedBox::decode(&[0x08, 0x01]), Err(DecodeError));
    // a nested message as a varint
    assert_eq!(LensOverlayServerResponse::decode(&[0x10, 0x01]), Err(DecodeError));
    // an element of a repeated member as four bytes
    assert_eq!(TextLayout::decode(&[0x0D, 0, 0, 0, 0]), Err(DecodeError));
}

#[test]
fn a_string_that_is_not_utf8_is_rejected() {
    assert_eq!(LocaleContext::decode(&[0x0A, 0x02, 0xC3, 0x28]), Err(DecodeError));
    assert_eq!(LocaleContext::decode(&[0x0A, 0x03, 0xED, 0xA0, 0x80]), Err(DecodeError));
    assert_eq!(LocaleContext::decode(&[0x0A, 0x02, 0xC0, 0x80]), Err(DecodeError));
    assert_eq!(TextLayoutWord::decode(&[0x1A, 0x01, 0xFF]), Err(DecodeError));
}

#[test]
fn bytes_need_not_be_utf8() {
    assert_eq!(
        ImagePayload::decode(&[0x0A, 0x02, 0xC3, 0x28]),
        Ok(ImagePayload { image_bytes: vec![0xC3, 0x28] })
    );
}

#[test]
fn truncated_input_is_rejected() {
    let bytes = sample_response().encode_to_vec();
    for len in 1..bytes.len() {
        let cut = &bytes[..len];
        match LensOverlayServerResponse::decode(cut) {
            // a cut may fall between two fields of the outermost message only
            Ok(_) => panic!("a message cut to {} of {} bytes was accepted", len, bytes.len()),
            Err(e) => assert_eq!(e, DecodeError),
        }
    }
}

#[test]
fn a_nested_message_that_overruns_its_length_is_rejected() {
    // the inner string claims three bytes, the enclosing message two
    let bytes = [0x22, 0x02, 0x0A, 0x03, b'a', b'b', b'c'];
    assert_eq!(LensOverlayClientContext::decode(&bytes), Err(DecodeError));
}

#[test]
fn trailing_garbage_is_rejected() {
    let mut bytes = sample_request().encode_to_vec();
    bytes.push(0x00);
    assert_eq!(LensOverlayServerRequest::decode(&bytes), Err(DecodeError));
}

#[test]
fn merge_keeps_what_the_input_does_not_set() {
    let start = LocaleContext {
        language: "en".to_string(),
        region: "US".to_string(),
        time_zone: "UTC".to_string(),
    };
    let merged = start.merge(&[0x12, 0x02, b'F', b'R'], RECURSION_LIMIT).unwrap();
    assert_eq!(
        merged,
        LocaleContext {
            language: "en".to_string(),
            region: "FR".to_string(),
            time_zone: "UTC".to_string()
        }
    );
}

#[test]
fn merge_appends_to_a_repeated_member() {
    let start = TextLayout { paragraphs: vec![TextLayoutParagraph { lines: vec![], geometry: None }] };
    let merged = start.merge(&[0x0A, 0x00], RECURSION_LIMIT).unwrap();
    assert_eq!(merged.paragraphs.len(), 2);
}

#[test]
fn a_nested_message_needs_budget() {
    let bytes = [0x0A, 0x00];
    assert!(ImageData::empty().merge(&bytes, 1).is_ok());
    assert_eq!(ImageData::empty().merge(&bytes, 0), Err(DecodeError));
}

#[test]
fn an_unknown_field_needs_budget() {
    let bytes = [0x38, 0x01];
    assert!(ImageMetadata::empty().merge(&bytes, 1).is_ok());
    assert_eq!(ImageMetadata::empty().merge(&bytes, 0), Err(DecodeError));
}

#[test]
fn a_known_scalar_needs_no_budget() {
    let bytes = [0x08, 0x01];
    assert_eq!(
        ImageMetadata::empty().merge(&bytes, 0),
        Ok(ImageMetadata { width: 1, height: 0 })
    );
}

#[test]
fn encode_raw_appends() {
    let mut out = vec![0xAA];
    ImageMetadata { width: 1, height: 2 }.encode_raw(&mut out);
    assert_eq!(out, vec![0xAA, 0x08, 0x01, 0x10, 0x02]);
    ImageMetadata { width: 3, height: 0 }.encode(&mut out);
    assert_eq!(out, vec![0xAA, 0x08, 0x01, 0x10, 0x02, 0x08, 0x03]);
}

#[test]
fn every_message_starts_blank() {
    assert_eq!(LensOverlayServerRequest::empty().encode_to_vec(), Vec::<u8>::new());
    assert_eq!(LensOverlayObjectsRequest::empty().encode_to_vec(), Vec::<u8>::new());
    assert_eq!(LensOverlayRequestContext::empty().encode_to_vec(), Vec::<u8>::new());
    assert_eq!(LensOverlayRequestId::empty().encode_to_vec(), Vec::<u8>::new());
    assert_eq!(LensOverlayClientContext::empty().encode_to_vec(), Vec::<u8>::new());
    assert_eq!(LocaleContext::empty().encode_to_vec(), Vec::<u8>::new());
    assert_eq!(ImageData::empty().encode_to_vec(), Vec::<u8>::new());
    assert_eq!(ImagePayload::empty().encode_to_vec(), Vec::<u8>::new());
    assert_eq!(ImageMetadata::empty().encode_to_vec(), Vec::<u8>::new());
    assert_eq!(LensOverlayServerResponse::empty().encode_to_vec(), Vec::<u8>::new());
    assert_eq!(LensOverlayObjectsResponse::empty().encode_to_vec(), Vec::<u8>::new());
    assert_eq!(DeepGleamData::empty().encode_to_vec(), Vec::<u8>::new());
    assert_eq!(TranslationData::empty().encode_to_vec(), Vec::<u8>::new());
    assert_eq!(TranslationStatusMsg::empty().encode_to_vec(), Vec::<u8>::new());
    assert_eq!(Text::empty().encode_to_vec(), Vec::<u8>::new());
    assert_eq!(TextLayout::empty().encode_to_vec(), Vec::<u8>::new());
    assert_eq!(TextLayoutParagraph::empty().encode_to_vec(), Vec::<u8>::new());
    assert_eq!(TextLayoutLine::empty().encode_to_vec(), Vec::<u8>::new());
    assert_eq!(TextLayoutWord::empty().encode_to_vec(), Vec::<u8>::new());
    assert_eq!(Geometry::empty().encode_to_vec(), Vec::<u8>::new());
    assert_eq!(CenterRotatedBox::empty().encode_to_vec(), Vec::<u8>::new());
}

#[test]
fn each_level_of_the_response_round_trips() {
    let response = sample_response();
    let objects = response.objects_response.clone().unwrap();
    let text = objects.text.clone().unwrap();
    let layout = text.text_layout.clone().unwrap();
    let paragraph = layout.paragraphs[0].clone();
    let line = paragraph.lines[0].clone();
    let word = line.words[0].clone();
    let gleam = objects.deep_gleams[0].clone();
    let translation = gleam.translation.clone().unwrap();
    let status = translation.status.unwrap();
    assert_eq!(LensOverlayObjectsResponse::decode(&objects.encode_to_vec()), Ok(objects));
    assert_eq!(Text::decode(&text.encode_to_vec()), Ok(text));
    assert_eq!(TextLayout::decode(&layout.encode_to_vec()), Ok(layout));
    assert_eq!(TextLayoutParagraph::decode(&paragraph.encode_to_vec()), Ok(paragraph));
    assert_eq!(TextLayoutLine::decode(&line.encode_to_vec()), Ok(line));
    assert_eq!(TextLayoutWord::decode(&word.encode_to_vec()), Ok(word));
    assert_eq!(DeepGleamData::decode(&gleam.encode_to_vec()), Ok(gleam));
    assert_eq!(TranslationData::decode(&translation.encode_to_vec()), Ok(translation));
    assert_eq!(TranslationStatusMsg::decode(&status.encode_to_vec()), Ok(status));
    assert_eq!(Geometry::decode(&sample_geometry().encode_to_vec()), Ok(sample_geometry()));
    assert_eq!(CenterRotatedBox::decode(&sample_box().encode_to_vec()), Ok(sample_box()));
}

#[test]
fn each_level_of_the_request_round_trips() {
    let request = sample_request();
    let objects = request.objects_request.clone().unwrap();
    let context = objects.request_context.clone().unwrap();
    let id = context.request_id.unwrap();
    let client = context.client_context.clone().unwrap();
    let locale = client.locale_context.clone().unwrap();
    let image = objects.image_data.clone().unwrap();
    let payload = image.payload.clone().unwrap();
    let metadata = image.image_metadata.unwrap();
    assert_eq!(LensOverlayObjectsRequest::decode(&objects.encode_to_vec()), Ok(objects));
    assert_eq!(LensOverlayRequestContext::decode(&context.encode_to_vec()), Ok(context));
    assert_eq!(LensOverlayRequestId::decode(&id.encode_to_vec()), Ok(id));
    assert_eq!(LensOverlayClientContext::decode(&client.encode_to_vec()), Ok(client));
    assert_eq!(LocaleContext::decode(&locale.encode_to_vec()), Ok(locale));
    assert_eq!(ImageData::decode(&image.encode_to_vec()), Ok(image));
    assert_eq!(ImagePayload::decode(&payload.encode_to_vec()), Ok(payload));
    assert_eq!(ImageMetadata::decode(&metadata.encode_to_vec()), Ok(metadata));
}

#[test]
fn enumerations_map_to_their_numbers() {
    assert_eq!(Platform::Unspecified.as_i32(), 0);
    assert_eq!(Platform::Web.as_i32(), 3);
    assert_eq!(Surface::Unspecified.as_i32(), 0);
    assert_eq!(Surface::Chromium.as_i32(), 4);
    assert_eq!(TranslationStatus::Unknown.as_i32(), 0);
    assert_eq!(TranslationStatus::Success.as_i32(), 1);
    assert_eq!(TranslationStatus::ServerError.as_i32(), 2);
    assert_eq!(Platform::from_i32(3), Some(Platform::Web));
    assert_eq!(Platform::from_i32(1), None);
    assert_eq!(Surface::from_i32(4), Some(Surface::Chromium));
    assert_eq!(Surface::from_i32(-4), None);
    assert_eq!(TranslationStatus::from_i32(2), Some(TranslationStatus::ServerError));
    assert_eq!(TranslationStatus::from_i32(3), None);
}

#[test]
fn an_enumeration_member_keeps_a_number_without_a_name() {
    let bytes = [0x08, 0x63, 0x10, 0x07];
    let context = LensOverlayClientContext::decode(&bytes).unwrap();
    assert_eq!(context.platform, 99);
    assert_eq!(context.surface, 7);
    assert_eq!(context.encode_to_vec(), bytes.to_vec());
}

#[test]
fn strings_at_the_edges_of_utf8() {
    let accepted: [&[u8]; 6] = [
        &[0x7F],
        &[0xC2, 0x80],
        &[0xDF, 0xBF],
        &[0xE0, 0xA0, 0x80],
        &[0xED, 0x9F, 0xBF],
        &[0xF4, 0x8F, 0xBF, 0xBF],
    ];
    for bytes in accepted {
        let mut input = vec![0x0A, bytes.len() as u8];
        input.extend_from_slice(bytes);
        let locale = LocaleContext::decode(&input).unwrap();
        assert_eq!(locale.language.as_bytes(), bytes);
        assert_eq!(locale.encode_to_vec(), input);
    }
    let rejected: [&[u8]; 8] = [
        &[0x80],
        &[0xC1, 0xBF],
        &[0xE0, 0x9F, 0xBF],
        &[0xED, 0xA0, 0x80],
        &[0xF0, 0x8F, 0xBF, 0xBF],
        &[0xF4, 0x90, 0x80, 0x80],
        &[0xF5, 0x80, 0x80, 0x80],
        &[0xE2, 0x82],
    ];
    for bytes in rejected {
        let mut input = vec![0x0A, bytes.len() as u8];
        input.extend_from_slice(bytes);
        assert_eq!(LocaleContext::decode(&input), Err(DecodeError), "{:?}", bytes);
    }
}

#[test]
fn text_in_many_scripts_round_trips() {
    for text in ["", "a", "é", "日本語", "\u{1F600}", "a\u{0}b", "\u{FEFF}x", "Ω≈ç√∫˜µ≤≥÷"] {
        let word = TextLayoutWord {
            plain_text: text.to_string(),
            text_separator: Some(text.to_string()),
            geometry: None,
        };
        assert_eq!(TextLayoutWord::decode(&word.encode_to_vec()), Ok(word));
    }
}

#[test]
fn a_negative_zero_comes_back_as_a_zero() {
    let b = CenterRotatedBox {
        center_x: float(-0.0),
        center_y: float(2.5),
        width: float(0.0),
        height: float(-0.0),
        rotation_z: float(-1.0),
    };
    let back = CenterRotatedBox::decode(&b.encode_to_vec()).unwrap();
    assert_eq!(back.center_x.to_bits(), 0);
    assert_eq!(back.height.to_bits(), 0);
    assert_eq!(back.center_y, b.center_y);
    assert_eq!(back.width, b.width);
    assert_eq!(back.rotation_z, b.rotation_z);
    // as numbers, nothing has changed
    for (read, written) in [
        (back.center_x, b.center_x),
        (back.center_y, b.center_y),
        (back.width, b.width),
        (back.height, b.height),
        (back.rotation_z, b.rotation_z),
    ] {
        assert!(f32::from_bits(read.to_bits()) == f32::from_bits(written.to_bits()));
    }
    // and what came back comes back as it is
    assert_eq!(CenterRotatedBox::decode(&back.encode_to_vec()), Ok(back));
}

#[test]
fn a_negative_zero_deep_in_a_response_changes_nothing_else() {
    let mut response = sample_response();
    let negative = Geometry {
        bounding_box: Some(CenterRotatedBox { center_x: float(-0.0), ..sample_box() }),
    };
    let positive = Geometry {
        bounding_box: Some(CenterRotatedBox { center_x: float(0.0), ..sample_box() }),
    };
    let layout = response
        .objects_response
        .as_mut()
        .unwrap()
        .text
        .as_mut()
        .unwrap()
        .text_layout
        .as_mut()
        .unwrap();
    layout.paragraphs[0].lines[0].words[0].geometry = Some(negative);
    let bytes = response.encode_to_vec();
    let mut expected = response.clone();
    expected
        .objects_response
        .as_mut()
        .unwrap()
        .text
        .as_mut()
        .unwrap()
        .text_layout
        .as_mut()
        .unwrap()
        .paragraphs[0]
        .lines[0]
        .words[0]
        .geometry = Some(positive);
    assert_eq!(LensOverlayServerResponse::decode(&bytes), Ok(expected));
}
