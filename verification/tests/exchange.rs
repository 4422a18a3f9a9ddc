use chrome_lens_ocr::build_request;
use chrome_lens_ocr::constants::{
    DEFAULT_API_KEY, DEFAULT_CLIENT_REGION, DEFAULT_CLIENT_TIME_ZONE, DEFAULT_USER_AGENT,
    LENS_CRUPLOAD_ENDPOINT, REQUEST_TIMEOUT_SECS,
};
use chrome_lens_ocr::error::LensError;
use chrome_lens_ocr::image_processor::{process_image_from_bytes, ProcessedImage};
use chrome_lens_ocr::message::Message;
use chrome_lens_ocr::member::Float32;
use chrome_lens_ocr::proto::{
    CenterRotatedBox, Geometry, LensOverlayObjectsResponse, LensOverlayServerRequest, LensOverlayServerResponse, Text,
    TextLayout, TextLayoutLine, TextLayoutParagraph, TextLayoutWord,
};
use chrome_lens_ocr::transport::{interpret_reply, is_success, post_request, Header};
use chrome_lens_ocr::LensClient;
use std::io::Cursor;

fn small_image() -> ProcessedImage {
    ProcessedImage { bytes: vec![1, 2, 3, 4], width: 2, height: 2 }
}

fn header(name: &str, value: &str) -> Header {
    Header { name: name.to_string(), value: value.to_string() }
}

fn reply_with_words(words: Vec<TextLayoutWord>) -> Vec<u8> {
    let response = LensOverlayServerResponse {
        objects_response: Some(LensOverlayObjectsResponse {
            text: Some(Text {
                text_layout: Some(TextLayout {
                    paragraphs: vec![TextLayoutParagraph {
                        lines: vec![TextLayoutLine { words, geometry: None }],
                        geometry: None,
                    }],
                }),
                content_language: "fr".to_string(),
            }),
            deep_gleams: vec![],
        }),
    };
    response.encode_to_vec()
}

fn word(text: &str, separator: Option<&str>) -> TextLayoutWord {
    TextLayoutWord {
        plain_text: text.to_string(),
        text_separator: separator.map(|s| s.to_string()),
        geometry: None,
    }
}

#[test]
fn a_client_without_a_credential_uses_the_default() {
    assert_eq!(LensClient::new(None).api_key(), DEFAULT_API_KEY);
}

#[test]
fn a_client_keeps_the_credential_it_is_given() {
    assert_eq!(LensClient::new(Some("my-key".to_string())).api_key(), "my-key");
}

#[test]
fn the_request_names_the_language_asked_for() {
    let request = build_request(small_image(), Some("fr"), 1);
    let locale = request
        .objects_request
        .unwrap()
        .request_context
        .unwrap()
        .client_context
        .unwrap()
        .locale_context
        .unwrap();
    assert_eq!(locale.language, "fr");
    assert_eq!(locale.region, DEFAULT_CLIENT_REGION);
    assert_eq!(locale.time_zone, DEFAULT_CLIENT_TIME_ZONE);
}

#[test]
fn the_language_defaults_to_english() {
    let request = build_request(small_image(), None, 1);
    let locale = request
        .objects_request
        .unwrap()
        .request_context
        .unwrap()
        .client_context
        .unwrap()
        .locale_context
        .unwrap();
    assert_eq!(locale.language, "en");
}

#[test]
fn the_request_carries_identifier_and_fixed_markers() {
    let request = build_request(small_image(), None, 0x1122_3344_5566_7788);
    let context = request.objects_request.unwrap().request_context.unwrap();
    let id = context.request_id.unwrap();
    assert_eq!(id.uuid, 0x1122_3344_5566_7788);
    assert_eq!(id.sequence_id, 1);
    assert_eq!(id.image_sequence_id, 1);
    let client = context.client_context.unwrap();
    assert_eq!(client.platform, 3);
    assert_eq!(client.surface, 4);
}

#[test]
fn the_request_carries_the_image_and_repeats_its_size() {
    let image = ProcessedImage { bytes: vec![9, 8, 7], width: 1200, height: 900 };
    let request = build_request(image, None, 5);
    let data = request.objects_request.unwrap().image_data.unwrap();
    assert_eq!(data.payload.unwrap().image_bytes, vec![9, 8, 7]);
    let metadata = data.image_metadata.unwrap();
    assert_eq!((metadata.width, metadata.height), (1200, 900));
}

#[test]
fn the_bytes_of_a_small_request() {
    let image = ProcessedImage { bytes: vec![0xAB], width: 3, height: 2 };
    let bytes = build_request(image, Some("fr"), 5).encode_to_vec();
    let mut expected: Vec<u8> = vec![
        0x0A, 0x39, // server request: objects request, 57 bytes
        0x0A, 0x2A, // request context, 42 bytes
        0x1A, 0x06, 0x08, 0x05, 0x10, 0x01, 0x18, 0x01, // request id
        0x22, 0x20, 0x08, 0x03, 0x10, 0x04, // client context: platform, surface
        0x22, 0x1A, 0x0A, 0x02, b'f', b'r', 0x12, 0x02, b'U', b'S', 0x1A, 0x10, // locale
    ];
    expected.extend_from_slice(b"America/New_York");
    expected.extend_from_slice(&[
        0x1A, 0x0B, // image data
        0x0A, 0x03, 0x0A, 0x01, 0xAB, // payload
        0x1A, 0x04, 0x08, 0x03, 0x10, 0x02, // metadata
    ]);
    assert_eq!(bytes, expected);
}

#[test]
fn a_built_request_round_trips() {
    let request = build_request(small_image(), Some("ja"), u64::MAX);
    assert_eq!(LensOverlayServerRequest::decode(&request.encode_to_vec()), Ok(request));
}

#[test]
fn the_post_names_endpoint_headers_and_timeout() {
    let request = post_request("key-123", vec![1, 2, 3]).unwrap();
    assert_eq!(request.url, LENS_CRUPLOAD_ENDPOINT);
    assert_eq!(
        request.headers,
        vec![
            header("Content-Type", "application/x-protobuf"),
            header("User-Agent", DEFAULT_USER_AGENT),
            header("X-Goog-Api-Key", "key-123"),
        ]
    );
    assert_eq!(request.body, vec![1, 2, 3]);
    assert_eq!(request.timeout_secs, 60);
    assert_eq!(REQUEST_TIMEOUT_SECS, 60);
}

#[test]
fn a_credential_with_a_line_break_is_a_config_error() {
    assert_eq!(post_request("bad\nkey", vec![]), Err(LensError::Config));
    assert_eq!(post_request("bad\rkey", vec![]), Err(LensError::Config));
    assert_eq!(post_request("bad\u{0}key", vec![]), Err(LensError::Config));
    assert_eq!(post_request("bad\u{7F}key", vec![]), Err(LensError::Config));
}

#[test]
fn a_credential_with_tab_or_high_characters_is_accepted() {
    assert!(post_request("a\tb", vec![]).is_ok());
    assert!(post_request("clé", vec![]).is_ok());
    assert!(post_request("", vec![]).is_ok());
}

#[test]
fn the_client_refuses_a_bad_credential_before_anything_is_sent() {
    let client = LensClient::new(Some("line\nbreak".to_string()));
    assert_eq!(client.send_request(small_image(), None), Err(LensError::Config));
    assert_eq!(client.request_with_id(small_image(), None, 1), Err(LensError::Config));
}

#[test]
fn the_client_posts_the_serialized_request() {
    let client = LensClient::new(Some("k".to_string()));
    let request = client.request_with_id(small_image(), Some("fr"), 42).unwrap();
    assert_eq!(request.body, build_request(small_image(), Some("fr"), 42).encode_to_vec());
    assert_eq!(request.headers[2], header("X-Goog-Api-Key", "k"));
}

#[test]
fn a_fresh_identifier_is_the_only_thing_that_varies() {
    let client = LensClient::new(Some("k".to_string()));
    let request = client.send_request(small_image(), Some("fr")).unwrap();
    let sent = LensOverlayServerRequest::decode(&request.body).unwrap();
    let id = sent
        .objects_request
        .clone()
        .unwrap()
        .request_context
        .unwrap()
        .request_id
        .unwrap()
        .uuid;
    assert_eq!(sent, build_request(small_image(), Some("fr"), id));
    assert_eq!(request, client.request_with_id(small_image(), Some("fr"), id).unwrap());
}

#[test]
fn identifiers_differ_between_calls() {
    let client = LensClient::new(None);
    let mut bodies = Vec::new();
    for _ in 0..8 {
        bodies.push(client.send_request(small_image(), None).unwrap().body);
    }
    bodies.sort();
    bodies.dedup();
    assert!(bodies.len() > 1);
}

#[test]
fn the_success_class_is_200_to_299() {
    assert!(!is_success(199));
    assert!(is_success(200));
    assert!(is_success(204));
    assert!(is_success(299));
    assert!(!is_success(300));
    assert!(!is_success(404));
    assert!(!is_success(0));
}

#[test]
fn a_rate_limit_answer_is_a_transport_error() {
    assert_eq!(
        interpret_reply(429, b"rate limited"),
        Err(LensError::Transport { status: 429, body: "rate limited".to_string() })
    );
}

#[test]
fn a_failed_exchange_is_never_decoded() {
    // the body is a well-formed response with text in it: the status decides
    let body = reply_with_words(vec![word("texte", None)]);
    match interpret_reply(500, &body) {
        Err(LensError::Transport { status, .. }) => assert_eq!(status, 500),
        other => panic!("{:?}", other),
    }
    // the body is nothing like a message
    assert_eq!(
        interpret_reply(404, &[0xFF, 0xFF]),
        Err(LensError::Transport { status: 404, body: "\u{FFFD}\u{FFFD}".to_string() })
    );
    // a redirect is no success either
    assert_eq!(
        interpret_reply(302, b""),
        Err(LensError::Transport { status: 302, body: String::new() })
    );
}

#[test]
fn a_body_that_is_no_message_is_a_wire_error() {
    assert_eq!(interpret_reply(200, &[0xFF, 0xFF]), Err(LensError::WireDecode));
    assert_eq!(interpret_reply(200, b"rate limited"), Err(LensError::WireDecode));
}

#[test]
fn an_answer_without_text_is_an_empty_result() {
    assert_eq!(interpret_reply(200, &[]), Err(LensError::EmptyResult));
    assert_eq!(
        interpret_reply(200, &reply_with_words(vec![word(" ", Some("\n"))])),
        Err(LensError::EmptyResult)
    );
}

#[test]
fn an_answer_with_text_gives_the_text() {
    let body = reply_with_words(vec![word("Bonjour", Some(" ")), word("monde", None)]);
    assert_eq!(interpret_reply(200, &body), Ok("Bonjour monde".to_string()));
    assert_eq!(LensClient::new(None).receive_reply(201, &body), Ok("Bonjour monde".to_string()));
}

#[test]
fn the_client_maps_a_failed_exchange_alike() {
    assert_eq!(
        LensClient::new(None).receive_reply(429, b"rate limited"),
        Err(LensError::Transport { status: 429, body: "rate limited".to_string() })
    );
}

#[test]
fn from_a_large_image_to_french_text() {
    // a gray picture of 4000 by 3000 pixels, asked about in French
    let mut source = b"P5\n4000 3000\n255\n".to_vec();
    for y in 0..3000u32 {
        for x in 0..4000u32 {
            source.push((x + y) as u8);
        }
    }

    let processed = process_image_from_bytes(&source).unwrap();
    assert!(processed.width <= 1200 && processed.height <= 1200);
    assert_eq!((processed.width, processed.height), (1200, 900));
    let image_bytes = processed.bytes.clone();

    let client = LensClient::new(Some("key".to_string()));
    let posted = client.send_request(processed, Some("fr")).unwrap();
    let request = LensOverlayServerRequest::decode(&posted.body).unwrap();
    let objects = request.objects_request.unwrap();
    let locale =
        objects.request_context.unwrap().client_context.unwrap().locale_context.unwrap();
    assert_eq!(locale.language, "fr");
    let data = objects.image_data.unwrap();
    let metadata = data.image_metadata.unwrap();
    assert_eq!((metadata.width, metadata.height), (1200, 900));
    assert_eq!(data.payload.unwrap().image_bytes, image_bytes);

    let answer = reply_with_words(vec![word("Bonjour", None), word(" ", None), word("monde", None)]);
    assert_eq!(client.receive_reply(200, &answer), Ok("Bonjour monde".to_string()));
}

#[test]
fn the_client_goes_from_image_bytes_to_a_post() {
    let pixels = image::GrayImage::from_pixel(4, 3, image::Luma([7]));
    let mut source = Vec::new();
    image::DynamicImage::ImageLuma8(pixels)
        .write_to(&mut Cursor::new(&mut source), image::ImageFormat::Png)
        .unwrap();
    let client = LensClient::new(Some("key".to_string()));
    let posted = client.process_image_bytes(&source, None).unwrap();
    let request = LensOverlayServerRequest::decode(&posted.body).unwrap();
    let metadata = request.objects_request.unwrap().image_data.unwrap().image_metadata.unwrap();
    assert_eq!((metadata.width, metadata.height), (4, 3));
    assert_eq!(client.process_image_bytes(b"no image", None), Err(LensError::ImageDecode));
}

#[test]
fn a_credential_is_judged_byte_by_byte() {
    for code in 0u32..=0x2FF {
        let c = char::from_u32(code).unwrap();
        let key = format!("a{}b", c);
        let allowed = code == 9 || (code >= 32 && code != 127);
        assert_eq!(post_request(&key, vec![]).is_ok(), allowed, "U+{:04X}", code);
    }
    assert!(post_request("\u{10FFFF}\u{FFFD}\u{20AC}", vec![]).is_ok());
}

#[test]
fn an_answer_means_what_its_response_says() {
    let geometry = Geometry {
        bounding_box: Some(CenterRotatedBox {
            center_x: Float32::from_bits((-0.0f32).to_bits()),
            center_y: Float32::from_bits(0.5f32.to_bits()),
            width: Float32::zero(),
            height: Float32::from_bits(f32::INFINITY.to_bits()),
            rotation_z: Float32::from_bits((-3.5f32).to_bits()),
        }),
    };
    let word = |text: &str, separator: Option<&str>, geometry: Option<Geometry>| TextLayoutWord {
        plain_text: text.to_string(),
        text_separator: separator.map(|s| s.to_string()),
        geometry,
    };
    let with_layout = |layout: Option<TextLayout>| LensOverlayServerResponse {
        objects_response: Some(LensOverlayObjectsResponse {
            text: Some(Text { text_layout: layout, content_language: String::new() }),
            deep_gleams: vec![],
        }),
    };
    let responses = vec![
        LensOverlayServerResponse { objects_response: None },
        LensOverlayServerResponse {
            objects_response: Some(LensOverlayObjectsResponse { text: None, deep_gleams: vec![] }),
        },
        with_layout(None),
        with_layout(Some(TextLayout { paragraphs: vec![] })),
        with_layout(Some(TextLayout {
            paragraphs: vec![TextLayoutParagraph {
                lines: vec![
                    TextLayoutLine {
                        words: vec![
                            word("Bonjour", Some(" "), Some(geometry)),
                            word("monde", None, Some(Geometry { bounding_box: None })),
                        ],
                        geometry: Some(geometry),
                    },
                    TextLayoutLine { words: vec![], geometry: None },
                ],
                geometry: Some(geometry),
            }],
        })),
    ];
    let client = LensClient::new(None);
    for response in responses {
        let body = response.encode_to_vec();
        for status in [200u16, 204, 299] {
            assert_eq!(client.receive_reply(status, &body), client.extract_text(response.clone()));
            assert_eq!(interpret_reply(status, &body), client.extract_text(response.clone()));
        }
    }
}
