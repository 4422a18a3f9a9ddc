use chrome_lens_ocr::error::LensError;
use chrome_lens_ocr::extract::{extract_text, is_whitespace_char};
use chrome_lens_ocr::proto::{
    LensOverlayObjectsResponse, LensOverlayServerResponse, Text, TextLayout, TextLayoutLine,
    TextLayoutParagraph, TextLayoutWord,
};
use chrome_lens_ocr::LensClient;

fn word(text: &str, separator: Option<&str>) -> TextLayoutWord {
    TextLayoutWord {
        plain_text: text.to_string(),
        text_separator: separator.map(|s| s.to_string()),
        geometry: None,
    }
}

fn line(words: Vec<TextLayoutWord>) -> TextLayoutLine {
    TextLayoutLine { words, geometry: None }
}

fn paragraph(lines: Vec<TextLayoutLine>) -> TextLayoutParagraph {
    TextLayoutParagraph { lines, geometry: None }
}

fn response(paragraphs: Vec<TextLayoutParagraph>) -> LensOverlayServerResponse {
    LensOverlayServerResponse {
        objects_response: Some(LensOverlayObjectsResponse {
            text: Some(Text {
                text_layout: Some(TextLayout { paragraphs }),
                content_language: String::new(),
            }),
            deep_gleams: vec![],
        }),
    }
}

#[test]
fn words_are_joined_by_their_separators() {
    let r = response(vec![paragraph(vec![line(vec![
        word("Bonjour", Some(" ")),
        word("monde", None),
    ])])]);
    assert_eq!(extract_text(r), Ok("Bonjour monde".to_string()));
}

#[test]
fn a_word_of_one_space_separates_its_neighbours() {
    let r = response(vec![paragraph(vec![line(vec![
        word("Bonjour", None),
        word(" ", None),
        word("monde", None),
    ])])]);
    assert_eq!(extract_text(r), Ok("Bonjour monde".to_string()));
}

#[test]
fn an_empty_word_with_a_separator_separates_its_neighbours() {
    let r = response(vec![paragraph(vec![line(vec![
        word("Bonjour", None),
        word("", Some(" ")),
        word("monde", None),
    ])])]);
    assert_eq!(extract_text(r), Ok("Bonjour monde".to_string()));
}

#[test]
fn text_and_separator_of_a_word_are_both_kept() {
    let r = response(vec![paragraph(vec![line(vec![
        word("Bonjour", None),
        word(" ", Some(" ")),
        word("monde", None),
    ])])]);
    assert_eq!(extract_text(r), Ok("Bonjour  monde".to_string()));
}

#[test]
fn lines_end_with_a_break_and_paragraphs_with_a_blank_line() {
    let r = response(vec![
        paragraph(vec![
            line(vec![word("one", Some(" ")), word("two", None)]),
            line(vec![word("three", None)]),
        ]),
        paragraph(vec![line(vec![word("four", None)])]),
    ]);
    assert_eq!(extract_text(r), Ok("one two\nthree\n\nfour".to_string()));
}

#[test]
fn order_follows_the_document() {
    let first = paragraph(vec![line(vec![word("a", None)]), line(vec![word("b", None)])]);
    let second = paragraph(vec![line(vec![word("c", None), word("d", None)])]);
    let forward = extract_text(response(vec![first.clone(), second.clone()])).unwrap();
    let backward = extract_text(response(vec![second, first])).unwrap();
    assert_eq!(forward, "a\nb\n\ncd");
    assert_eq!(backward, "cd\n\na\nb");
}

#[test]
fn the_same_response_gives_the_same_text() {
    let r = response(vec![paragraph(vec![line(vec![word("same", Some(" ")), word("text", None)])])]);
    assert_eq!(extract_text(r.clone()), extract_text(r));
}

#[test]
fn surrounding_white_space_is_trimmed() {
    let r = response(vec![paragraph(vec![line(vec![
        word("\u{3000}\t padded", Some(" ")),
        word("text\u{2003}", Some("\r\n")),
    ])])]);
    assert_eq!(extract_text(r), Ok("padded text".to_string()));
}

#[test]
fn inner_white_space_is_kept() {
    let r = response(vec![paragraph(vec![line(vec![word("a \t b", None)])])]);
    assert_eq!(extract_text(r), Ok("a \t b".to_string()));
}

#[test]
fn a_zero_width_space_is_not_white_space() {
    let r = response(vec![paragraph(vec![line(vec![word("\u{200B}", None)])])]);
    assert_eq!(extract_text(r), Ok("\u{200B}".to_string()));
}

#[test]
fn absent_objects_response_is_an_empty_result() {
    let r = LensOverlayServerResponse { objects_response: None };
    assert_eq!(extract_text(r), Err(LensError::EmptyResult));
}

#[test]
fn absent_text_is_an_empty_result() {
    let r = LensOverlayServerResponse {
        objects_response: Some(LensOverlayObjectsResponse { text: None, deep_gleams: vec![] }),
    };
    assert_eq!(extract_text(r), Err(LensError::EmptyResult));
}

#[test]
fn absent_layout_is_an_empty_result() {
    let r = LensOverlayServerResponse {
        objects_response: Some(LensOverlayObjectsResponse {
            text: Some(Text { text_layout: None, content_language: "fr".to_string() }),
            deep_gleams: vec![],
        }),
    };
    assert_eq!(extract_text(r), Err(LensError::EmptyResult));
}

#[test]
fn a_layout_without_paragraphs_is_an_empty_result() {
    assert_eq!(extract_text(response(vec![])), Err(LensError::EmptyResult));
}

#[test]
fn blank_words_are_an_empty_result() {
    let r = response(vec![
        paragraph(vec![line(vec![word("", None), word(" ", Some("\t")), word("\u{00A0}", None)])]),
        paragraph(vec![line(vec![])]),
        paragraph(vec![]),
    ]);
    assert_eq!(extract_text(r), Err(LensError::EmptyResult));
}

#[test]
fn the_client_extracts_the_same_text() {
    let client = LensClient::new(None);
    let r = response(vec![paragraph(vec![line(vec![word("texte", None)])])]);
    assert_eq!(client.extract_text(r), Ok("texte".to_string()));
    let empty = LensOverlayServerResponse { objects_response: None };
    assert_eq!(client.extract_text(empty), Err(LensError::EmptyResult));
}

#[test]
fn white_space_is_what_the_standard_library_says() {
    for code in 0u32..=0x10FFFF {
        if let Some(c) = char::from_u32(code) {
            assert_eq!(is_whitespace_char(c), c.is_whitespace(), "U+{:04X}", code);
        }
    }
}

#[test]
fn every_white_space_character_is_trimmed_at_both_ends() {
    for code in 0u32..=0x10FFFF {
        if let Some(c) = char::from_u32(code) {
            if c.is_whitespace() {
                let text = format!("{}x{}", c, c);
                let r = response(vec![paragraph(vec![line(vec![word(&text, None)])])]);
                assert_eq!(extract_text(r), Ok("x".to_string()), "U+{:04X}", code);
            }
        }
    }
}
