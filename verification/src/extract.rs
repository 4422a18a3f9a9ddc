//! From a decoded response to plain text.
//!
//! The text of a response is the text of its paragraphs, in order; a paragraph
//! is its lines, each followed by a line break, and then one more line break;
//! a line is its words, each followed by its separator where it has one.
//! Leading and trailing white space is removed from the whole. A response
//! that lacks any level of this structure has no text.

use vstd::prelude::*;
use vstd::string::StringExecFns;
use crate::error::LensError;
use crate::proto::{
    LensOverlayServerResponse, LensOverlayServerResponseView, TextLayout, TextLayoutLine,
    TextLayoutLineView, TextLayoutParagraph, TextLayoutParagraphView, TextLayoutView,
    TextLayoutWord, TextLayoutWordView,
};
use crate::member::{canonical_all, views};
use crate::message::WireModel;

verus! {

/// The line break that ends a line and a paragraph.
pub open spec fn line_break() -> Seq<char> {
    seq!['\n']
}

/// The text of a word: its plain text, then its separator if it has one.
pub open spec fn word_text(word: TextLayoutWordView) -> Seq<char> {
    match word.text_separator {
        Some(separator) => word.plain_text + separator,
        None => word.plain_text,
    }
}

/// The text of a run of words, in order.
pub open spec fn words_text(words: Seq<TextLayoutWordView>) -> Seq<char>
    decreases words.len(),
{
    if words.len() == 0 {
        Seq::empty()
    } else {
        words_text(words.drop_last()) + word_text(words.last())
    }
}

/// The text of a line: its words, then a line break.
pub open spec fn line_text(line: TextLayoutLineView) -> Seq<char> {
    words_text(line.words) + line_break()
}

/// The text of a run of lines, in order.
pub open spec fn lines_text(lines: Seq<TextLayoutLineView>) -> Seq<char>
    decreases lines.len(),
{
    if lines.len() == 0 {
        Seq::empty()
    } else {
        lines_text(lines.drop_last()) + line_text(lines.last())
    }
}

/// The text of a paragraph: its lines, then a line break.
pub open spec fn paragraph_text(paragraph: TextLayoutParagraphView) -> Seq<char> {
    lines_text(paragraph.lines) + line_break()
}

/// The text of a run of paragraphs, in order.
pub open spec fn paragraphs_text(paragraphs: Seq<TextLayoutParagraphView>) -> Seq<char>
    decreases paragraphs.len(),
{
    if paragraphs.len() == 0 {
        Seq::empty()
    } else {
        paragraphs_text(paragraphs.drop_last()) + paragraph_text(paragraphs.last())
    }
}

/// The layout of the text of a response, where every level down to it is
/// present.
pub open spec fn layout_of(response: LensOverlayServerResponseView) -> Option<TextLayoutView> {
    match response.objects_response {
        Some(objects) => match objects.text {
            Some(text) => text.text_layout,
            None => None,
        },
        None => None,
    }
}

/// The text of a response before trimming.
pub open spec fn response_text(response: LensOverlayServerResponseView) -> Seq<char> {
    match layout_of(response) {
        Some(layout) => paragraphs_text(layout.paragraphs),
        None => Seq::empty(),
    }
}

/// Whether a character is white space: the characters that Unicode gives
/// the property `White_Space`.
pub open spec fn is_white_space(c: char) -> bool {
    let code = c as u32;
    ||| 0x09 <= code <= 0x0D
    ||| code == 0x20
    ||| code == 0x85
    ||| code == 0xA0
    ||| code == 0x1680
    ||| 0x2000 <= code <= 0x200A
    ||| code == 0x2028
    ||| code == 0x2029
    ||| code == 0x202F
    ||| code == 0x205F
    ||| code == 0x3000
}

/// Whether a text holds nothing but white space.
pub open spec fn is_blank(text: Seq<char>) -> bool {
    forall|i: int| 0 <= i < text.len() ==> is_white_space(#[trigger] text[i])
}

/// `text` without the white space at its start.
pub open spec fn trim_start(text: Seq<char>) -> Seq<char>
    decreases text.len(),
{
    if text.len() > 0 && is_white_space(text[0]) {
        trim_start(text.drop_first())
    } else {
        text
    }
}

/// `text` without the white space at its end.
pub open spec fn trim_end(text: Seq<char>) -> Seq<char>
    decreases text.len(),
{
    if text.len() > 0 && is_white_space(text.last()) {
        trim_end(text.drop_last())
    } else {
        text
    }
}

/// `text` without the white space at its start and at its end.
pub open spec fn trimmed(text: Seq<char>) -> Seq<char> {
    trim_end(trim_start(text))
}

/// The text that is extracted from a response, or `None` where nothing but
/// white space was recognized.
pub open spec fn extracted(response: LensOverlayServerResponseView) -> Option<Seq<char>> {
    let text = trimmed(response_text(response));
    if text.len() == 0 {
        None
    } else {
        Some(text)
    }
}

/// Tells whether a character is white space.
pub fn is_whitespace_char(c: char) -> (b: bool)
    ensures
        b == is_white_space(c),
{
    let code: u32 = c as u32;
    (0x09 <= code && code <= 0x0D) || code == 0x20 || code == 0x85 || code == 0xA0 || code
        == 0x1680 || (0x2000 <= code && code <= 0x200A) || code == 0x2028 || code == 0x2029
        || code == 0x202F || code == 0x205F || code == 0x3000
}

/// Removes the white space at both ends of `text`.
///
/// Trusted: `str::trim` returns the part of the string that is left once
/// leading and trailing white space is removed, where white space is what
/// Unicode gives the property `White_Space`.
#[verifier::external_body]
fn trim_text(text: &str) -> (r: &str)
    ensures
        r@ == trimmed(text@),
{
    text.trim()
}

/// Appends the text of one word to `out`.
fn push_word(out: &mut String, word: &TextLayoutWord)
    ensures
        final(out)@ == old(out)@ + word_text(word@),
{
    out.append(word.plain_text.as_str());
    match &word.text_separator {
        Some(separator) => {
            out.append(separator.as_str());
            assert(out@ =~= old(out)@ + word_text(word@));
        },
        None => {},
    }
}

/// Appends a line break to `out`.
fn push_line_break(out: &mut String)
    ensures
        final(out)@ == old(out)@ + line_break(),
{
    proof {
        reveal_strlit("\n");
    }
    out.append("\n");
    assert("\n"@ =~= line_break());
}

/// Appends the text of one line to `out`.
fn push_line(out: &mut String, line: &TextLayoutLine)
    ensures
        final(out)@ == old(out)@ + line_text(line@),
{
    let ghost words = line@.words;
    let mut i: usize = 0;
    assert(words.subrange(0, 0) =~= Seq::<TextLayoutWordView>::empty());
    assert(out@ =~= old(out)@ + words_text(words.subrange(0, 0)));
    while i < line.words.len()
        invariant
            i <= line.words@.len(),
            words == views(line.words@),
            out@ == old(out)@ + words_text(words.subrange(0, i as int)),
        decreases line.words@.len() - i,
    {
        push_word(out, &line.words[i]);
        proof {
            let prefix = words.subrange(0, i + 1);
            assert(prefix.drop_last() =~= words.subrange(0, i as int));
            assert(prefix.last() == line.words@[i as int]@);
            assert(out@ =~= old(out)@ + words_text(prefix));
        }
        i = i + 1;
    }
    assert(words.subrange(0, i as int) =~= words);
    push_line_break(out);
    assert(out@ =~= old(out)@ + line_text(line@));
}

/// Appends the text of one paragraph to `out`.
fn push_paragraph(out: &mut String, paragraph: &TextLayoutParagraph)
    ensures
        final(out)@ == old(out)@ + paragraph_text(paragraph@),
{
    let ghost lines = paragraph@.lines;
    let mut i: usize = 0;
    assert(lines.subrange(0, 0) =~= Seq::<TextLayoutLineView>::empty());
    assert(out@ =~= old(out)@ + lines_text(lines.subrange(0, 0)));
    while i < paragraph.lines.len()
        invariant
            i <= paragraph.lines@.len(),
            lines == views(paragraph.lines@),
            out@ == old(out)@ + lines_text(lines.subrange(0, i as int)),
        decreases paragraph.lines@.len() - i,
    {
        push_line(out, &paragraph.lines[i]);
        proof {
            let prefix = lines.subrange(0, i + 1);
            assert(prefix.drop_last() =~= lines.subrange(0, i as int));
            assert(prefix.last() == paragraph.lines@[i as int]@);
            assert(out@ =~= old(out)@ + lines_text(prefix));
        }
        i = i + 1;
    }
    assert(lines.subrange(0, i as int) =~= lines);
    push_line_break(out);
    assert(out@ =~= old(out)@ + paragraph_text(paragraph@));
}

/// The text of a layout, paragraph after paragraph.
fn layout_text(layout: &TextLayout) -> (out: String)
    ensures
        out@ == paragraphs_text(layout@.paragraphs),
{
    let ghost paragraphs = layout@.paragraphs;
    let mut out = String::new();
    let mut i: usize = 0;
    assert(paragraphs.subrange(0, 0) =~= Seq::<TextLayoutParagraphView>::empty());
    assert(out@ =~= paragraphs_text(paragraphs.subrange(0, 0)));
    while i < layout.paragraphs.len()
        invariant
            i <= layout.paragraphs@.len(),
            paragraphs == views(layout.paragraphs@),
            out@ == paragraphs_text(paragraphs.subrange(0, i as int)),
        decreases layout.paragraphs@.len() - i,
    {
        push_paragraph(&mut out, &layout.paragraphs[i]);
        proof {
            let prefix = paragraphs.subrange(0, i + 1);
            assert(prefix.drop_last() =~= paragraphs.subrange(0, i as int));
            assert(prefix.last() == layout.paragraphs@[i as int]@);
        }
        i = i + 1;
    }
    assert(paragraphs.subrange(0, i as int) =~= paragraphs);
    out
}

/// The text of a response before trimming: empty where any level of the
/// structure is absent.
fn untrimmed_text(response: &LensOverlayServerResponse) -> (out: String)
    ensures
        out@ == response_text(response@),
{
    match &response.objects_response {
        Some(objects) => match &objects.text {
            Some(text) => match &text.text_layout {
                Some(layout) => layout_text(layout),
                None => String::new(),
            },
            None => String::new(),
        },
        None => String::new(),
    }
}

/// Extracts the recognized text from a response.
///
/// Succeeds with the trimmed text exactly when that text is not empty, and
/// fails with [`LensError::EmptyResult`] otherwise: never an empty success.
pub fn extract_text(response: LensOverlayServerResponse) -> (r: Result<String, LensError>)
    ensures
        match r {
            Ok(text) => extracted(response@) == Some(text@) && text@.len() > 0,
            Err(e) => e is EmptyResult && extracted(response@) is None,
        },
{
    let full_text = untrimmed_text(&response);
    let text = trim_text(full_text.as_str());
    if text.is_empty() {
        Err(LensError::EmptyResult)
    } else {
        Ok(text.to_owned())
    }
}

/// Document order, words: the text of two runs of words, one after the
/// other, is the text of the first followed by the text of the second.
pub proof fn lemma_words_text_concat(
    first: Seq<TextLayoutWordView>,
    second: Seq<TextLayoutWordView>,
)
    ensures
        words_text(first + second) == words_text(first) + words_text(second),
    decreases second.len(),
{
    if second.len() == 0 {
        assert(first + second =~= first);
        assert(words_text(first) + words_text(second) =~= words_text(first));
    } else {
        assert((first + second).drop_last() =~= first + second.drop_last());
        assert((first + second).last() == second.last());
        lemma_words_text_concat(first, second.drop_last());
        assert(words_text(first + second) =~= words_text(first) + words_text(second));
    }
}

/// Document order, lines: the text of two runs of lines, one after the
/// other, is the text of the first followed by the text of the second.
pub proof fn lemma_lines_text_concat(
    first: Seq<TextLayoutLineView>,
    second: Seq<TextLayoutLineView>,
)
    ensures
        lines_text(first + second) == lines_text(first) + lines_text(second),
    decreases second.len(),
{
    if second.len() == 0 {
        assert(first + second =~= first);
        assert(lines_text(first) + lines_text(second) =~= lines_text(first));
    } else {
        assert((first + second).drop_last() =~= first + second.drop_last());
        assert((first + second).last() == second.last());
        lemma_lines_text_concat(first, second.drop_last());
        assert(lines_text(first + second) =~= lines_text(first) + lines_text(second));
    }
}

/// Document order, paragraphs: the text of two runs of paragraphs, one after
/// the other, is the text of the first followed by the text of the second.
pub proof fn lemma_paragraphs_text_concat(
    first: Seq<TextLayoutParagraphView>,
    second: Seq<TextLayoutParagraphView>,
)
    ensures
        paragraphs_text(first + second) == paragraphs_text(first) + paragraphs_text(second),
    decreases second.len(),
{
    if second.len() == 0 {
        assert(first + second =~= first);
        assert(paragraphs_text(first) + paragraphs_text(second) =~= paragraphs_text(first));
    } else {
        assert((first + second).drop_last() =~= first + second.drop_last());
        assert((first + second).last() == second.last());
        lemma_paragraphs_text_concat(first, second.drop_last());
        assert(paragraphs_text(first + second) =~= paragraphs_text(first) + paragraphs_text(
            second,
        ));
    }
}

/// A response without a text layout yields no text.
pub proof fn lemma_absent_layout_is_empty(response: LensOverlayServerResponseView)
    requires
        layout_of(response) is None,
    ensures
        extracted(response) is None,
{
}

/// Whether a word adds nothing but white space: its plain text and its
/// separator, if any, are blank.
pub open spec fn word_is_blank(word: TextLayoutWordView) -> bool {
    &&& is_blank(word.plain_text)
    &&& match word.text_separator {
        Some(separator) => is_blank(separator),
        None => true,
    }
}

/// Whether every word of a layout is blank.
pub open spec fn layout_is_blank(layout: TextLayoutView) -> bool {
    forall|p: int, l: int, w: int|
        0 <= p < layout.paragraphs.len() && 0 <= l < layout.paragraphs[p].lines.len() && 0 <= w
            < layout.paragraphs[p].lines[l].words.len() ==> word_is_blank(
            #[trigger] layout.paragraphs[p].lines[l].words[w],
        )
}

/// Blank text trims to nothing.
pub proof fn lemma_blank_trims_to_nothing(text: Seq<char>)
    requires
        is_blank(text),
    ensures
        trimmed(text).len() == 0,
    decreases text.len(),
{
    if text.len() > 0 {
        assert(is_white_space(text[0]));
        let rest = text.drop_first();
        assert forall|i: int| 0 <= i < rest.len() implies is_white_space(#[trigger] rest[i]) by {
            assert(rest[i] == text[i + 1]);
        }
        lemma_blank_trims_to_nothing(rest);
    }
}

proof fn lemma_blank_concat(first: Seq<char>, second: Seq<char>)
    requires
        is_blank(first),
        is_blank(second),
    ensures
        is_blank(first + second),
{
}

proof fn lemma_blank_words(words: Seq<TextLayoutWordView>)
    requires
        forall|w: int| 0 <= w < words.len() ==> word_is_blank(#[trigger] words[w]),
    ensures
        is_blank(words_text(words)),
    decreases words.len(),
{
    if words.len() > 0 {
        let front = words.drop_last();
        assert forall|w: int| 0 <= w < front.len() implies word_is_blank(#[trigger] front[w]) by {
            assert(front[w] == words[w]);
        }
        lemma_blank_words(front);
        let word = words.last();
        assert(word_is_blank(word));
        match word.text_separator {
            Some(separator) => lemma_blank_concat(word.plain_text, separator),
            None => {},
        }
        lemma_blank_concat(words_text(front), word_text(word));
    }
}

proof fn lemma_blank_lines(lines: Seq<TextLayoutLineView>)
    requires
        forall|l: int, w: int|
            0 <= l < lines.len() && 0 <= w < lines[l].words.len() ==> word_is_blank(
                #[trigger] lines[l].words[w],
            ),
    ensures
        is_blank(lines_text(lines)),
    decreases lines.len(),
{
    if lines.len() > 0 {
        let front = lines.drop_last();
        assert forall|l: int, w: int|
            0 <= l < front.len() && 0 <= w < front[l].words.len() implies word_is_blank(
            #[trigger] front[l].words[w],
        ) by {
            assert(front[l] == lines[l]);
        }
        lemma_blank_lines(front);
        let line = lines.last();
        assert forall|w: int| 0 <= w < line.words.len() implies word_is_blank(
            #[trigger] line.words[w],
        ) by {
            assert(line == lines[lines.len() - 1]);
        }
        lemma_blank_words(line.words);
        lemma_blank_concat(words_text(line.words), line_break());
        lemma_blank_concat(lines_text(front), line_text(line));
    }
}

proof fn lemma_blank_paragraphs(paragraphs: Seq<TextLayoutParagraphView>)
    requires
        forall|p: int, l: int, w: int|
            0 <= p < paragraphs.len() && 0 <= l < paragraphs[p].lines.len() && 0 <= w
                < paragraphs[p].lines[l].words.len() ==> word_is_blank(
                #[trigger] paragraphs[p].lines[l].words[w],
            ),
    ensures
        is_blank(paragraphs_text(paragraphs)),
    decreases paragraphs.len(),
{
    if paragraphs.len() > 0 {
        let front = paragraphs.drop_last();
        assert forall|p: int, l: int, w: int|
            0 <= p < front.len() && 0 <= l < front[p].lines.len() && 0 <= w
                < front[p].lines[l].words.len() implies word_is_blank(
            #[trigger] front[p].lines[l].words[w],
        ) by {
            assert(front[p] == paragraphs[p]);
        }
        lemma_blank_paragraphs(front);
        let paragraph = paragraphs.last();
        assert forall|l: int, w: int|
            0 <= l < paragraph.lines.len() && 0 <= w
                < paragraph.lines[l].words.len() implies word_is_blank(
            #[trigger] paragraph.lines[l].words[w],
        ) by {
            assert(paragraph == paragraphs[paragraphs.len() - 1]);
        }
        lemma_blank_lines(paragraph.lines);
        lemma_blank_concat(lines_text(paragraph.lines), line_break());
        lemma_blank_concat(paragraphs_text(front), paragraph_text(paragraph));
    }
}

/// A response whose words are all blank yields no text.
pub proof fn lemma_blank_words_are_empty(response: LensOverlayServerResponseView)
    requires
        layout_of(response) matches Some(layout) ==> layout_is_blank(layout),
    ensures
        extracted(response) is None,
{
    match layout_of(response) {
        Some(layout) => {
            lemma_blank_paragraphs(layout.paragraphs);
            lemma_blank_trims_to_nothing(paragraphs_text(layout.paragraphs));
        },
        None => {},
    }
}

proof fn lemma_canonical_words_text(words: Seq<TextLayoutWordView>)
    ensures
        words_text(canonical_all(words)) == words_text(words),
    decreases words.len(),
{
    if words.len() > 0 {
        assert(canonical_all(words).drop_last() =~= canonical_all(words.drop_last()));
        lemma_canonical_words_text(words.drop_last());
    }
}

proof fn lemma_canonical_lines_text(lines: Seq<TextLayoutLineView>)
    ensures
        lines_text(canonical_all(lines)) == lines_text(lines),
    decreases lines.len(),
{
    if lines.len() > 0 {
        assert(canonical_all(lines).drop_last() =~= canonical_all(lines.drop_last()));
        lemma_canonical_lines_text(lines.drop_last());
        lemma_canonical_words_text(lines.last().words);
    }
}

proof fn lemma_canonical_paragraphs_text(paragraphs: Seq<TextLayoutParagraphView>)
    ensures
        paragraphs_text(canonical_all(paragraphs)) == paragraphs_text(paragraphs),
    decreases paragraphs.len(),
{
    if paragraphs.len() > 0 {
        assert(canonical_all(paragraphs).drop_last() =~= canonical_all(paragraphs.drop_last()));
        lemma_canonical_paragraphs_text(paragraphs.drop_last());
        lemma_canonical_lines_text(paragraphs.last().lines);
    }
}

/// The text of a response does not depend on the sign of a zero: a response
/// and what is read back of it once it was written yield the same text.
pub proof fn lemma_canonical_keeps_text(response: LensOverlayServerResponseView)
    ensures
        response_text(response.canonical()) == response_text(response),
        extracted(response.canonical()) == extracted(response),
{
    match layout_of(response) {
        Some(layout) => {
            lemma_canonical_paragraphs_text(layout.paragraphs);
        },
        None => {},
    }
}

} // verus!
