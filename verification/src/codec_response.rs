//! Wire form of the response messages.

use vstd::prelude::*;
use crate::message::{
    decoded, encoded, lemma_decode_encode, lemma_merge_fields_concat, merge_fields, Message,
    WireLaws, WireModel,
};
use crate::proto::{
    CenterRotatedBox, DeepGleamData, DeepGleamDataView, Geometry, LensOverlayObjectsResponse,
    LensOverlayObjectsResponseView, LensOverlayServerResponse, LensOverlayServerResponseView,
    Text, TextLayout, TextLayoutLine, TextLayoutLineView, TextLayoutParagraph,
    TextLayoutParagraphView, TextLayoutView, TextLayoutWord, TextLayoutWordView, TextView,
    TranslationData, TranslationDataView, TranslationStatusMsg,
};
use crate::member::{
    canonical_all, canonical_option, exact_all, exact_option, float_fields, int32_fields,
    lemma_exact_all_is_canonical, lemma_exact_option_is_canonical, lemma_int32_reads_back,
    lemma_merge_none, lemma_merge_short, lemma_message_reads_back, lemma_parts_within,
    lemma_repeated_first, lemma_string_reads_back, lemma_written_start, message_fields,
    optional_string_fields, put_float, put_int32, put_message, put_optional_string,
    put_repeated, put_string, read_float, read_int32, read_message, read_optional,
    read_string, repeated_fields, skip_unknown, skipped, string_fields, take_float,
    take_int32, take_message, take_optional, take_string, views, Float32, NEGATIVE_ZERO_BITS,
};
use crate::wire::{fields_bytes, DecodeError, Field, FieldRef};

verus! {

impl WireModel for CenterRotatedBox {
    open spec fn blank() -> Self {
        CenterRotatedBox {
            center_x: Float32 { bits: 0 },
            center_y: Float32 { bits: 0 },
            width: Float32 { bits: 0 },
            height: Float32 { bits: 0 },
            rotation_z: Float32 { bits: 0 },
        }
    }

    open spec fn fields(self) -> Seq<Field> {
        float_fields(1, self.center_x) + float_fields(2, self.center_y) + float_fields(
            3,
            self.width,
        ) + float_fields(4, self.height) + float_fields(5, self.rotation_z)
    }

    open spec fn merge_field(self, field: Field, budget: nat) -> Option<Self> {
        if field.number == 1 {
            match read_float(field.payload) {
                Some(center_x) => Some(CenterRotatedBox { center_x, ..self }),
                None => None,
            }
        } else if field.number == 2 {
            match read_float(field.payload) {
                Some(center_y) => Some(CenterRotatedBox { center_y, ..self }),
                None => None,
            }
        } else if field.number == 3 {
            match read_float(field.payload) {
                Some(width) => Some(CenterRotatedBox { width, ..self }),
                None => None,
            }
        } else if field.number == 4 {
            match read_float(field.payload) {
                Some(height) => Some(CenterRotatedBox { height, ..self }),
                None => None,
            }
        } else if field.number == 5 {
            match read_float(field.payload) {
                Some(rotation_z) => Some(CenterRotatedBox { rotation_z, ..self }),
                None => None,
            }
        } else {
            skipped(self, budget)
        }
    }

    open spec fn depth() -> nat {
        0
    }

    open spec fn canonical(self) -> Self {
        CenterRotatedBox {
            center_x: self.center_x.canonical(),
            center_y: self.center_y.canonical(),
            width: self.width.canonical(),
            height: self.height.canonical(),
            rotation_z: self.rotation_z.canonical(),
        }
    }

    open spec fn exact(self) -> bool {
        &&& self.center_x.bits != NEGATIVE_ZERO_BITS
        &&& self.center_y.bits != NEGATIVE_ZERO_BITS
        &&& self.width.bits != NEGATIVE_ZERO_BITS
        &&& self.height.bits != NEGATIVE_ZERO_BITS
        &&& self.rotation_z.bits != NEGATIVE_ZERO_BITS
    }
}

impl WireLaws for CenterRotatedBox {
    proof fn lemma_depth_fits() {
    }

    proof fn lemma_exact_is_canonical(self) {
    }

    proof fn lemma_fields_round_trip(self, budget: nat) {
        let f1 = float_fields(1, self.center_x);
        let f2 = float_fields(2, self.center_y);
        let f3 = float_fields(3, self.width);
        let f4 = float_fields(4, self.height);
        let f5 = float_fields(5, self.rotation_z);
        let a0 = Self::blank();
        let a1 = CenterRotatedBox { center_x: self.center_x.canonical(), ..a0 };
        let a2 = CenterRotatedBox { center_y: self.center_y.canonical(), ..a1 };
        let a3 = CenterRotatedBox { width: self.width.canonical(), ..a2 };
        let a4 = CenterRotatedBox { height: self.height.canonical(), ..a3 };
        assert(merge_fields(a0, f1, budget) == Some(a1)) by {
            lemma_merge_short(a0, f1, budget);
        }
        assert(merge_fields(a1, f2, budget) == Some(a2)) by {
            lemma_merge_short(a1, f2, budget);
        }
        assert(merge_fields(a2, f3, budget) == Some(a3)) by {
            lemma_merge_short(a2, f3, budget);
        }
        assert(merge_fields(a3, f4, budget) == Some(a4)) by {
            lemma_merge_short(a3, f4, budget);
        }
        assert(merge_fields(a4, f5, budget) == Some(self.canonical())) by {
            lemma_merge_short(a4, f5, budget);
        }
        lemma_merge_fields_concat(a0, f1, f2, budget);
        lemma_merge_fields_concat(a0, f1 + f2, f3, budget);
        lemma_merge_fields_concat(a0, f1 + f2 + f3, f4, budget);
        lemma_merge_fields_concat(a0, f1 + f2 + f3 + f4, f5, budget);
    }
}

impl Message for CenterRotatedBox {
    fn empty() -> Self {
        CenterRotatedBox {
            center_x: Float32::zero(),
            center_y: Float32::zero(),
            width: Float32::zero(),
            height: Float32::zero(),
            rotation_z: Float32::zero(),
        }
    }

    fn encode_raw(&self, out: &mut Vec<u8>) {
        let ghost base = out@;
        let ghost f1 = float_fields(1, self.center_x);
        let ghost f2 = float_fields(2, self.center_y);
        let ghost f3 = float_fields(3, self.width);
        let ghost f4 = float_fields(4, self.height);
        proof {
            lemma_written_start(out@);
        }
        put_float(out, 1, self.center_x, Ghost(base), Ghost(Seq::empty()));
        put_float(out, 2, self.center_y, Ghost(base), Ghost(Seq::empty() + f1));
        put_float(out, 3, self.width, Ghost(base), Ghost(Seq::empty() + f1 + f2));
        put_float(out, 4, self.height, Ghost(base), Ghost(Seq::empty() + f1 + f2 + f3));
        put_float(out, 5, self.rotation_z, Ghost(base), Ghost(Seq::empty() + f1 + f2 + f3 + f4));
        assert(Seq::empty() + f1 + f2 + f3 + f4 + float_fields(5, self.rotation_z)
            =~= self@.fields());
    }

    fn merge_field(self, field: FieldRef<'_>, budget: u32) -> Result<Self, DecodeError> {
        let mut message = self;
        if field.number == 1 {
            message.center_x = take_float(field.payload)?;
        } else if field.number == 2 {
            message.center_y = take_float(field.payload)?;
        } else if field.number == 3 {
            message.width = take_float(field.payload)?;
        } else if field.number == 4 {
            message.height = take_float(field.payload)?;
        } else if field.number == 5 {
            message.rotation_z = take_float(field.payload)?;
        } else {
            skip_unknown(budget)?;
        }
        Ok(message)
    }
}

impl WireModel for Geometry {
    open spec fn blank() -> Self {
        Geometry { bounding_box: None }
    }

    open spec fn fields(self) -> Seq<Field> {
        message_fields(1, self.bounding_box)
    }

    open spec fn merge_field(self, field: Field, budget: nat) -> Option<Self> {
        if field.number == 1 {
            match read_optional(self.bounding_box, field.payload, budget) {
                Some(bounding_box) => Some(Geometry { bounding_box: Some(bounding_box) }),
                None => None,
            }
        } else {
            skipped(self, budget)
        }
    }

    open spec fn depth() -> nat {
        1
    }

    open spec fn canonical(self) -> Self {
        Geometry { bounding_box: canonical_option(self.bounding_box) }
    }

    open spec fn exact(self) -> bool {
        exact_option(self.bounding_box)
    }
}

impl WireLaws for Geometry {
    proof fn lemma_depth_fits() {
    }

    proof fn lemma_exact_is_canonical(self) {
        lemma_exact_option_is_canonical(self.bounding_box);
    }

    proof fn lemma_fields_round_trip(self, budget: nat) {
        let f1 = message_fields(1, self.bounding_box);
        let a0 = Self::blank();
        assert(merge_fields(a0, f1, budget) == Some(self.canonical())) by {
            lemma_merge_short(a0, f1, budget);
            if let Some(bounding_box) = self.bounding_box {
                lemma_message_reads_back(bounding_box, 1, budget);
            }
        }
    }
}

impl Message for Geometry {
    fn empty() -> Self {
        Geometry { bounding_box: None }
    }

    fn encode_raw(&self, out: &mut Vec<u8>) {
        let ghost base = out@;
        proof {
            lemma_written_start(out@);
        }
        put_message(out, 1, &self.bounding_box, Ghost(base), Ghost(Seq::empty()));
        assert(Seq::empty() + message_fields(1, self@.bounding_box) =~= self@.fields());
    }

    fn merge_field(self, field: FieldRef<'_>, budget: u32) -> Result<Self, DecodeError> {
        let mut message = self;
        if field.number == 1 {
            let current = message.bounding_box.take();
            message.bounding_box = Some(take_optional(current, field.payload, budget)?);
        } else {
            skip_unknown(budget)?;
        }
        Ok(message)
    }
}

impl WireModel for TextLayoutWordView {
    open spec fn blank() -> Self {
        TextLayoutWordView { plain_text: Seq::empty(), text_separator: None, geometry: None }
    }

    open spec fn fields(self) -> Seq<Field> {
        string_fields(2, self.plain_text) + optional_string_fields(3, self.text_separator)
            + message_fields(4, self.geometry)
    }

    open spec fn merge_field(self, field: Field, budget: nat) -> Option<Self> {
        if field.number == 2 {
            match read_string(field.payload) {
                Some(plain_text) => Some(TextLayoutWordView { plain_text, ..self }),
                None => None,
            }
        } else if field.number == 3 {
            match read_string(field.payload) {
                Some(separator) => Some(
                    TextLayoutWordView { text_separator: Some(separator), ..self },
                ),
                None => None,
            }
        } else if field.number == 4 {
            match read_optional(self.geometry, field.payload, budget) {
                Some(geometry) => Some(TextLayoutWordView { geometry: Some(geometry), ..self }),
                None => None,
            }
        } else {
            skipped(self, budget)
        }
    }

    open spec fn depth() -> nat {
        2
    }

    open spec fn canonical(self) -> Self {
        TextLayoutWordView { geometry: canonical_option(self.geometry), ..self }
    }

    open spec fn exact(self) -> bool {
        exact_option(self.geometry)
    }
}

impl WireLaws for TextLayoutWordView {
    proof fn lemma_depth_fits() {
    }

    proof fn lemma_exact_is_canonical(self) {
        lemma_exact_option_is_canonical(self.geometry);
    }

    proof fn lemma_fields_round_trip(self, budget: nat) {
        let f1 = string_fields(2, self.plain_text);
        let f2 = optional_string_fields(3, self.text_separator);
        let f3 = message_fields(4, self.geometry);
        let a0 = Self::blank();
        let a1 = TextLayoutWordView { plain_text: self.plain_text, ..a0 };
        let a2 = TextLayoutWordView { text_separator: self.text_separator, ..a1 };
        assert(merge_fields(a0, f1, budget) == Some(a1)) by {
            lemma_merge_short(a0, f1, budget);
            lemma_string_reads_back(self.plain_text);
            assert(self.plain_text.len() == 0 ==> self.plain_text =~= Seq::<char>::empty());
        }
        assert(merge_fields(a1, f2, budget) == Some(a2)) by {
            lemma_merge_short(a1, f2, budget);
            if let Some(separator) = self.text_separator {
                lemma_string_reads_back(separator);
            }
        }
        assert(merge_fields(a2, f3, budget) == Some(self.canonical())) by {
            lemma_merge_short(a2, f3, budget);
            lemma_parts_within(f1 + f2, f3);
            if let Some(geometry) = self.geometry {
                lemma_message_reads_back(geometry, 4, budget);
            }
        }
        lemma_merge_fields_concat(a0, f1, f2, budget);
        lemma_merge_fields_concat(a0, f1 + f2, f3, budget);
    }
}

impl Message for TextLayoutWord {
    fn empty() -> Self {
        TextLayoutWord { plain_text: String::new(), text_separator: None, geometry: None }
    }

    fn encode_raw(&self, out: &mut Vec<u8>) {
        let ghost base = out@;
        let ghost f1 = string_fields(2, self.plain_text@);
        let ghost f2 = optional_string_fields(3, self@.text_separator);
        proof {
            lemma_written_start(out@);
        }
        put_string(out, 2, self.plain_text.as_str(), Ghost(base), Ghost(Seq::empty()));
        put_optional_string(out, 3, &self.text_separator, Ghost(base), Ghost(Seq::empty() + f1));
        put_message(out, 4, &self.geometry, Ghost(base), Ghost(Seq::empty() + f1 + f2));
        assert(Seq::empty() + f1 + f2 + message_fields(4, self@.geometry) =~= self@.fields());
    }

    fn merge_field(self, field: FieldRef<'_>, budget: u32) -> Result<Self, DecodeError> {
        let mut message = self;
        if field.number == 2 {
            message.plain_text = take_string(field.payload)?;
        } else if field.number == 3 {
            message.text_separator = Some(take_string(field.payload)?);
        } else if field.number == 4 {
            let current = message.geometry.take();
            message.geometry = Some(take_optional(current, field.payload, budget)?);
        } else {
            skip_unknown(budget)?;
        }
        Ok(message)
    }
}

impl WireModel for TextLayoutLineView {
    open spec fn blank() -> Self {
        TextLayoutLineView { words: Seq::empty(), geometry: None }
    }

    open spec fn fields(self) -> Seq<Field> {
        repeated_fields(1, self.words) + message_fields(2, self.geometry)
    }

    open spec fn merge_field(self, field: Field, budget: nat) -> Option<Self> {
        if field.number == 1 {
            match read_message(TextLayoutWordView::blank(), field.payload, budget) {
                Some(word) => Some(TextLayoutLineView { words: self.words.push(word), ..self }),
                None => None,
            }
        } else if field.number == 2 {
            match read_optional(self.geometry, field.payload, budget) {
                Some(geometry) => Some(TextLayoutLineView { geometry: Some(geometry), ..self }),
                None => None,
            }
        } else {
            skipped(self, budget)
        }
    }

    open spec fn depth() -> nat {
        3
    }

    open spec fn canonical(self) -> Self {
        TextLayoutLineView {
            words: canonical_all(self.words),
            geometry: canonical_option(self.geometry),
        }
    }

    open spec fn exact(self) -> bool {
        exact_all(self.words) && exact_option(self.geometry)
    }
}

/// Merging the fields of a run of words appends the words, as they are read
/// back.
proof fn lemma_words_round_trip(
    acc: TextLayoutLineView,
    words: Seq<TextLayoutWordView>,
    budget: nat,
)
    requires
        fields_bytes(repeated_fields(1, words)).len() <= u64::MAX,
        budget >= 3,
    ensures
        merge_fields(acc, repeated_fields(1, words), budget) == Some(
            TextLayoutLineView { words: acc.words + canonical_all(words), ..acc },
        ),
    decreases words.len(),
{
    if words.len() == 0 {
        assert(acc.words + canonical_all(words) =~= acc.words);
        assert(repeated_fields(1, words) =~= Seq::<Field>::empty());
        lemma_merge_none(acc, budget);
    } else {
        lemma_repeated_first(1, words, budget);
        let next = TextLayoutLineView { words: acc.words.push(words[0].canonical()), ..acc };
        lemma_words_round_trip(next, words.skip(1), budget);
        assert(next.words + canonical_all(words.skip(1)) =~= acc.words + canonical_all(words));
    }
}

impl WireLaws for TextLayoutLineView {
    proof fn lemma_depth_fits() {
    }

    proof fn lemma_exact_is_canonical(self) {
        lemma_exact_all_is_canonical(self.words);
        lemma_exact_option_is_canonical(self.geometry);
    }

    proof fn lemma_fields_round_trip(self, budget: nat) {
        let f1 = repeated_fields(1, self.words);
        let f2 = message_fields(2, self.geometry);
        let a0 = Self::blank();
        let a1 = TextLayoutLineView { words: canonical_all(self.words), ..a0 };
        lemma_parts_within(f1, f2);
        assert(merge_fields(a0, f1, budget) == Some(a1)) by {
            lemma_words_round_trip(a0, self.words, budget);
            assert(a0.words + canonical_all(self.words) =~= canonical_all(self.words));
        }
        assert(merge_fields(a1, f2, budget) == Some(self.canonical())) by {
            lemma_merge_short(a1, f2, budget);
            if let Some(geometry) = self.geometry {
                lemma_message_reads_back(geometry, 2, budget);
            }
        }
        lemma_merge_fields_concat(a0, f1, f2, budget);
    }
}

impl Message for TextLayoutLine {
    fn empty() -> Self {
        let line = TextLayoutLine { words: Vec::new(), geometry: None };
        assert(views(line.words@) =~= Seq::<TextLayoutWordView>::empty());
        line
    }

    fn encode_raw(&self, out: &mut Vec<u8>) {
        let ghost base = out@;
        let ghost f1 = repeated_fields(1, self@.words);
        proof {
            lemma_written_start(out@);
        }
        put_repeated(out, 1, &self.words, Ghost(base), Ghost(Seq::empty()));
        put_message(out, 2, &self.geometry, Ghost(base), Ghost(Seq::empty() + f1));
        assert(Seq::empty() + f1 + message_fields(2, self@.geometry) =~= self@.fields());
    }

    fn merge_field(self, field: FieldRef<'_>, budget: u32) -> Result<Self, DecodeError> {
        let mut message = self;
        if field.number == 1 {
            let word = take_message(TextLayoutWord::empty(), field.payload, budget)?;
            let ghost before = message.words@;
            message.words.push(word);
            assert(views(message.words@) =~= views(before).push(word@));
        } else if field.number == 2 {
            let current = message.geometry.take();
            message.geometry = Some(take_optional(current, field.payload, budget)?);
        } else {
            skip_unknown(budget)?;
        }
        Ok(message)
    }
}

impl WireModel for TextLayoutParagraphView {
    open spec fn blank() -> Self {
        TextLayoutParagraphView { lines: Seq::empty(), geometry: None }
    }

    open spec fn fields(self) -> Seq<Field> {
        repeated_fields(2, self.lines) + message_fields(3, self.geometry)
    }

    open spec fn merge_field(self, field: Field, budget: nat) -> Option<Self> {
        if field.number == 2 {
            match read_message(TextLayoutLineView::blank(), field.payload, budget) {
                Some(line) => Some(
                    TextLayoutParagraphView { lines: self.lines.push(line), ..self },
                ),
                None => None,
            }
        } else if field.number == 3 {
            match read_optional(self.geometry, field.payload, budget) {
                Some(geometry) => Some(
                    TextLayoutParagraphView { geometry: Some(geometry), ..self },
                ),
                None => None,
            }
        } else {
            skipped(self, budget)
        }
    }

    open spec fn depth() -> nat {
        4
    }

    open spec fn canonical(self) -> Self {
        TextLayoutParagraphView {
            lines: canonical_all(self.lines),
            geometry: canonical_option(self.geometry),
        }
    }

    open spec fn exact(self) -> bool {
        exact_all(self.lines) && exact_option(self.geometry)
    }
}

/// Merging the fields of a run of lines appends the lines, as they are read
/// back.
proof fn lemma_lines_round_trip(
    acc: TextLayoutParagraphView,
    lines: Seq<TextLayoutLineView>,
    budget: nat,
)
    requires
        fields_bytes(repeated_fields(2, lines)).len() <= u64::MAX,
        budget >= 4,
    ensures
        merge_fields(acc, repeated_fields(2, lines), budget) == Some(
            TextLayoutParagraphView { lines: acc.lines + canonical_all(lines), ..acc },
        ),
    decreases lines.len(),
{
    if lines.len() == 0 {
        assert(acc.lines + canonical_all(lines) =~= acc.lines);
        assert(repeated_fields(2, lines) =~= Seq::<Field>::empty());
        lemma_merge_none(acc, budget);
    } else {
        lemma_repeated_first(2, lines, budget);
        let next = TextLayoutParagraphView { lines: acc.lines.push(lines[0].canonical()), ..acc };
        lemma_lines_round_trip(next, lines.skip(1), budget);
        assert(next.lines + canonical_all(lines.skip(1)) =~= acc.lines + canonical_all(lines));
    }
}

impl WireLaws for TextLayoutParagraphView {
    proof fn lemma_depth_fits() {
    }

    proof fn lemma_exact_is_canonical(self) {
        lemma_exact_all_is_canonical(self.lines);
        lemma_exact_option_is_canonical(self.geometry);
    }

    proof fn lemma_fields_round_trip(self, budget: nat) {
        let f1 = repeated_fields(2, self.lines);
        let f2 = message_fields(3, self.geometry);
        let a0 = Self::blank();
        let a1 = TextLayoutParagraphView { lines: canonical_all(self.lines), ..a0 };
        lemma_parts_within(f1, f2);
        assert(merge_fields(a0, f1, budget) == Some(a1)) by {
            lemma_lines_round_trip(a0, self.lines, budget);
            assert(a0.lines + canonical_all(self.lines) =~= canonical_all(self.lines));
        }
        assert(merge_fields(a1, f2, budget) == Some(self.canonical())) by {
            lemma_merge_short(a1, f2, budget);
            if let Some(geometry) = self.geometry {
                lemma_message_reads_back(geometry, 3, budget);
            }
        }
        lemma_merge_fields_concat(a0, f1, f2, budget);
    }
}

impl Message for TextLayoutParagraph {
    fn empty() -> Self {
        let paragraph = TextLayoutParagraph { lines: Vec::new(), geometry: None };
        assert(views(paragraph.lines@) =~= Seq::<TextLayoutLineView>::empty());
        paragraph
    }

    fn encode_raw(&self, out: &mut Vec<u8>) {
        let ghost base = out@;
        let ghost f1 = repeated_fields(2, self@.lines);
        proof {
            lemma_written_start(out@);
        }
        put_repeated(out, 2, &self.lines, Ghost(base), Ghost(Seq::empty()));
        put_message(out, 3, &self.geometry, Ghost(base), Ghost(Seq::empty() + f1));
        assert(Seq::empty() + f1 + message_fields(3, self@.geometry) =~= self@.fields());
    }

    fn merge_field(self, field: FieldRef<'_>, budget: u32) -> Result<Self, DecodeError> {
        let mut message = self;
        if field.number == 2 {
            let line = take_message(TextLayoutLine::empty(), field.payload, budget)?;
            let ghost before = message.lines@;
            message.lines.push(line);
            assert(views(message.lines@) =~= views(before).push(line@));
        } else if field.number == 3 {
            let current = message.geometry.take();
            message.geometry = Some(take_optional(current, field.payload, budget)?);
        } else {
            skip_unknown(budget)?;
        }
        Ok(message)
    }
}

impl WireModel for TextLayoutView {
    open spec fn blank() -> Self {
        TextLayoutView { paragraphs: Seq::empty() }
    }

    open spec fn fields(self) -> Seq<Field> {
        repeated_fields(1, self.paragraphs)
    }

    open spec fn merge_field(self, field: Field, budget: nat) -> Option<Self> {
        if field.number == 1 {
            match read_message(TextLayoutParagraphView::blank(), field.payload, budget) {
                Some(paragraph) => Some(
                    TextLayoutView { paragraphs: self.paragraphs.push(paragraph) },
                ),
                None => None,
            }
        } else {
            skipped(self, budget)
        }
    }

    open spec fn depth() -> nat {
        5
    }

    open spec fn canonical(self) -> Self {
        TextLayoutView { paragraphs: canonical_all(self.paragraphs) }
    }

    open spec fn exact(self) -> bool {
        exact_all(self.paragraphs)
    }
}

/// Merging the fields of a run of paragraphs appends the paragraphs, as they
/// are read back.
proof fn lemma_paragraphs_round_trip(
    acc: TextLayoutView,
    paragraphs: Seq<TextLayoutParagraphView>,
    budget: nat,
)
    requires
        fields_bytes(repeated_fields(1, paragraphs)).len() <= u64::MAX,
        budget >= 5,
    ensures
        merge_fields(acc, repeated_fields(1, paragraphs), budget) == Some(
            TextLayoutView { paragraphs: acc.paragraphs + canonical_all(paragraphs) },
        ),
    decreases paragraphs.len(),
{
    if paragraphs.len() == 0 {
        assert(acc.paragraphs + canonical_all(paragraphs) =~= acc.paragraphs);
        assert(repeated_fields(1, paragraphs) =~= Seq::<Field>::empty());
        lemma_merge_none(acc, budget);
    } else {
        lemma_repeated_first(1, paragraphs, budget);
        let next = TextLayoutView { paragraphs: acc.paragraphs.push(paragraphs[0].canonical()) };
        lemma_paragraphs_round_trip(next, paragraphs.skip(1), budget);
        assert(next.paragraphs + canonical_all(paragraphs.skip(1)) =~= acc.paragraphs
            + canonical_all(paragraphs));
    }
}

impl WireLaws for TextLayoutView {
    proof fn lemma_depth_fits() {
    }

    proof fn lemma_exact_is_canonical(self) {
        lemma_exact_all_is_canonical(self.paragraphs);
    }

    proof fn lemma_fields_round_trip(self, budget: nat) {
        let a0 = Self::blank();
        lemma_paragraphs_round_trip(a0, self.paragraphs, budget);
        assert(a0.paragraphs + canonical_all(self.paragraphs) =~= canonical_all(
            self.paragraphs,
        ));
    }
}

impl Message for TextLayout {
    fn empty() -> Self {
        let layout = TextLayout { paragraphs: Vec::new() };
        assert(views(layout.paragraphs@) =~= Seq::<TextLayoutParagraphView>::empty());
        layout
    }

    fn encode_raw(&self, out: &mut Vec<u8>) {
        let ghost base = out@;
        proof {
            lemma_written_start(out@);
        }
        put_repeated(out, 1, &self.paragraphs, Ghost(base), Ghost(Seq::empty()));
        assert(Seq::empty() + repeated_fields(1, self@.paragraphs) =~= self@.fields());
    }

    fn merge_field(self, field: FieldRef<'_>, budget: u32) -> Result<Self, DecodeError> {
        let mut message = self;
        if field.number == 1 {
            let paragraph = take_message(TextLayoutParagraph::empty(), field.payload, budget)?;
            let ghost before = message.paragraphs@;
            message.paragraphs.push(paragraph);
            assert(views(message.paragraphs@) =~= views(before).push(paragraph@));
        } else {
            skip_unknown(budget)?;
        }
        Ok(message)
    }
}

impl WireModel for TextView {
    open spec fn blank() -> Self {
        TextView { text_layout: None, content_language: Seq::empty() }
    }

    open spec fn fields(self) -> Seq<Field> {
        message_fields(1, self.text_layout) + string_fields(2, self.content_language)
    }

    open spec fn merge_field(self, field: Field, budget: nat) -> Option<Self> {
        if field.number == 1 {
            match read_optional(self.text_layout, field.payload, budget) {
                Some(layout) => Some(TextView { text_layout: Some(layout), ..self }),
                None => None,
            }
        } else if field.number == 2 {
            match read_string(field.payload) {
                Some(content_language) => Some(TextView { content_language, ..self }),
                None => None,
            }
        } else {
            skipped(self, budget)
        }
    }

    open spec fn depth() -> nat {
        6
    }

    open spec fn canonical(self) -> Self {
        TextView { text_layout: canonical_option(self.text_layout), ..self }
    }

    open spec fn exact(self) -> bool {
        exact_option(self.text_layout)
    }
}

impl WireLaws for TextView {
    proof fn lemma_depth_fits() {
    }

    proof fn lemma_exact_is_canonical(self) {
        lemma_exact_option_is_canonical(self.text_layout);
    }

    proof fn lemma_fields_round_trip(self, budget: nat) {
        let f1 = message_fields(1, self.text_layout);
        let f2 = string_fields(2, self.content_language);
        let a0 = Self::blank();
        let a1 = TextView { text_layout: canonical_option(self.text_layout), ..a0 };
        lemma_parts_within(f1, f2);
        assert(merge_fields(a0, f1, budget) == Some(a1)) by {
            lemma_merge_short(a0, f1, budget);
            if let Some(layout) = self.text_layout {
                lemma_message_reads_back(layout, 1, budget);
            }
        }
        assert(merge_fields(a1, f2, budget) == Some(self.canonical())) by {
            lemma_merge_short(a1, f2, budget);
            lemma_string_reads_back(self.content_language);
            assert(self.content_language.len() == 0 ==> self.content_language
                =~= Seq::<char>::empty());
        }
        lemma_merge_fields_concat(a0, f1, f2, budget);
    }
}

impl Message for Text {
    fn empty() -> Self {
        Text { text_layout: None, content_language: String::new() }
    }

    fn encode_raw(&self, out: &mut Vec<u8>) {
        let ghost base = out@;
        let ghost f1 = message_fields(1, self@.text_layout);
        proof {
            lemma_written_start(out@);
        }
        put_message(out, 1, &self.text_layout, Ghost(base), Ghost(Seq::empty()));
        put_string(out, 2, self.content_language.as_str(), Ghost(base), Ghost(Seq::empty() + f1));
        assert(Seq::empty() + f1 + string_fields(2, self.content_language@) =~= self@.fields());
    }

    fn merge_field(self, field: FieldRef<'_>, budget: u32) -> Result<Self, DecodeError> {
        let mut message = self;
        if field.number == 1 {
            let current = message.text_layout.take();
            message.text_layout = Some(take_optional(current, field.payload, budget)?);
        } else if field.number == 2 {
            message.content_language = take_string(field.payload)?;
        } else {
            skip_unknown(budget)?;
        }
        Ok(message)
    }
}

impl WireModel for TranslationStatusMsg {
    open spec fn blank() -> Self {
        TranslationStatusMsg { code: 0 }
    }

    open spec fn fields(self) -> Seq<Field> {
        int32_fields(1, self.code)
    }

    open spec fn merge_field(self, field: Field, budget: nat) -> Option<Self> {
        if field.number == 1 {
            match read_int32(field.payload) {
                Some(code) => Some(TranslationStatusMsg { code }),
                None => None,
            }
        } else {
            skipped(self, budget)
        }
    }

    open spec fn depth() -> nat {
        0
    }

    open spec fn canonical(self) -> Self {
        self
    }

    open spec fn exact(self) -> bool {
        true
    }
}

impl WireLaws for TranslationStatusMsg {
    proof fn lemma_depth_fits() {
    }

    proof fn lemma_exact_is_canonical(self) {
    }

    proof fn lemma_fields_round_trip(self, budget: nat) {
        let f1 = int32_fields(1, self.code);
        let a0 = Self::blank();
        assert(merge_fields(a0, f1, budget) == Some(self)) by {
            lemma_merge_short(a0, f1, budget);
            lemma_int32_reads_back(self.code);
        }
    }
}

impl Message for TranslationStatusMsg {
    fn empty() -> Self {
        TranslationStatusMsg { code: 0 }
    }

    fn encode_raw(&self, out: &mut Vec<u8>) {
        let ghost base = out@;
        proof {
            lemma_written_start(out@);
        }
        put_int32(out, 1, self.code, Ghost(base), Ghost(Seq::empty()));
        assert(Seq::empty() + int32_fields(1, self.code) =~= self@.fields());
    }

    fn merge_field(self, field: FieldRef<'_>, budget: u32) -> Result<Self, DecodeError> {
        let mut message = self;
        if field.number == 1 {
            message.code = take_int32(field.payload)?;
        } else {
            skip_unknown(budget)?;
        }
        Ok(message)
    }
}

impl WireModel for TranslationDataView {
    open spec fn blank() -> Self {
        TranslationDataView { status: None, translation: Seq::empty() }
    }

    open spec fn fields(self) -> Seq<Field> {
        message_fields(1, self.status) + string_fields(4, self.translation)
    }

    open spec fn merge_field(self, field: Field, budget: nat) -> Option<Self> {
        if field.number == 1 {
            match read_optional(self.status, field.payload, budget) {
                Some(status) => Some(TranslationDataView { status: Some(status), ..self }),
                None => None,
            }
        } else if field.number == 4 {
            match read_string(field.payload) {
                Some(translation) => Some(TranslationDataView { translation, ..self }),
                None => None,
            }
        } else {
            skipped(self, budget)
        }
    }

    open spec fn depth() -> nat {
        1
    }

    open spec fn canonical(self) -> Self {
        self
    }

    open spec fn exact(self) -> bool {
        true
    }
}

impl WireLaws for TranslationDataView {
    proof fn lemma_depth_fits() {
    }

    proof fn lemma_exact_is_canonical(self) {
    }

    proof fn lemma_fields_round_trip(self, budget: nat) {
        let f1 = message_fields(1, self.status);
        let f2 = string_fields(4, self.translation);
        let a0 = Self::blank();
        let a1 = TranslationDataView { status: self.status, ..a0 };
        lemma_parts_within(f1, f2);
        assert(merge_fields(a0, f1, budget) == Some(a1)) by {
            lemma_merge_short(a0, f1, budget);
            if let Some(status) = self.status {
                lemma_message_reads_back(status, 1, budget);
            }
        }
        assert(merge_fields(a1, f2, budget) == Some(self)) by {
            lemma_merge_short(a1, f2, budget);
            lemma_string_reads_back(self.translation);
            assert(self.translation.len() == 0 ==> self.translation =~= Seq::<char>::empty());
        }
        lemma_merge_fields_concat(a0, f1, f2, budget);
    }
}

impl Message for TranslationData {
    fn empty() -> Self {
        TranslationData { status: None, translation: String::new() }
    }

    fn encode_raw(&self, out: &mut Vec<u8>) {
        let ghost base = out@;
        let ghost f1 = message_fields(1, self@.status);
        proof {
            lemma_written_start(out@);
        }
        put_message(out, 1, &self.status, Ghost(base), Ghost(Seq::empty()));
        put_string(out, 4, self.translation.as_str(), Ghost(base), Ghost(Seq::empty() + f1));
        assert(Seq::empty() + f1 + string_fields(4, self.translation@) =~= self@.fields());
    }

    fn merge_field(self, field: FieldRef<'_>, budget: u32) -> Result<Self, DecodeError> {
        let mut message = self;
        if field.number == 1 {
            let current = message.status.take();
            message.status = Some(take_optional(current, field.payload, budget)?);
        } else if field.number == 4 {
            message.translation = take_string(field.payload)?;
        } else {
            skip_unknown(budget)?;
        }
        Ok(message)
    }
}

impl WireModel for DeepGleamDataView {
    open spec fn blank() -> Self {
        DeepGleamDataView { translation: None }
    }

    open spec fn fields(self) -> Seq<Field> {
        message_fields(10, self.translation)
    }

    open spec fn merge_field(self, field: Field, budget: nat) -> Option<Self> {
        if field.number == 10 {
            match read_optional(self.translation, field.payload, budget) {
                Some(translation) => Some(DeepGleamDataView { translation: Some(translation) }),
                None => None,
            }
        } else {
            skipped(self, budget)
        }
    }

    open spec fn depth() -> nat {
        2
    }

    open spec fn canonical(self) -> Self {
        self
    }

    open spec fn exact(self) -> bool {
        true
    }
}

impl WireLaws for DeepGleamDataView {
    proof fn lemma_depth_fits() {
    }

    proof fn lemma_exact_is_canonical(self) {
    }

    proof fn lemma_fields_round_trip(self, budget: nat) {
        let f1 = message_fields(10, self.translation);
        let a0 = Self::blank();
        assert(merge_fields(a0, f1, budget) == Some(self)) by {
            lemma_merge_short(a0, f1, budget);
            if let Some(translation) = self.translation {
                lemma_message_reads_back(translation, 10, budget);
            }
        }
    }
}

impl Message for DeepGleamData {
    fn empty() -> Self {
        DeepGleamData { translation: None }
    }

    fn encode_raw(&self, out: &mut Vec<u8>) {
        let ghost base = out@;
        proof {
            lemma_written_start(out@);
        }
        put_message(out, 10, &self.translation, Ghost(base), Ghost(Seq::empty()));
        assert(Seq::empty() + message_fields(10, self@.translation) =~= self@.fields());
    }

    fn merge_field(self, field: FieldRef<'_>, budget: u32) -> Result<Self, DecodeError> {
        let mut message = self;
        if field.number == 10 {
            let current = message.translation.take();
            message.translation = Some(take_optional(current, field.payload, budget)?);
        } else {
            skip_unknown(budget)?;
        }
        Ok(message)
    }
}

impl WireModel for LensOverlayObjectsResponseView {
    open spec fn blank() -> Self {
        LensOverlayObjectsResponseView { text: None, deep_gleams: Seq::empty() }
    }

    open spec fn fields(self) -> Seq<Field> {
        message_fields(3, self.text) + repeated_fields(4, self.deep_gleams)
    }

    open spec fn merge_field(self, field: Field, budget: nat) -> Option<Self> {
        if field.number == 3 {
            match read_optional(self.text, field.payload, budget) {
                Some(text) => Some(LensOverlayObjectsResponseView { text: Some(text), ..self }),
                None => None,
            }
        } else if field.number == 4 {
            match read_message(DeepGleamDataView::blank(), field.payload, budget) {
                Some(gleam) => Some(
                    LensOverlayObjectsResponseView {
                        deep_gleams: self.deep_gleams.push(gleam),
                        ..self
                    },
                ),
                None => None,
            }
        } else {
            skipped(self, budget)
        }
    }

    open spec fn depth() -> nat {
        7
    }

    open spec fn canonical(self) -> Self {
        LensOverlayObjectsResponseView { text: canonical_option(self.text), ..self }
    }

    open spec fn exact(self) -> bool {
        exact_option(self.text)
    }
}

/// Merging the fields of a run of attachments appends the attachments.
proof fn lemma_gleams_round_trip(
    acc: LensOverlayObjectsResponseView,
    gleams: Seq<DeepGleamDataView>,
    budget: nat,
)
    requires
        fields_bytes(repeated_fields(4, gleams)).len() <= u64::MAX,
        budget >= 7,
    ensures
        merge_fields(acc, repeated_fields(4, gleams), budget) == Some(
            LensOverlayObjectsResponseView { deep_gleams: acc.deep_gleams + gleams, ..acc },
        ),
    decreases gleams.len(),
{
    if gleams.len() == 0 {
        assert(acc.deep_gleams + gleams =~= acc.deep_gleams);
        assert(repeated_fields(4, gleams) =~= Seq::<Field>::empty());
        lemma_merge_none(acc, budget);
    } else {
        lemma_repeated_first(4, gleams, budget);
        let next = LensOverlayObjectsResponseView {
            deep_gleams: acc.deep_gleams.push(gleams[0]),
            ..acc
        };
        lemma_gleams_round_trip(next, gleams.skip(1), budget);
        assert(next.deep_gleams + gleams.skip(1) =~= acc.deep_gleams + gleams);
    }
}

impl WireLaws for LensOverlayObjectsResponseView {
    proof fn lemma_depth_fits() {
    }

    proof fn lemma_exact_is_canonical(self) {
        lemma_exact_option_is_canonical(self.text);
    }

    proof fn lemma_fields_round_trip(self, budget: nat) {
        let f1 = message_fields(3, self.text);
        let f2 = repeated_fields(4, self.deep_gleams);
        let a0 = Self::blank();
        let a1 = LensOverlayObjectsResponseView { text: canonical_option(self.text), ..a0 };
        lemma_parts_within(f1, f2);
        assert(merge_fields(a0, f1, budget) == Some(a1)) by {
            lemma_merge_short(a0, f1, budget);
            if let Some(text) = self.text {
                lemma_message_reads_back(text, 3, budget);
            }
        }
        assert(merge_fields(a1, f2, budget) == Some(self.canonical())) by {
            lemma_gleams_round_trip(a1, self.deep_gleams, budget);
            assert(a1.deep_gleams + self.deep_gleams =~= self.deep_gleams);
        }
        lemma_merge_fields_concat(a0, f1, f2, budget);
    }
}

impl Message for LensOverlayObjectsResponse {
    fn empty() -> Self {
        let response = LensOverlayObjectsResponse { text: None, deep_gleams: Vec::new() };
        assert(views(response.deep_gleams@) =~= Seq::<DeepGleamDataView>::empty());
        response
    }

    fn encode_raw(&self, out: &mut Vec<u8>) {
        let ghost base = out@;
        let ghost f1 = message_fields(3, self@.text);
        proof {
            lemma_written_start(out@);
        }
        put_message(out, 3, &self.text, Ghost(base), Ghost(Seq::empty()));
        put_repeated(out, 4, &self.deep_gleams, Ghost(base), Ghost(Seq::empty() + f1));
        assert(Seq::empty() + f1 + repeated_fields(4, self@.deep_gleams) =~= self@.fields());
    }

    fn merge_field(self, field: FieldRef<'_>, budget: u32) -> Result<Self, DecodeError> {
        let mut message = self;
        if field.number == 3 {
            let current = message.text.take();
            message.text = Some(take_optional(current, field.payload, budget)?);
        } else if field.number == 4 {
            let gleam = take_message(DeepGleamData::empty(), field.payload, budget)?;
            let ghost before = message.deep_gleams@;
            message.deep_gleams.push(gleam);
            assert(views(message.deep_gleams@) =~= views(before).push(gleam@));
        } else {
            skip_unknown(budget)?;
        }
        Ok(message)
    }
}

impl WireModel for LensOverlayServerResponseView {
    open spec fn blank() -> Self {
        LensOverlayServerResponseView { objects_response: None }
    }

    open spec fn fields(self) -> Seq<Field> {
        message_fields(2, self.objects_response)
    }

    open spec fn merge_field(self, field: Field, budget: nat) -> Option<Self> {
        if field.number == 2 {
            match read_optional(self.objects_response, field.payload, budget) {
                Some(objects) => Some(
                    LensOverlayServerResponseView { objects_response: Some(objects) },
                ),
                None => None,
            }
        } else {
            skipped(self, budget)
        }
    }

    open spec fn depth() -> nat {
        8
    }

    open spec fn canonical(self) -> Self {
        LensOverlayServerResponseView {
            objects_response: canonical_option(self.objects_response),
        }
    }

    open spec fn exact(self) -> bool {
        exact_option(self.objects_response)
    }
}

impl WireLaws for LensOverlayServerResponseView {
    proof fn lemma_depth_fits() {
    }

    proof fn lemma_exact_is_canonical(self) {
        lemma_exact_option_is_canonical(self.objects_response);
    }

    proof fn lemma_fields_round_trip(self, budget: nat) {
        let f1 = message_fields(2, self.objects_response);
        let a0 = Self::blank();
        assert(merge_fields(a0, f1, budget) == Some(self.canonical())) by {
            lemma_merge_short(a0, f1, budget);
            if let Some(objects) = self.objects_response {
                lemma_message_reads_back(objects, 2, budget);
            }
        }
    }
}

impl Message for LensOverlayServerResponse {
    fn empty() -> Self {
        LensOverlayServerResponse { objects_response: None }
    }

    fn encode_raw(&self, out: &mut Vec<u8>) {
        let ghost base = out@;
        proof {
            lemma_written_start(out@);
        }
        put_message(out, 2, &self.objects_response, Ghost(base), Ghost(Seq::empty()));
        assert(Seq::empty() + message_fields(2, self@.objects_response) =~= self@.fields());
    }

    fn merge_field(self, field: FieldRef<'_>, budget: u32) -> Result<Self, DecodeError> {
        let mut message = self;
        if field.number == 2 {
            let current = message.objects_response.take();
            message.objects_response = Some(take_optional(current, field.payload, budget)?);
        } else {
            skip_unknown(budget)?;
        }
        Ok(message)
    }
}

/// Round trip of a response: decoding the serialized form of a response
/// gives the response back, field for field, with absent members absent.
/// Every member comes back as it was, but that a negative zero in a float
/// member comes back as a positive one, which is written like it: not at
/// all. The one condition is that the serialized form has a length that 64
/// bits can hold.
pub proof fn lemma_response_round_trip(response: LensOverlayServerResponseView)
    requires
        encoded(response).len() <= u64::MAX,
    ensures
        decoded::<LensOverlayServerResponseView>(encoded(response)) == Some(
            response.canonical(),
        ),
        response.exact() ==> decoded::<LensOverlayServerResponseView>(encoded(response))
            == Some(response),
{
    lemma_decode_encode(response);
}

/// A response without geometry is exact: it holds no float at all.
pub open spec fn without_geometry(response: LensOverlayServerResponseView) -> bool {
    match crate::extract::layout_of(response) {
        Some(layout) => forall|p: int|
            0 <= p < layout.paragraphs.len() ==> {
                &&& (#[trigger] layout.paragraphs[p]).geometry is None
                &&& forall|l: int|
                    0 <= l < layout.paragraphs[p].lines.len() ==> {
                        &&& (#[trigger] layout.paragraphs[p].lines[l]).geometry is None
                        &&& forall|w: int|
                            0 <= w < layout.paragraphs[p].lines[l].words.len() ==> (
                            #[trigger] layout.paragraphs[p].lines[l].words[w]).geometry is None
                    }
            },
        None => true,
    }
}

/// A response without geometry round-trips.
pub proof fn lemma_text_only_is_exact(response: LensOverlayServerResponseView)
    requires
        without_geometry(response),
    ensures
        response.exact(),
{
    match crate::extract::layout_of(response) {
        Some(layout) => {
            assert forall|p: int| 0 <= p < layout.paragraphs.len() implies (
            #[trigger] layout.paragraphs[p]).exact() by {
                let paragraph = layout.paragraphs[p];
                assert forall|l: int| 0 <= l < paragraph.lines.len() implies (
                #[trigger] paragraph.lines[l]).exact() by {
                    let line = paragraph.lines[l];
                    assert forall|w: int| 0 <= w < line.words.len() implies (
                    #[trigger] line.words[w]).exact() by {}
                }
            }
        },
        None => {},
    }
}

/// What is read back of a box holds the same numbers as the box: each float
/// comes back with the bits it had, or as a zero for a zero.
pub proof fn lemma_box_keeps_its_numbers(b: CenterRotatedBox)
    ensures
        b.canonical().center_x.same_number(b.center_x),
        b.canonical().center_y.same_number(b.center_y),
        b.canonical().width.same_number(b.width),
        b.canonical().height.same_number(b.height),
        b.canonical().rotation_z.same_number(b.rotation_z),
        b.canonical().canonical() == b.canonical(),
{
}

} // verus!
