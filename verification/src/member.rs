//! Typed fields: how the scalar, string, byte-string and nested-message
//! members of a message map to fields on the wire and back.
//!
//! Writing follows the canonical rules of the format: a plain scalar that holds
//! its default (zero, the empty string, the empty byte string) is left out, an
//! absent optional member is left out, a present one is always written, and
//! every element of a repeated member is written, in order. Reading accepts a
//! member only under the wire type it is written with.

use vstd::prelude::*;
use vstd::slice::slice_to_vec;
use vstd::utf8::{
    decode_utf8, encode_utf8, encode_utf8_decode_utf8, encode_utf8_valid_utf8, valid_utf8,
};
use crate::message::{
    encoded, lemma_merge_encoded, merge_bytes, merge_fields, Message, WireLaws, WireModel,
};
use crate::wire::{
    all_writable, fields_bytes, lemma_fields_bytes_concat, lemma_fields_bytes_single,
    put_bytes_field, put_fixed32_field, put_varint_field, DecodeError, Field, Payload,
    PayloadRef, MAX_FIELD_NUMBER, MIN_FIELD_NUMBER,
};

verus! {

/// The bit pattern of negative zero in single precision.
pub const NEGATIVE_ZERO_BITS: u32 = 0x8000_0000;

/// A single-precision number, held as its IEEE 754 bit pattern so that it
/// crosses the wire without rounding.
#[derive(Clone, Copy, Debug, PartialEq, Eq, Structural)]
pub struct Float32 {
    pub bits: u32,
}

impl Float32 {
    /// Positive zero, the default of a float member.
    pub fn zero() -> (z: Self)
        ensures
            z.bits == 0,
    {
        Float32 { bits: 0 }
    }

    /// The number with the given bit pattern.
    pub fn from_bits(bits: u32) -> (f: Self)
        ensures
            f.bits == bits,
    {
        Float32 { bits }
    }

    /// The bit pattern of this number.
    pub fn to_bits(self) -> (bits: u32)
        ensures
            bits == self.bits,
    {
        self.bits
    }

    /// Whether this number compares equal to zero: positive or negative zero.
    pub open spec fn is_zero(self) -> bool {
        self.bits == 0 || self.bits == NEGATIVE_ZERO_BITS
    }

    /// This number as it is read back once it was written: itself, but
    /// positive zero for negative zero.
    pub open spec fn canonical(self) -> Float32 {
        if self.is_zero() {
            Float32 { bits: 0 }
        } else {
            self
        }
    }

    /// Whether two numbers are equal as numbers: they hold the same bits, or
    /// both are zero.
    pub open spec fn same_number(self, other: Float32) -> bool {
        self.bits == other.bits || (self.is_zero() && other.is_zero())
    }
}

/// The models of the elements of a sequence of messages.
pub open spec fn views<M: View>(items: Seq<M>) -> Seq<M::V> {
    Seq::new(items.len(), |i: int| items[i]@)
}

/// The model of an optional message.
pub open spec fn view_of<M: View>(item: Option<M>) -> Option<M::V> {
    match item {
        Some(m) => Some(m@),
        None => None,
    }
}

/// The model of an optional string.
pub open spec fn text_of(item: Option<String>) -> Option<Seq<char>> {
    match item {
        Some(s) => Some(s@),
        None => None,
    }
}

/// A run of one field.
pub open spec fn single(number: u32, payload: Payload) -> Seq<Field> {
    seq![Field { number, payload }]
}

/// The fields of an unsigned 64-bit member.
pub open spec fn uint64_fields(number: u32, value: u64) -> Seq<Field> {
    if value == 0 {
        Seq::empty()
    } else {
        single(number, Payload::Varint(value))
    }
}

/// The fields of a signed 32-bit member: the value is widened to 64 bits with
/// its sign, so a negative one occupies ten bytes.
pub open spec fn int32_fields(number: u32, value: i32) -> Seq<Field> {
    if value == 0 {
        Seq::empty()
    } else {
        single(number, Payload::Varint(value as u64))
    }
}

/// The fields of a string member.
pub open spec fn string_fields(number: u32, value: Seq<char>) -> Seq<Field> {
    if value.len() == 0 {
        Seq::empty()
    } else {
        single(number, Payload::Bytes(encode_utf8(value)))
    }
}

/// The fields of an optional string member.
pub open spec fn optional_string_fields(number: u32, value: Option<Seq<char>>) -> Seq<Field> {
    match value {
        Some(text) => single(number, Payload::Bytes(encode_utf8(text))),
        None => Seq::empty(),
    }
}

/// The fields of a byte-string member.
pub open spec fn bytes_fields(number: u32, value: Seq<u8>) -> Seq<Field> {
    if value.len() == 0 {
        Seq::empty()
    } else {
        single(number, Payload::Bytes(value))
    }
}

/// The fields of a float member. Both zeros count as the default.
pub open spec fn float_fields(number: u32, value: Float32) -> Seq<Field> {
    if value.is_zero() {
        Seq::empty()
    } else {
        single(number, Payload::Fixed32(value.bits))
    }
}

/// The field that carries one nested message.
pub open spec fn message_field<M: WireModel>(number: u32, message: M) -> Field {
    Field { number, payload: Payload::Bytes(encoded(message)) }
}

/// The fields of an optional nested message.
pub open spec fn message_fields<M: WireModel>(number: u32, message: Option<M>) -> Seq<Field> {
    match message {
        Some(m) => seq![message_field(number, m)],
        None => Seq::empty(),
    }
}

/// The fields of a repeated nested message.
pub open spec fn repeated_fields<M: WireModel>(number: u32, items: Seq<M>) -> Seq<Field> {
    Seq::new(items.len(), |i: int| message_field(number, items[i]))
}

/// An unsigned 64-bit member as read from a payload.
pub open spec fn read_uint64(payload: Payload) -> Option<u64> {
    match payload {
        Payload::Varint(value) => Some(value),
        _ => None,
    }
}

/// A signed 32-bit member as read from a payload: the low 32 bits of the
/// varint.
pub open spec fn read_int32(payload: Payload) -> Option<i32> {
    match payload {
        Payload::Varint(value) => Some(value as i32),
        _ => None,
    }
}

/// A string member as read from a payload: the bytes must be UTF-8.
pub open spec fn read_string(payload: Payload) -> Option<Seq<char>> {
    match payload {
        Payload::Bytes(data) => if valid_utf8(data) {
            Some(decode_utf8(data))
        } else {
            None
        },
        _ => None,
    }
}

/// A byte-string member as read from a payload.
pub open spec fn read_bytes(payload: Payload) -> Option<Seq<u8>> {
    match payload {
        Payload::Bytes(data) => Some(data),
        _ => None,
    }
}

/// A float member as read from a payload.
pub open spec fn read_float(payload: Payload) -> Option<Float32> {
    match payload {
        Payload::Fixed32(bits) => Some(Float32 { bits }),
        _ => None,
    }
}

/// A nested message as read from a payload and merged into `start`. One
/// level of the nesting budget is spent on it.
pub open spec fn read_message<M: WireModel>(start: M, payload: Payload, budget: nat) -> Option<M> {
    match payload {
        Payload::Bytes(data) => if budget > 0 {
            merge_bytes(start, data, (budget - 1) as nat)
        } else {
            None
        },
        _ => None,
    }
}

/// A nested message as read into an optional member: merged into the value
/// that is there, or into a blank one.
pub open spec fn read_optional<M: WireModel>(current: Option<M>, payload: Payload, budget: nat)
    -> Option<M> {
    match current {
        Some(m) => read_message(m, payload, budget),
        None => read_message(M::blank(), payload, budget),
    }
}

/// What becomes of a message when a field it does not know is stepped over.
pub open spec fn skipped<M>(message: M, budget: nat) -> Option<M> {
    if budget > 0 {
        Some(message)
    } else {
        None
    }
}

/// An optional nested message as it is read back.
pub open spec fn canonical_option<M: WireModel>(message: Option<M>) -> Option<M> {
    match message {
        Some(m) => Some(m.canonical()),
        None => None,
    }
}

/// The elements of a repeated nested message as they are read back.
pub open spec fn canonical_all<M: WireModel>(items: Seq<M>) -> Seq<M> {
    Seq::new(items.len(), |i: int| items[i].canonical())
}

/// Whether an optional nested message is exact.
pub open spec fn exact_option<M: WireModel>(message: Option<M>) -> bool {
    match message {
        Some(m) => m.exact(),
        None => true,
    }
}

/// Whether every element of a repeated nested message is exact.
pub open spec fn exact_all<M: WireModel>(items: Seq<M>) -> bool {
    forall|i: int| 0 <= i < items.len() ==> (#[trigger] items[i]).exact()
}

/// Whether a field number can stand in a key.
pub open spec fn valid_number(number: u32) -> bool {
    MIN_FIELD_NUMBER <= number <= MAX_FIELD_NUMBER
}

/// The bytes written so far are `base` followed by the fields `done`.
pub open spec fn written(out: Seq<u8>, base: Seq<u8>, done: Seq<Field>) -> bool {
    &&& out == base + fields_bytes(done)
    &&& all_writable(done)
}

proof fn lemma_written_more(
    before: Seq<u8>,
    after: Seq<u8>,
    base: Seq<u8>,
    done: Seq<Field>,
    more: Seq<Field>,
)
    requires
        written(before, base, done),
        after == before + fields_bytes(more),
        all_writable(more),
    ensures
        written(after, base, done + more),
{
    lemma_fields_bytes_concat(done, more);
    assert(after =~= base + fields_bytes(done + more));
}

/// Nothing written yet.
pub proof fn lemma_written_start(out: Seq<u8>)
    ensures
        written(out, out, Seq::<Field>::empty()),
{
    assert(out =~= out + fields_bytes(Seq::<Field>::empty()));
}

/// Writes an unsigned 64-bit member.
pub fn put_uint64(
    out: &mut Vec<u8>,
    number: u32,
    value: u64,
    Ghost(base): Ghost<Seq<u8>>,
    Ghost(done): Ghost<Seq<Field>>,
)
    requires
        valid_number(number),
        written(old(out)@, base, done),
    ensures
        written(final(out)@, base, done + uint64_fields(number, value)),
{
    let ghost before = out@;
    if value != 0 {
        put_varint_field(out, number, value);
        proof {
            lemma_fields_bytes_single(Field { number, payload: Payload::Varint(value) });
        }
    }
    proof {
        let more = uint64_fields(number, value);
        assert(out@ =~= before + fields_bytes(more));
        lemma_written_more(before, out@, base, done, more);
    }
}

/// Writes a signed 32-bit member.
pub fn put_int32(
    out: &mut Vec<u8>,
    number: u32,
    value: i32,
    Ghost(base): Ghost<Seq<u8>>,
    Ghost(done): Ghost<Seq<Field>>,
)
    requires
        valid_number(number),
        written(old(out)@, base, done),
    ensures
        written(final(out)@, base, done + int32_fields(number, value)),
{
    let ghost before = out@;
    if value != 0 {
        let wide: u64 = #[verifier::truncate]
        (value as u64);
        put_varint_field(out, number, wide);
        proof {
            lemma_fields_bytes_single(Field { number, payload: Payload::Varint(wide) });
        }
    }
    proof {
        let more = int32_fields(number, value);
        assert(out@ =~= before + fields_bytes(more));
        lemma_written_more(before, out@, base, done, more);
    }
}

/// Writes a string member.
pub fn put_string(
    out: &mut Vec<u8>,
    number: u32,
    value: &str,
    Ghost(base): Ghost<Seq<u8>>,
    Ghost(done): Ghost<Seq<Field>>,
)
    requires
        valid_number(number),
        written(old(out)@, base, done),
    ensures
        written(final(out)@, base, done + string_fields(number, value@)),
{
    let ghost before = out@;
    let data: &[u8] = value.as_bytes();
    if data.len() != 0 {
        put_bytes_field(out, number, data);
        proof {
            lemma_fields_bytes_single(Field { number, payload: Payload::Bytes(data@) });
        }
    }
    proof {
        lemma_utf8_empty(value@);
        let more = string_fields(number, value@);
        assert(out@ =~= before + fields_bytes(more));
        lemma_written_more(before, out@, base, done, more);
    }
}

/// Writes an optional string member.
pub fn put_optional_string(
    out: &mut Vec<u8>,
    number: u32,
    value: &Option<String>,
    Ghost(base): Ghost<Seq<u8>>,
    Ghost(done): Ghost<Seq<Field>>,
)
    requires
        valid_number(number),
        written(old(out)@, base, done),
    ensures
        written(final(out)@, base, done + optional_string_fields(number, text_of(*value))),
{
    let ghost before = out@;
    match value {
        Some(text) => {
            let data: &[u8] = text.as_str().as_bytes();
            put_bytes_field(out, number, data);
            proof {
                lemma_fields_bytes_single(Field { number, payload: Payload::Bytes(data@) });
            }
        },
        None => {},
    }
    proof {
        let more = optional_string_fields(number, text_of(*value));
        assert(out@ =~= before + fields_bytes(more));
        lemma_written_more(before, out@, base, done, more);
    }
}

/// Writes a byte-string member.
pub fn put_bytes_member(
    out: &mut Vec<u8>,
    number: u32,
    value: &[u8],
    Ghost(base): Ghost<Seq<u8>>,
    Ghost(done): Ghost<Seq<Field>>,
)
    requires
        valid_number(number),
        written(old(out)@, base, done),
    ensures
        written(final(out)@, base, done + bytes_fields(number, value@)),
{
    let ghost before = out@;
    if value.len() != 0 {
        put_bytes_field(out, number, value);
        proof {
            lemma_fields_bytes_single(Field { number, payload: Payload::Bytes(value@) });
        }
    }
    proof {
        let more = bytes_fields(number, value@);
        assert(out@ =~= before + fields_bytes(more));
        lemma_written_more(before, out@, base, done, more);
    }
}

/// Writes a float member.
pub fn put_float(
    out: &mut Vec<u8>,
    number: u32,
    value: Float32,
    Ghost(base): Ghost<Seq<u8>>,
    Ghost(done): Ghost<Seq<Field>>,
)
    requires
        valid_number(number),
        written(old(out)@, base, done),
    ensures
        written(final(out)@, base, done + float_fields(number, value)),
{
    let ghost before = out@;
    if value.bits != 0 && value.bits != NEGATIVE_ZERO_BITS {
        put_fixed32_field(out, number, value.bits);
        proof {
            lemma_fields_bytes_single(Field { number, payload: Payload::Fixed32(value.bits) });
        }
    }
    proof {
        let more = float_fields(number, value);
        assert(out@ =~= before + fields_bytes(more));
        lemma_written_more(before, out@, base, done, more);
    }
}

/// Writes one nested message as a length-delimited field.
fn put_message_field<M: Message>(out: &mut Vec<u8>, number: u32, message: &M) where M::V: WireLaws
    requires
        valid_number(number),
    ensures
        final(out)@ == old(out)@ + message_field(number, message@).bytes(),
        message_field(number, message@).writable(),
{
    let inner: Vec<u8> = message.encode_to_vec();
    put_bytes_field(out, number, inner.as_slice());
}

/// Writes an optional nested message.
pub fn put_message<M: Message>(
    out: &mut Vec<u8>,
    number: u32,
    message: &Option<M>,
    Ghost(base): Ghost<Seq<u8>>,
    Ghost(done): Ghost<Seq<Field>>,
) where M::V: WireLaws
    requires
        valid_number(number),
        written(old(out)@, base, done),
    ensures
        written(final(out)@, base, done + message_fields(number, view_of(*message))),
{
    let ghost before = out@;
    match message {
        Some(m) => {
            put_message_field(out, number, m);
            proof {
                lemma_fields_bytes_single(message_field(number, m@));
            }
        },
        None => {},
    }
    proof {
        let more = message_fields(number, view_of(*message));
        assert(out@ =~= before + fields_bytes(more));
        lemma_written_more(before, out@, base, done, more);
    }
}

/// Writes a repeated nested message, element by element.
pub fn put_repeated<M: Message>(
    out: &mut Vec<u8>,
    number: u32,
    items: &Vec<M>,
    Ghost(base): Ghost<Seq<u8>>,
    Ghost(done): Ghost<Seq<Field>>,
) where M::V: WireLaws
    requires
        valid_number(number),
        written(old(out)@, base, done),
    ensures
        written(final(out)@, base, done + repeated_fields(number, views(items@))),
{
    let ghost all = repeated_fields(number, views(items@));
    let mut i: usize = 0;
    proof {
        assert(done + all.subrange(0, 0) =~= done);
    }
    while i < items.len()
        invariant
            valid_number(number),
            i <= items@.len(),
            all == repeated_fields(number, views(items@)),
            written(out@, base, done + all.subrange(0, i as int)),
        decreases items@.len() - i,
    {
        let ghost before = out@;
        put_message_field(out, number, &items[i]);
        proof {
            let field = message_field(number, items@[i as int]@);
            assert(all[i as int] == field);
            lemma_fields_bytes_single(field);
            let more = seq![field];
            lemma_written_more(before, out@, base, done + all.subrange(0, i as int), more);
            assert(done + all.subrange(0, i as int) + more =~= done + all.subrange(0, i + 1));
        }
        i = i + 1;
    }
    proof {
        assert(all.subrange(0, i as int) =~= all);
    }
}

/// Reads an unsigned 64-bit member.
pub fn take_uint64(payload: PayloadRef<'_>) -> (r: Result<u64, DecodeError>)
    ensures
        match r {
            Ok(value) => read_uint64(payload@) == Some(value),
            Err(_) => read_uint64(payload@) is None,
        },
{
    match payload {
        PayloadRef::Varint(value) => Ok(value),
        _ => Err(DecodeError),
    }
}

/// Reads a signed 32-bit member.
pub fn take_int32(payload: PayloadRef<'_>) -> (r: Result<i32, DecodeError>)
    ensures
        match r {
            Ok(value) => read_int32(payload@) == Some(value),
            Err(_) => read_int32(payload@) is None,
        },
{
    match payload {
        PayloadRef::Varint(value) => {
            let low: i32 = #[verifier::truncate]
            (value as i32);
            Ok(low)
        },
        _ => Err(DecodeError),
    }
}

/// Checks that `data` is UTF-8 and hands it back as text.
///
/// Trusted: `core::str::from_utf8` succeeds exactly on well-formed UTF-8, and
/// the string slice it returns stands for the characters that the bytes
/// encode.
#[verifier::external_body]
fn utf8_text(data: &[u8]) -> (r: Option<&str>)
    ensures
        match r {
            Some(text) => valid_utf8(data@) && text@ == decode_utf8(data@),
            None => !valid_utf8(data@),
        },
{
    core::str::from_utf8(data).ok()
}

/// Reads a string member.
pub fn take_string(payload: PayloadRef<'_>) -> (r: Result<String, DecodeError>)
    ensures
        match r {
            Ok(value) => read_string(payload@) == Some(value@),
            Err(_) => read_string(payload@) is None,
        },
{
    match payload {
        PayloadRef::Bytes(data) => match utf8_text(data) {
            Some(text) => Ok(text.to_owned()),
            None => Err(DecodeError),
        },
        _ => Err(DecodeError),
    }
}

/// Reads a byte-string member.
pub fn take_bytes(payload: PayloadRef<'_>) -> (r: Result<Vec<u8>, DecodeError>)
    ensures
        match r {
            Ok(value) => read_bytes(payload@) == Some(value@),
            Err(_) => read_bytes(payload@) is None,
        },
{
    match payload {
        PayloadRef::Bytes(data) => Ok(slice_to_vec(data)),
        _ => Err(DecodeError),
    }
}

/// Reads a float member.
pub fn take_float(payload: PayloadRef<'_>) -> (r: Result<Float32, DecodeError>)
    ensures
        match r {
            Ok(value) => read_float(payload@) == Some(value),
            Err(_) => read_float(payload@) is None,
        },
{
    match payload {
        PayloadRef::Fixed32(bits) => Ok(Float32 { bits }),
        _ => Err(DecodeError),
    }
}

/// Reads a nested message and merges it into `start`.
pub fn take_message<M: Message>(start: M, payload: PayloadRef<'_>, budget: u32) -> (r: Result<
    M,
    DecodeError,
>) where M::V: WireLaws
    ensures
        match r {
            Ok(m) => read_message(start@, payload@, budget as nat) == Some(m@),
            Err(_) => read_message(start@, payload@, budget as nat) is None,
        },
{
    match payload {
        PayloadRef::Bytes(data) => {
            if budget > 0 {
                start.merge(data, budget - 1)
            } else {
                Err(DecodeError)
            }
        },
        _ => Err(DecodeError),
    }
}

/// Reads a nested message into an optional member.
pub fn take_optional<M: Message>(current: Option<M>, payload: PayloadRef<'_>, budget: u32) -> (r:
    Result<M, DecodeError>) where M::V: WireLaws
    ensures
        match r {
            Ok(m) => read_optional(view_of(current), payload@, budget as nat) == Some(m@),
            Err(_) => read_optional(view_of(current), payload@, budget as nat) is None,
        },
{
    match current {
        Some(m) => take_message(m, payload, budget),
        None => take_message(M::empty(), payload, budget),
    }
}

/// Steps over a field that the message does not know.
pub fn skip_unknown(budget: u32) -> (r: Result<(), DecodeError>)
    ensures
        r is Ok <==> budget > 0,
{
    if budget > 0 {
        Ok(())
    } else {
        Err(DecodeError)
    }
}

/// Only the empty string has an empty encoding.
pub proof fn lemma_utf8_empty(text: Seq<char>)
    ensures
        encode_utf8(text).len() == 0 <==> text.len() == 0,
{
    if text.len() > 0 {
        let rest = encode_utf8(text.drop_first());
        assert(encode_utf8(text).len() > 0);
    }
}

/// Merging no field leaves the message as it is.
pub proof fn lemma_merge_none<M: WireModel>(acc: M, budget: nat)
    ensures
        merge_fields(acc, Seq::<Field>::empty(), budget) == Some(acc),
{
}

/// Merging a run of one field is merging that field.
pub proof fn lemma_merge_single<M: WireModel>(acc: M, field: Field, budget: nat)
    ensures
        merge_fields(acc, seq![field], budget) == acc.merge_field(field, budget),
{
    let fields = seq![field];
    assert(fields[0] == field);
    assert(fields.skip(1) =~= Seq::<Field>::empty());
    match acc.merge_field(field, budget) {
        Some(next) => {
            assert(merge_fields(next, fields.skip(1), budget) == Some(next));
        },
        None => {},
    }
}

/// Merging a run of at most one field is merging that field, if there is
/// one.
pub proof fn lemma_merge_short<M: WireModel>(acc: M, fields: Seq<Field>, budget: nat)
    requires
        fields.len() <= 1,
    ensures
        merge_fields(acc, fields, budget) == if fields.len() == 0 {
            Some(acc)
        } else {
            acc.merge_field(fields[0], budget)
        },
{
    if fields.len() == 1 {
        assert(fields =~= seq![fields[0]]);
        lemma_merge_single(acc, fields[0], budget);
    }
}

/// Each of two runs of fields is no longer, in bytes, than the two joined.
pub proof fn lemma_parts_within(first: Seq<Field>, second: Seq<Field>)
    ensures
        fields_bytes(first).len() <= fields_bytes(first + second).len(),
        fields_bytes(second).len() <= fields_bytes(first + second).len(),
{
    lemma_fields_bytes_concat(first, second);
}

/// A nested message survives being written as a field and read into a blank
/// value: it comes back in its canonical form.
pub proof fn lemma_message_reads_back<M: WireLaws>(message: M, number: u32, budget: nat)
    requires
        fields_bytes(message_fields(number, Some(message))).len() <= u64::MAX,
        budget > M::depth(),
    ensures
        read_message(M::blank(), message_field(number, message).payload, budget) == Some(
            message.canonical(),
        ),
{
    lemma_fields_bytes_single(message_field(number, message));
    lemma_merge_encoded(message, (budget - 1) as nat);
}

/// The first element of a repeated nested message survives being written
/// and read, and what is left of the run is the run of the other elements.
pub proof fn lemma_repeated_first<M: WireLaws>(number: u32, items: Seq<M>, budget: nat)
    requires
        items.len() > 0,
        fields_bytes(repeated_fields(number, items)).len() <= u64::MAX,
        budget > M::depth(),
    ensures
        repeated_fields(number, items)[0] == message_field(number, items[0]),
        repeated_fields(number, items).skip(1) == repeated_fields(number, items.skip(1)),
        read_message(M::blank(), message_field(number, items[0]).payload, budget) == Some(
            items[0].canonical(),
        ),
        fields_bytes(repeated_fields(number, items.skip(1))).len() <= u64::MAX,
        canonical_all(items) == seq![items[0].canonical()] + canonical_all(items.skip(1)),
{
    let fields = repeated_fields(number, items);
    let first = message_field(number, items[0]);
    assert(fields.skip(1) =~= repeated_fields(number, items.skip(1)));
    lemma_fields_bytes_single(first);
    lemma_message_reads_back(items[0], number, budget);
    assert(canonical_all(items) =~= seq![items[0].canonical()] + canonical_all(items.skip(1)));
}

/// Exact elements are read back as they are.
pub proof fn lemma_exact_all_is_canonical<M: WireLaws>(items: Seq<M>)
    requires
        exact_all(items),
    ensures
        canonical_all(items) == items,
{
    assert forall|i: int| 0 <= i < items.len() implies (#[trigger] items[i]).canonical()
        == items[i] by {
        items[i].lemma_exact_is_canonical();
    }
    assert(canonical_all(items) =~= items);
}

/// An exact optional message is read back as it is.
pub proof fn lemma_exact_option_is_canonical<M: WireLaws>(message: Option<M>)
    requires
        exact_option(message),
    ensures
        canonical_option(message) == message,
{
    if let Some(m) = message {
        m.lemma_exact_is_canonical();
    }
}

/// A signed 32-bit value survives the widening on the way out and the
/// narrowing on the way in.
pub proof fn lemma_int32_reads_back(value: i32)
    ensures
        read_int32(Payload::Varint(value as u64)) == Some(value),
{
    assert((value as u64) as i32 == value) by (bit_vector);
}

/// A string survives its encoding.
pub proof fn lemma_string_reads_back(text: Seq<char>)
    ensures
        read_string(Payload::Bytes(encode_utf8(text))) == Some(text),
{
    encode_utf8_valid_utf8(text);
    encode_utf8_decode_utf8(text);
}

} // verus!
