//! The field layer of the wire format.
//!
//! A serialized message is a run of fields. Each field starts with a key, a
//! varint that packs the field number and one of six wire types, and goes on
//! with a payload whose shape the wire type fixes. This module models a field
//! as a value ([`Field`]), says which bytes stand for it, reads and writes
//! fields, and proves that reading undoes writing.

use vstd::prelude::*;
use vstd::bytes::{
    lemma_auto_spec_u32_to_from_le_bytes, lemma_auto_spec_u64_to_from_le_bytes,
    spec_u32_from_le_bytes, spec_u32_to_le_bytes, spec_u64_from_le_bytes, spec_u64_to_le_bytes,
    u32_from_le_bytes, u32_to_le_bytes, u64_from_le_bytes,
};
use vstd::slice::slice_subrange;
use crate::varint::{
    lemma_parse_varint_len, lemma_parse_varint_round_trip, lemma_varint_len, parse_varint,
    read_varint, varint, write_varint,
};

verus! {

/// Smallest field number that a key may carry.
pub const MIN_FIELD_NUMBER: u32 = 1;

/// Largest field number that a key may carry.
pub const MAX_FIELD_NUMBER: u32 = 0x1FFF_FFFF;

/// Nesting budget at the outermost level of a decode.
pub const RECURSION_LIMIT: u32 = 100;

/// The input is not a well-formed serialized message of the expected type.
#[derive(Clone, Copy, Debug, PartialEq, Eq)]
pub struct DecodeError;

/// How the payload of a field is laid out.
#[derive(Clone, Copy, Debug, PartialEq, Eq, Structural)]
pub enum WireType {
    Varint,
    Fixed64,
    LengthDelimited,
    StartGroup,
    EndGroup,
    Fixed32,
}

impl WireType {
    /// The three-bit number that stands for this wire type in a key.
    pub open spec fn code(self) -> nat {
        match self {
            WireType::Varint => 0,
            WireType::Fixed64 => 1,
            WireType::LengthDelimited => 2,
            WireType::StartGroup => 3,
            WireType::EndGroup => 4,
            WireType::Fixed32 => 5,
        }
    }

    /// The wire type with the given number, if there is one.
    pub open spec fn from_code(code: nat) -> Option<WireType> {
        if code == 0 {
            Some(WireType::Varint)
        } else if code == 1 {
            Some(WireType::Fixed64)
        } else if code == 2 {
            Some(WireType::LengthDelimited)
        } else if code == 3 {
            Some(WireType::StartGroup)
        } else if code == 4 {
            Some(WireType::EndGroup)
        } else if code == 5 {
            Some(WireType::Fixed32)
        } else {
            None
        }
    }
}

/// What a field carries.
pub ghost enum Payload {
    /// An integer in varint form.
    Varint(u64),
    /// Eight bytes, read as a little-endian integer.
    Fixed64(u64),
    /// A length, then that many bytes: a string, a byte string or a nested
    /// message.
    Bytes(Seq<u8>),
    /// A group, which this library only steps over.
    Group,
    /// Four bytes, read as a little-endian integer.
    Fixed32(u32),
}

/// One field of a serialized message.
pub ghost struct Field {
    pub number: u32,
    pub payload: Payload,
}

impl Payload {
    /// The wire type under which this payload is written.
    pub open spec fn wire_type(self) -> WireType {
        match self {
            Payload::Varint(_) => WireType::Varint,
            Payload::Fixed64(_) => WireType::Fixed64,
            Payload::Bytes(_) => WireType::LengthDelimited,
            Payload::Group => WireType::StartGroup,
            Payload::Fixed32(_) => WireType::Fixed32,
        }
    }

    /// A payload that this library writes: anything but a group, with a
    /// length that a varint can hold.
    pub open spec fn writable(self) -> bool {
        match self {
            Payload::Bytes(data) => data.len() <= u64::MAX,
            Payload::Group => false,
            _ => true,
        }
    }

    /// The bytes that follow the key.
    pub open spec fn bytes(self) -> Seq<u8> {
        match self {
            Payload::Varint(value) => varint(value),
            Payload::Fixed64(value) => spec_u64_to_le_bytes(value),
            Payload::Bytes(data) => varint(data.len() as u64) + data,
            Payload::Group => Seq::empty(),
            Payload::Fixed32(value) => spec_u32_to_le_bytes(value),
        }
    }
}

impl Field {
    /// A field that this library writes.
    pub open spec fn writable(self) -> bool {
        &&& MIN_FIELD_NUMBER <= self.number <= MAX_FIELD_NUMBER
        &&& self.payload.writable()
    }

    /// The bytes that stand for this field: its key, then its payload.
    pub open spec fn bytes(self) -> Seq<u8> {
        key_bytes(self.number, self.payload.wire_type()) + self.payload.bytes()
    }
}

/// The bytes of the key of a field.
pub open spec fn key_bytes(number: u32, wire_type: WireType) -> Seq<u8> {
    varint((number * 8 + wire_type.code()) as u64)
}

/// The key at the front of `bytes`: field number, wire type and the number
/// of bytes the key occupies. A key is rejected when it exceeds 32 bits, names
/// no wire type, or carries field number zero.
pub open spec fn parse_key(bytes: Seq<u8>) -> Option<(u32, WireType, nat)> {
    match parse_varint(bytes) {
        Some((key, len)) => {
            if key > u32::MAX || key / 8 < MIN_FIELD_NUMBER {
                None
            } else {
                match WireType::from_code((key % 8) as nat) {
                    Some(wire_type) => Some(((key / 8) as u32, wire_type, len)),
                    None => None,
                }
            }
        },
        None => None,
    }
}

/// The bytes of a run of fields, one after the other.
pub open spec fn fields_bytes(fields: Seq<Field>) -> Seq<u8>
    decreases fields.len(),
{
    if fields.len() == 0 {
        Seq::empty()
    } else {
        fields[0].bytes() + fields_bytes(fields.skip(1))
    }
}

/// Whether every field of the run can be written.
pub open spec fn all_writable(fields: Seq<Field>) -> bool {
    forall|i: int| 0 <= i < fields.len() ==> (#[trigger] fields[i]).writable()
}

/// The extent of a payload that is stepped over rather than read: the number
/// of bytes at the front of `bytes` that belong to a field with the given
/// number and wire type. `budget` bounds the nesting of groups; nothing is
/// stepped over once it is used up.
pub open spec fn skip_len(bytes: Seq<u8>, number: u32, wire_type: WireType, budget: nat) -> Option<
    nat,
>
    decreases bytes.len(), 1nat,
{
    if budget == 0 {
        None
    } else {
        match wire_type {
            WireType::Varint => match parse_varint(bytes) {
                Some((_, len)) => Some(len),
                None => None,
            },
            WireType::Fixed64 => if bytes.len() >= 8 {
                Some(8nat)
            } else {
                None
            },
            WireType::LengthDelimited => match parse_varint(bytes) {
                Some((size, len)) => if size <= bytes.len() - len {
                    Some((len + size) as nat)
                } else {
                    None
                },
                None => None,
            },
            WireType::StartGroup => group_len(bytes, number, budget),
            WireType::EndGroup => None,
            WireType::Fixed32 => if bytes.len() >= 4 {
                Some(4nat)
            } else {
                None
            },
        }
    }
}

/// The extent of the body of a group with the given field number, its end
/// marker included. Every field inside is stepped over with a budget one
/// smaller; the end marker must carry the number the group was opened with.
/// Without budget there is no group.
pub open spec fn group_len(bytes: Seq<u8>, number: u32, budget: nat) -> Option<nat>
    decreases bytes.len(), 0nat,
{
    match parse_key(bytes) {
        Some((inner, wire_type, key_len)) => {
            if budget == 0 || key_len == 0 || key_len > bytes.len() {
                None
            } else if wire_type == WireType::EndGroup {
                if inner == number {
                    Some(key_len)
                } else {
                    None
                }
            } else {
                match skip_len(bytes.skip(key_len as int), inner, wire_type, (budget - 1) as nat) {
                    Some(body_len) => {
                        if key_len + body_len > bytes.len() {
                            None
                        } else {
                            match group_len(
                                bytes.skip((key_len + body_len) as int),
                                number,
                                budget,
                            ) {
                                Some(rest_len) => Some(key_len + body_len + rest_len),
                                None => None,
                            }
                        }
                    },
                    None => None,
                }
            }
        },
        None => None,
    }
}

/// The payload at the front of `bytes`, read under the given wire type, and
/// the number of bytes it occupies.
pub open spec fn parse_payload(bytes: Seq<u8>, number: u32, wire_type: WireType, budget: nat)
    -> Option<(Payload, nat)> {
    match wire_type {
        WireType::Varint => match parse_varint(bytes) {
            Some((value, len)) => Some((Payload::Varint(value), len)),
            None => None,
        },
        WireType::Fixed64 => if bytes.len() >= 8 {
            Some((Payload::Fixed64(spec_u64_from_le_bytes(bytes.subrange(0, 8))), 8nat))
        } else {
            None
        },
        WireType::LengthDelimited => match parse_varint(bytes) {
            Some((size, len)) => if size <= bytes.len() - len {
                Some((Payload::Bytes(bytes.subrange(len as int, len + size)), (len + size) as nat))
            } else {
                None
            },
            None => None,
        },
        WireType::StartGroup => match skip_len(bytes, number, WireType::StartGroup, budget) {
            Some(len) => Some((Payload::Group, len)),
            None => None,
        },
        WireType::EndGroup => None,
        WireType::Fixed32 => if bytes.len() >= 4 {
            Some((Payload::Fixed32(spec_u32_from_le_bytes(bytes.subrange(0, 4))), 4nat))
        } else {
            None
        },
    }
}

/// The field at the front of `bytes` and the number of bytes it occupies.
pub open spec fn parse_field(bytes: Seq<u8>, budget: nat) -> Option<(Field, nat)> {
    match parse_key(bytes) {
        Some((number, wire_type, key_len)) => {
            match parse_payload(bytes.skip(key_len as int), number, wire_type, budget) {
                Some((payload, len)) => Some((Field { number, payload }, key_len + len)),
                None => None,
            }
        },
        None => None,
    }
}

/// The fields that `bytes` is made of, in order, or `None` where `bytes` is
/// not a run of well-formed fields from its first byte to its last.
pub open spec fn parse_fields(bytes: Seq<u8>, budget: nat) -> Option<Seq<Field>>
    decreases bytes.len(),
{
    if bytes.len() == 0 {
        Some(Seq::empty())
    } else {
        match parse_field(bytes, budget) {
            Some((field, len)) => {
                if len == 0 || len > bytes.len() {
                    None
                } else {
                    match parse_fields(bytes.skip(len as int), budget) {
                        Some(rest) => Some(seq![field] + rest),
                        None => None,
                    }
                }
            },
            None => None,
        }
    }
}

/// A field as it is read from a buffer: the payload of a length-delimited
/// field borrows from the buffer.
#[derive(Clone, Copy, Debug)]
pub enum PayloadRef<'a> {
    Varint(u64),
    Fixed64(u64),
    Bytes(&'a [u8]),
    Group,
    Fixed32(u32),
}

/// A field as it is read from a buffer.
#[derive(Clone, Copy, Debug)]
pub struct FieldRef<'a> {
    pub number: u32,
    pub payload: PayloadRef<'a>,
}

impl<'a> View for PayloadRef<'a> {
    type V = Payload;

    open spec fn view(&self) -> Payload {
        match *self {
            PayloadRef::Varint(value) => Payload::Varint(value),
            PayloadRef::Fixed64(value) => Payload::Fixed64(value),
            PayloadRef::Bytes(data) => Payload::Bytes(data@),
            PayloadRef::Group => Payload::Group,
            PayloadRef::Fixed32(value) => Payload::Fixed32(value),
        }
    }
}

impl<'a> View for FieldRef<'a> {
    type V = Field;

    open spec fn view(&self) -> Field {
        Field { number: self.number, payload: self.payload@ }
    }
}

/// Appends `data` to `out`.
pub fn put_bytes(out: &mut Vec<u8>, data: &[u8])
    ensures
        final(out)@ == old(out)@ + data@,
{
    let mut i: usize = 0;
    while i < data.len()
        invariant
            i <= data@.len(),
            out@ == old(out)@ + data@.subrange(0, i as int),
        decreases data@.len() - i,
    {
        out.push(data[i]);
        i = i + 1;
    }
    assert(data@.subrange(0, data@.len() as int) =~= data@);
}

/// The number that stands for `wire_type` in a key.
pub fn wire_type_code(wire_type: WireType) -> (code: u8)
    ensures
        code == wire_type.code(),
{
    match wire_type {
        WireType::Varint => 0,
        WireType::Fixed64 => 1,
        WireType::LengthDelimited => 2,
        WireType::StartGroup => 3,
        WireType::EndGroup => 4,
        WireType::Fixed32 => 5,
    }
}

/// Appends the key of a field.
pub fn put_key(out: &mut Vec<u8>, number: u32, wire_type: WireType)
    ensures
        final(out)@ == old(out)@ + key_bytes(number, wire_type),
{
    let code: u8 = wire_type_code(wire_type);
    let key: u64 = number as u64 * 8 + code as u64;
    write_varint(key, out);
}

/// Appends a field that carries an integer in varint form.
pub fn put_varint_field(out: &mut Vec<u8>, number: u32, value: u64)
    ensures
        final(out)@ == old(out)@ + (Field { number, payload: Payload::Varint(value) }).bytes(),
{
    put_key(out, number, WireType::Varint);
    write_varint(value, out);
}

/// Appends a length-delimited field with the given content.
pub fn put_bytes_field(out: &mut Vec<u8>, number: u32, data: &[u8])
    ensures
        final(out)@ == old(out)@ + (Field { number, payload: Payload::Bytes(data@) }).bytes(),
        (Payload::Bytes(data@)).writable(),
{
    put_key(out, number, WireType::LengthDelimited);
    write_varint(data.len() as u64, out);
    put_bytes(out, data);
}

/// Appends a field that carries four bytes.
pub fn put_fixed32_field(out: &mut Vec<u8>, number: u32, value: u32)
    ensures
        final(out)@ == old(out)@ + (Field { number, payload: Payload::Fixed32(value) }).bytes(),
{
    put_key(out, number, WireType::Fixed32);
    let raw: Vec<u8> = u32_to_le_bytes(value);
    put_bytes(out, raw.as_slice());
}

/// Reads the key at the front of `input`. Returns the field number, the wire
/// type and the number of bytes of `input` that follow the key.
pub fn take_key(input: &[u8]) -> (r: Result<(u32, WireType, usize), DecodeError>)
    ensures
        match r {
            Ok((number, wire_type, left)) => {
                &&& left < input@.len()
                &&& parse_key(input@) == Some(
                    (number, wire_type, (input@.len() - left) as nat),
                )
            },
            Err(_) => parse_key(input@) is None,
        },
{
    proof {
        lemma_parse_varint_len(input@);
    }
    match read_varint(input) {
        Some((key, left)) => {
            if key > u32::MAX as u64 || key / 8 < MIN_FIELD_NUMBER as u64 {
                return Err(DecodeError);
            }
            let number: u32 = (key / 8) as u32;
            let code: u64 = key % 8;
            if code == 0 {
                Ok((number, WireType::Varint, left))
            } else if code == 1 {
                Ok((number, WireType::Fixed64, left))
            } else if code == 2 {
                Ok((number, WireType::LengthDelimited, left))
            } else if code == 3 {
                Ok((number, WireType::StartGroup, left))
            } else if code == 4 {
                Ok((number, WireType::EndGroup, left))
            } else if code == 5 {
                Ok((number, WireType::Fixed32, left))
            } else {
                Err(DecodeError)
            }
        },
        None => Err(DecodeError),
    }
}

/// Steps over the payload of a field that is not read. Returns the number of
/// bytes that the payload occupies.
pub fn skip_payload(input: &[u8], number: u32, wire_type: WireType, budget: u32) -> (r: Result<
    usize,
    DecodeError,
>)
    ensures
        match r {
            Ok(len) => len <= input@.len() && skip_len(input@, number, wire_type, budget as nat)
                == Some(len as nat),
            Err(_) => skip_len(input@, number, wire_type, budget as nat) is None,
        },
    decreases input@.len(), 1nat,
{
    if budget == 0 {
        return Err(DecodeError);
    }
    proof {
        lemma_parse_varint_len(input@);
    }
    match wire_type {
        WireType::Varint => match read_varint(input) {
            Some((_, left)) => Ok(input.len() - left),
            None => Err(DecodeError),
        },
        WireType::Fixed64 => if input.len() >= 8 {
            Ok(8)
        } else {
            Err(DecodeError)
        },
        WireType::LengthDelimited => match read_varint(input) {
            Some((size, left)) => if size <= left as u64 {
                Ok(input.len() - left + size as usize)
            } else {
                Err(DecodeError)
            },
            None => Err(DecodeError),
        },
        WireType::StartGroup => skip_group(input, number, budget),
        WireType::EndGroup => Err(DecodeError),
        WireType::Fixed32 => if input.len() >= 4 {
            Ok(4)
        } else {
            Err(DecodeError)
        },
    }
}

/// Steps over the body of a group, up to and including its end marker.
pub fn skip_group(input: &[u8], number: u32, budget: u32) -> (r: Result<usize, DecodeError>)
    ensures
        match r {
            Ok(len) => len <= input@.len() && group_len(input@, number, budget as nat) == Some(
                len as nat,
            ),
            Err(_) => group_len(input@, number, budget as nat) is None,
        },
    decreases input@.len(), 0nat,
{
    let (inner, wire_type, left) = take_key(input)?;
    if budget == 0 {
        return Err(DecodeError);
    }
    let key_len: usize = input.len() - left;
    match wire_type {
        WireType::EndGroup => {
            if inner == number {
                Ok(key_len)
            } else {
                Err(DecodeError)
            }
        },
        _ => {
            let body: &[u8] = slice_subrange(input, key_len, input.len());
            assert(body@ == input@.skip(key_len as int));
            let body_len: usize = skip_payload(body, inner, wire_type, budget - 1)?;
            let rest: &[u8] = slice_subrange(input, key_len + body_len, input.len());
            assert(rest@ == input@.skip((key_len + body_len) as int));
            let rest_len: usize = skip_group(rest, number, budget)?;
            Ok(key_len + body_len + rest_len)
        },
    }
}

/// Reads the field at the front of `input`. Returns the field and the number
/// of bytes it occupies.
pub fn take_field<'a>(input: &'a [u8], budget: u32) -> (r: Result<
    (FieldRef<'a>, usize),
    DecodeError,
>)
    ensures
        match r {
            Ok((field, len)) => {
                &&& 0 < len <= input@.len()
                &&& parse_field(input@, budget as nat) == Some((field@, len as nat))
            },
            Err(_) => parse_field(input@, budget as nat) is None,
        },
{
    let (number, wire_type, left) = take_key(input)?;
    let key_len: usize = input.len() - left;
    let body: &'a [u8] = slice_subrange(input, key_len, input.len());
    assert(body@ == input@.skip(key_len as int));
    proof {
        lemma_parse_varint_len(body@);
    }
    match wire_type {
        WireType::Varint => match read_varint(body) {
            Some((value, rest)) => Ok(
                (FieldRef { number, payload: PayloadRef::Varint(value) }, input.len() - rest),
            ),
            None => Err(DecodeError),
        },
        WireType::Fixed64 => {
            if body.len() >= 8 {
                let value: u64 = u64_from_le_bytes(slice_subrange(body, 0, 8));
                Ok((FieldRef { number, payload: PayloadRef::Fixed64(value) }, key_len + 8))
            } else {
                Err(DecodeError)
            }
        },
        WireType::LengthDelimited => match read_varint(body) {
            Some((size, rest)) => {
                if size <= rest as u64 {
                    let start: usize = body.len() - rest;
                    let data: &'a [u8] = slice_subrange(body, start, start + size as usize);
                    Ok(
                        (
                            FieldRef { number, payload: PayloadRef::Bytes(data) },
                            key_len + start + size as usize,
                        ),
                    )
                } else {
                    Err(DecodeError)
                }
            },
            None => Err(DecodeError),
        },
        WireType::StartGroup => {
            let len: usize = skip_payload(body, number, WireType::StartGroup, budget)?;
            Ok((FieldRef { number, payload: PayloadRef::Group }, key_len + len))
        },
        WireType::EndGroup => Err(DecodeError),
        WireType::Fixed32 => {
            if body.len() >= 4 {
                let value: u32 = u32_from_le_bytes(slice_subrange(body, 0, 4));
                Ok((FieldRef { number, payload: PayloadRef::Fixed32(value) }, key_len + 4))
            } else {
                Err(DecodeError)
            }
        },
    }
}

/// The bytes of two runs of fields, one after the other, are the bytes of
/// the joined run.
pub proof fn lemma_fields_bytes_concat(first: Seq<Field>, second: Seq<Field>)
    ensures
        fields_bytes(first + second) == fields_bytes(first) + fields_bytes(second),
    decreases first.len(),
{
    if first.len() == 0 {
        assert(first + second =~= second);
        assert(fields_bytes(first) + fields_bytes(second) =~= fields_bytes(second));
    } else {
        assert((first + second).skip(1) =~= first.skip(1) + second);
        lemma_fields_bytes_concat(first.skip(1), second);
        assert((first + second)[0] == first[0]);
        assert(fields_bytes(first + second) =~= fields_bytes(first) + fields_bytes(second));
    }
}

/// The bytes of a run of one field are the bytes of that field.
pub proof fn lemma_fields_bytes_single(field: Field)
    ensures
        fields_bytes(seq![field]) == field.bytes(),
{
    let fields = seq![field];
    assert(fields.skip(1) =~= Seq::<Field>::empty());
    assert(fields_bytes(fields.skip(1)) =~= Seq::<u8>::empty());
    assert(fields_bytes(fields) =~= field.bytes());
}

/// The key that was written is the key that is read, whatever follows it.
pub proof fn lemma_parse_key_round_trip(number: u32, wire_type: WireType, rest: Seq<u8>)
    requires
        MIN_FIELD_NUMBER <= number <= MAX_FIELD_NUMBER,
    ensures
        parse_key(key_bytes(number, wire_type) + rest) == Some(
            (number, wire_type, key_bytes(number, wire_type).len()),
        ),
        key_bytes(number, wire_type).len() >= 1,
{
    let key = (number * 8 + wire_type.code()) as u64;
    lemma_parse_varint_round_trip(key, rest);
    lemma_varint_len(key);
}

/// The field that was written is the field that is read, whatever follows
/// it.
pub proof fn lemma_parse_field_round_trip(field: Field, rest: Seq<u8>, budget: nat)
    requires
        field.writable(),
    ensures
        parse_field(field.bytes() + rest, budget) == Some((field, field.bytes().len())),
        field.bytes().len() >= 1,
{
    let wire_type = field.payload.wire_type();
    let key = key_bytes(field.number, wire_type);
    let body = field.payload.bytes();
    let all = field.bytes() + rest;
    assert(all =~= key + (body + rest));
    lemma_parse_key_round_trip(field.number, wire_type, body + rest);
    assert(all.skip(key.len() as int) =~= body + rest);
    match field.payload {
        Payload::Varint(value) => {
            lemma_parse_varint_round_trip(value, rest);
        },
        Payload::Fixed64(value) => {
            lemma_auto_spec_u64_to_from_le_bytes();
            assert((body + rest).subrange(0, 8) =~= body);
        },
        Payload::Bytes(data) => {
            let size = data.len() as u64;
            assert(body + rest =~= varint(size) + (data + rest));
            lemma_parse_varint_round_trip(size, data + rest);
            lemma_varint_len(size);
            let len = varint(size).len();
            assert((body + rest).subrange(len as int, len + size) =~= data);
        },
        Payload::Group => {},
        Payload::Fixed32(value) => {
            lemma_auto_spec_u32_to_from_le_bytes();
            assert((body + rest).subrange(0, 4) =~= body);
        },
    }
}

/// Reading undoes writing: a run of writable fields, once serialized, parses
/// back to the same run.
pub proof fn lemma_parse_fields_round_trip(fields: Seq<Field>, budget: nat)
    requires
        all_writable(fields),
    ensures
        parse_fields(fields_bytes(fields), budget) == Some(fields),
    decreases fields.len(),
{
    if fields.len() == 0 {
        assert(fields =~= Seq::<Field>::empty());
    } else {
        let first = fields[0];
        let rest = fields.skip(1);
        assert(first.writable());
        assert(all_writable(rest)) by {
            assert forall|i: int| 0 <= i < rest.len() implies (#[trigger] rest[i]).writable() by {
                assert(rest[i] == fields[i + 1]);
            }
        }
        lemma_parse_field_round_trip(first, fields_bytes(rest), budget);
        lemma_parse_fields_round_trip(rest, budget);
        let bytes = fields_bytes(fields);
        assert(bytes.skip(first.bytes().len() as int) =~= fields_bytes(rest));
        assert(seq![first] + rest =~= fields);
    }
}

} // verus!
