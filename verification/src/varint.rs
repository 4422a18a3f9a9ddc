//! Base-128 variable-length integers, the building block of the wire format.
//!
//! A value is written least-significant group first, seven bits per byte; every
//! byte but the last has its high bit set. The reading and writing itself is
//! done by `prost`; this module states what those routines compute and proves
//! that reading undoes writing.

use vstd::prelude::*;

verus! {

/// The bytes that represent `value`.
pub open spec fn varint(value: u64) -> Seq<u8>
    decreases value,
{
    if value < 128 {
        seq![value as u8]
    } else {
        seq![(value % 128 + 128) as u8] + varint(value / 128)
    }
}

/// Exclusive upper bound of the value that may still follow once `index` bytes
/// of a varint have been read: `2^(64 - 7 * index)`.
pub open spec fn varint_room(index: nat) -> nat
    decreases 9 - index,
{
    if index >= 9 {
        2
    } else {
        128 * varint_room(index + 1)
    }
}

/// Reads a varint whose first byte is `bytes[0]`, given that `index` bytes of
/// it were consumed before. Yields the value of the remaining groups and the
/// number of bytes they occupy.
///
/// At most ten bytes make up a varint, and the tenth may only carry the one
/// bit that is left of a 64-bit value.
pub open spec fn varint_tail(bytes: Seq<u8>, index: nat) -> Option<(nat, nat)>
    decreases bytes.len(),
{
    if index >= 10 || bytes.len() == 0 {
        None
    } else if bytes[0] < 128 {
        if index == 9 && bytes[0] >= 2 {
            None
        } else {
            Some((bytes[0] as nat, 1nat))
        }
    } else {
        match varint_tail(bytes.skip(1), index + 1) {
            Some((rest, len)) => Some(((bytes[0] - 128 + 128 * rest) as nat, len + 1)),
            None => None,
        }
    }
}

/// The value at the front of `bytes` and the number of bytes it occupies, or
/// `None` where `bytes` does not start with a well-formed varint.
pub open spec fn parse_varint(bytes: Seq<u8>) -> Option<(u64, nat)> {
    match varint_tail(bytes, 0) {
        Some((value, len)) => Some((value as u64, len)),
        None => None,
    }
}

/// Appends the varint form of `value` to `out`.
///
/// Trusted: `prost::encoding::encode_varint` on a `Vec<u8>` pushes exactly the
/// bytes of [`varint`] and touches nothing that was already there.
#[verifier::external_body]
pub(crate) fn write_varint(value: u64, out: &mut Vec<u8>)
    ensures
        final(out)@ == old(out)@ + varint(value),
{
    prost::encoding::encode_varint(value, out);
}

/// Reads the varint at the front of `input`. Returns the value and the number
/// of bytes of `input` that follow it.
///
/// Trusted: `prost::encoding::decode_varint` on a byte slice succeeds exactly
/// where [`parse_varint`] does, yields the same value, and advances the slice
/// past the bytes of the varint and no further.
#[verifier::external_body]
pub(crate) fn read_varint(input: &[u8]) -> (r: Option<(u64, usize)>)
    ensures
        match r {
            Some((value, left)) => parse_varint(input@) == Some(
                (value, (input@.len() - left) as nat),
            ) && left <= input@.len(),
            None => parse_varint(input@) is None,
        },
{
    let mut rest = input;
    match prost::encoding::decode_varint(&mut rest) {
        Ok(value) => Some((value, rest.len())),
        Err(_) => None,
    }
}

/// A varint occupies between one and ten bytes.
pub proof fn lemma_varint_len(value: u64)
    ensures
        1 <= varint(value).len() <= 10,
{
    lemma_varint_room_values();
    lemma_varint_len_bounded(value, 0);
}

proof fn lemma_varint_room_values()
    ensures
        varint_room(0) == 0x1_0000_0000_0000_0000,
        forall|k: nat| k < 9 ==> #[trigger] varint_room(k) == 128 * varint_room(k + 1),
        varint_room(9) == 2,
{
    reveal_with_fuel(varint_room, 11);
}

proof fn lemma_varint_len_bounded(value: u64, index: nat)
    requires
        index <= 9,
        value < varint_room(index),
    ensures
        1 <= varint(value).len() <= 10 - index,
    decreases value,
{
    if value >= 128 {
        lemma_varint_room_values();
        lemma_varint_len_bounded(value / 128, index + 1);
    }
}

/// Reading at position `index` of a varint gives back the value that was
/// written, whatever bytes follow.
proof fn lemma_varint_tail_round_trip(value: u64, rest: Seq<u8>, index: nat)
    requires
        index <= 9,
        value < varint_room(index),
    ensures
        varint_tail(varint(value) + rest, index) == Some(
            (value as nat, varint(value).len()),
        ),
    decreases value,
{
    let bytes = varint(value) + rest;
    if value < 128 {
        assert(bytes[0] == value as u8);
    } else {
        lemma_varint_room_values();
        assert(bytes[0] == (value % 128 + 128) as u8);
        assert(bytes.skip(1) =~= varint(value / 128) + rest);
        lemma_varint_tail_round_trip(value / 128, rest, index + 1);
    }
}

/// Reading undoes writing: the varint of `value`, followed by anything, parses
/// to `value` and to the length of that varint.
pub proof fn lemma_parse_varint_round_trip(value: u64, rest: Seq<u8>)
    ensures
        parse_varint(varint(value) + rest) == Some((value, varint(value).len())),
{
    lemma_varint_room_values();
    lemma_varint_tail_round_trip(value, rest, 0);
}

/// A varint that parses occupies at least one byte and no more than the input
/// holds.
pub proof fn lemma_parse_varint_len(bytes: Seq<u8>)
    ensures
        parse_varint(bytes) matches Some((_, len)) ==> 1 <= len <= bytes.len() && len <= 10,
{
    lemma_varint_tail_len(bytes, 0);
}

proof fn lemma_varint_tail_len(bytes: Seq<u8>, index: nat)
    ensures
        varint_tail(bytes, index) matches Some((_, len)) ==> 1 <= len <= bytes.len() && len + index
            <= 10,
    decreases bytes.len(),
{
    if index < 10 && bytes.len() > 0 && bytes[0] >= 128 {
        lemma_varint_tail_len(bytes.skip(1), index + 1);
    }
}

} // verus!
