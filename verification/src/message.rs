//! What every message of the protocol has in common.

use vstd::prelude::*;
use vstd::slice::slice_subrange;
use crate::wire::{
    all_writable, fields_bytes, lemma_parse_fields_round_trip, parse_field, parse_fields,
    take_field, DecodeError, Field, FieldRef, MAX_FIELD_NUMBER, MIN_FIELD_NUMBER,
    RECURSION_LIMIT,
};

verus! {

/// The mathematical model of a message type: how a value maps to fields and
/// how fields are merged into a value.
pub trait WireModel: Sized {
    /// The value with every field at its default.
    spec fn blank() -> Self;

    /// The fields that stand for this value, in the order they are written.
    spec fn fields(self) -> Seq<Field>;

    /// This value after one more field was read, or `None` where the field
    /// cannot be accepted.
    spec fn merge_field(self, field: Field, budget: nat) -> Option<Self>;

    /// How many levels of nested messages this type can hold below itself.
    spec fn depth() -> nat;

    /// This value as it is read back once it was written: the same value,
    /// but that a negative zero in a float member has become a positive
    /// one. Written like the default, it is not written at all.
    spec fn canonical(self) -> Self;

    /// Whether the serialized form keeps every bit of this value: whether
    /// no float member holds a negative zero.
    spec fn exact(self) -> bool;
}

/// The laws that every message type obeys.
pub trait WireLaws: WireModel {
    /// No message nests as deep as the outermost budget allows.
    proof fn lemma_depth_fits()
        ensures
            Self::depth() < RECURSION_LIMIT,
    ;

    /// An exact value is read back as it is.
    proof fn lemma_exact_is_canonical(self)
        requires
            self.exact(),
        ensures
            self.canonical() == self,
    ;

    /// Merging the fields of a value into a blank one gives the value back,
    /// in its canonical form.
    proof fn lemma_fields_round_trip(self, budget: nat)
        requires
            encoded(self).len() <= u64::MAX,
            budget >= Self::depth(),
        ensures
            plain(self.fields()),
            merge_fields(Self::blank(), self.fields(), budget) == Some(self.canonical()),
    ;
}

/// A run of fields that holds no group and only field numbers that fit in a
/// key.
pub open spec fn plain(fields: Seq<Field>) -> bool {
    forall|i: int|
        0 <= i < fields.len() ==> {
            &&& MIN_FIELD_NUMBER <= (#[trigger] fields[i]).number <= MAX_FIELD_NUMBER
            &&& !(fields[i].payload is Group)
        }
}

/// Merges a run of fields into `acc`, first to last.
pub open spec fn merge_fields<M: WireModel>(acc: M, fields: Seq<Field>, budget: nat) -> Option<M>
    decreases fields.len(),
{
    if fields.len() == 0 {
        Some(acc)
    } else {
        match acc.merge_field(fields[0], budget) {
            Some(next) => merge_fields(next, fields.skip(1), budget),
            None => None,
        }
    }
}

/// Merges a serialized message into `acc`.
pub open spec fn merge_bytes<M: WireModel>(acc: M, bytes: Seq<u8>, budget: nat) -> Option<M> {
    match parse_fields(bytes, budget) {
        Some(fields) => merge_fields(acc, fields, budget),
        None => None,
    }
}

/// The message that `bytes` stands for.
pub open spec fn decoded<M: WireModel>(bytes: Seq<u8>) -> Option<M> {
    merge_bytes(M::blank(), bytes, RECURSION_LIMIT as nat)
}

/// The bytes that stand for `message`.
pub open spec fn encoded<M: WireModel>(message: M) -> Seq<u8> {
    fields_bytes(message.fields())
}

/// A message of the protocol.
pub trait Message: Sized + View where Self::V: WireLaws {
    /// A message with every field at its default.
    fn empty() -> (m: Self)
        ensures
            m@ == Self::V::blank(),
    ;

    /// Appends the serialized form of this message to `out`.
    fn encode_raw(&self, out: &mut Vec<u8>)
        ensures
            final(out)@ == old(out)@ + encoded(self@),
            all_writable(self@.fields()),
    ;

    /// Takes in one field that was read from a buffer.
    fn merge_field(self, field: FieldRef<'_>, budget: u32) -> (r: Result<Self, DecodeError>)
        ensures
            match r {
                Ok(m) => self@.merge_field(field@, budget as nat) == Some(m@),
                Err(_) => self@.merge_field(field@, budget as nat) is None,
            },
    ;

    /// Appends the serialized form of this message to `buf`.
    fn encode(&self, buf: &mut Vec<u8>)
        ensures
            final(buf)@ == old(buf)@ + encoded(self@),
    {
        self.encode_raw(buf)
    }

    /// The serialized form of this message.
    ///
    /// Decoding the result gives the message back in its canonical form:
    /// as it is, but for the sign of a negative zero, which the serialized
    /// form does not keep.
    fn encode_to_vec(&self) -> (out: Vec<u8>)
        ensures
            out@ == encoded(self@),
            all_writable(self@.fields()),
            decoded::<Self::V>(out@) == Some(self@.canonical()),
            self@.exact() ==> decoded::<Self::V>(out@) == Some(self@),
    {
        let mut out: Vec<u8> = Vec::new();
        self.encode_raw(&mut out);
        assert(out@ =~= encoded(self@));
        proof {
            assert(out@.len() == out.len());
            lemma_decode_encode(self@);
        }
        out
    }

    /// Merges the serialized message in `input` into this one: a plain
    /// member takes the last value that `input` holds for it, a nested
    /// message is merged in turn, and the elements of a repeated member are
    /// appended. Fields that the message does not know are stepped over.
    ///
    /// `budget` bounds how deep nested messages and groups may go.
    fn merge(self, input: &[u8], budget: u32) -> (r: Result<Self, DecodeError>)
        ensures
            match r {
                Ok(m) => merge_bytes(self@, input@, budget as nat) == Some(m@),
                Err(_) => merge_bytes(self@, input@, budget as nat) is None,
            },
    {
        let mut message: Self = self;
        let mut rest: &[u8] = input;
        while rest.len() > 0
            invariant
                merge_bytes(self@, input@, budget as nat) == merge_bytes(
                    message@,
                    rest@,
                    budget as nat,
                ),
            decreases rest@.len(),
        {
            let ghost before = message@;
            let ghost bytes = rest@;
            let (field, len) = match take_field(rest, budget) {
                Ok(taken) => taken,
                Err(e) => {
                    return Err(e);
                },
            };
            let next: &[u8] = slice_subrange(rest, len, rest.len());
            assert(next@ == bytes.skip(len as int));
            proof {
                lemma_merge_first(before, bytes, budget as nat);
            }
            message = match message.merge_field(field, budget) {
                Ok(m) => m,
                Err(e) => {
                    return Err(e);
                },
            };
            rest = next;
        }
        assert(parse_fields(rest@, budget as nat) == Some(Seq::<Field>::empty()));
        Ok(message)
    }

    /// Reads a message from `input`.
    ///
    /// Succeeds exactly where `input` is a run of well-formed fields in which
    /// every member that the message knows has the wire type it is written
    /// with, every string is UTF-8, and nothing nests deeper than the budget
    /// allows. Members that `input` does not mention are absent or at their
    /// default.
    fn decode(input: &[u8]) -> (r: Result<Self, DecodeError>)
        ensures
            match r {
                Ok(m) => decoded::<Self::V>(input@) == Some(m@),
                Err(_) => decoded::<Self::V>(input@) is None,
            },
    {
        Self::empty().merge(input, RECURSION_LIMIT)
    }
}

/// Merging a serialized message is merging its first field and then the
/// rest.
pub proof fn lemma_merge_first<M: WireModel>(acc: M, bytes: Seq<u8>, budget: nat)
    requires
        bytes.len() > 0,
    ensures
        merge_bytes(acc, bytes, budget) == match parse_field(bytes, budget) {
            Some((field, len)) => if len == 0 || len > bytes.len() {
                None
            } else {
                match acc.merge_field(field, budget) {
                    Some(next) => merge_bytes(next, bytes.skip(len as int), budget),
                    None => None,
                }
            },
            None => None,
        },
{
    match parse_field(bytes, budget) {
        Some((field, len)) => {
            if len == 0 || len > bytes.len() {
            } else {
                match parse_fields(bytes.skip(len as int), budget) {
                    Some(rest) => {
                        let fields = seq![field] + rest;
                        assert(fields[0] == field);
                        assert(fields.skip(1) =~= rest);
                    },
                    None => {},
                }
            }
        },
        None => {},
    }
}

/// Merging two runs of fields, one after the other, is merging the joined
/// run.
pub proof fn lemma_merge_fields_concat<M: WireModel>(
    acc: M,
    first: Seq<Field>,
    second: Seq<Field>,
    budget: nat,
)
    ensures
        merge_fields(acc, first + second, budget) == match merge_fields(acc, first, budget) {
            Some(middle) => merge_fields(middle, second, budget),
            None => None,
        },
    decreases first.len(),
{
    if first.len() == 0 {
        assert(first + second =~= second);
    } else {
        assert((first + second)[0] == first[0]);
        assert((first + second).skip(1) =~= first.skip(1) + second);
        match acc.merge_field(first[0], budget) {
            Some(next) => {
                lemma_merge_fields_concat(next, first.skip(1), second, budget);
            },
            None => {},
        }
    }
}

/// The bytes of a run of fields are at least as long as the bytes of each
/// field in it.
pub proof fn lemma_field_within(fields: Seq<Field>, i: int)
    requires
        0 <= i < fields.len(),
    ensures
        fields[i].bytes().len() <= fields_bytes(fields).len(),
    decreases fields.len(),
{
    if i > 0 {
        lemma_field_within(fields.skip(1), i - 1);
    }
}

/// A plain run of fields whose bytes fit in 64 bits of length can be written.
pub proof fn lemma_plain_writable(fields: Seq<Field>)
    requires
        plain(fields),
        fields_bytes(fields).len() <= u64::MAX,
    ensures
        all_writable(fields),
{
    assert forall|i: int| 0 <= i < fields.len() implies (#[trigger] fields[i]).writable() by {
        lemma_field_within(fields, i);
    }
}

/// Round trip under any sufficient budget: what was written is what is read,
/// in its canonical form.
pub proof fn lemma_merge_encoded<M: WireLaws>(message: M, budget: nat)
    requires
        encoded(message).len() <= u64::MAX,
        budget >= M::depth(),
    ensures
        merge_bytes(M::blank(), encoded(message), budget) == Some(message.canonical()),
{
    message.lemma_fields_round_trip(budget);
    lemma_plain_writable(message.fields());
    lemma_parse_fields_round_trip(message.fields(), budget);
}

/// Round trip: decoding the serialized form of a message gives the message
/// back, field for field, absent members included. Every member comes back
/// as it was, but that a negative zero in a float member comes back as a
/// positive one; a message without one comes back as it was.
pub proof fn lemma_decode_encode<M: WireLaws>(message: M)
    requires
        encoded(message).len() <= u64::MAX,
    ensures
        decoded::<M>(encoded(message)) == Some(message.canonical()),
        message.exact() ==> decoded::<M>(encoded(message)) == Some(message),
{
    M::lemma_depth_fits();
    lemma_merge_encoded(message, RECURSION_LIMIT as nat);
    if message.exact() {
        message.lemma_exact_is_canonical();
    }
}

} // verus!
