//! The SCALE wire format of the values that cross the boundary between a task and its host.
//!
//! Integers, byte arrays and the success marker of a `Result` are encoded and decoded by
//! `parity_scale_codec`. What the types of this library look like on the wire is put together
//! from those pieces: an enum is the index of its variant, then the variant's fields.
use vstd::prelude::*;

verus! {

/// Why some bytes are not the encoding of a value.
#[derive(Clone, Copy, Debug, PartialEq, Eq, Structural)]
pub enum DecodeError {
    /// The input ends before the value does.
    NotEnoughData,
    /// The index byte names no variant of the type.
    UnknownVariant,
}

/// A value with a SCALE encoding.
///
/// A decoder reads the encoding off the front of its input and hands back what follows it, so
/// trailing bytes are never an error.
pub trait Scale: Sized {
    /// The bytes of the value on the wire.
    spec fn encoding(&self) -> Seq<u8>;

    /// What is wrong with `bytes`, or `None` where they start with the encoding of a value.
    spec fn decode_error(bytes: Seq<u8>) -> Option<DecodeError>;

    /// Encodes the value.
    fn encode(&self) -> (bytes: Vec<u8>)
        ensures
            bytes@ == self.encoding(),
    ;

    /// Decodes a value from the front of `input`, and returns it with the bytes that follow it.
    fn decode<'a>(input: &'a [u8]) -> (result: Result<(Self, &'a [u8]), DecodeError>)
        ensures
            match result {
                Ok((value, rest)) => Self::decode_error(input@) is None && input@
                    == value.encoding() + rest@,
                Err(error) => Self::decode_error(input@) == Some(error),
            },
    ;

    /// What starts with the encoding of a value can be decoded.
    proof fn lemma_encoding_decodes(&self, rest: Seq<u8>)
        ensures
            Self::decode_error(self.encoding() + rest) is None,
    ;

    /// No encoding is the start of another one.
    proof fn lemma_encoding_prefix_free(&self, other: &Self, rest: Seq<u8>, other_rest: Seq<u8>)
        requires
            self.encoding() + rest == other.encoding() + other_rest,
        ensures
            *self == *other,
            rest == other_rest,
    ;
}

/// `bytes` decode to `value`, with `rest` left over.
pub open spec fn decodes_to<T: Scale>(bytes: Seq<u8>, value: T, rest: Seq<u8>) -> bool {
    &&& T::decode_error(bytes) is None
    &&& bytes == value.encoding() + rest
}

/// Decoding an encoded value gives back that value and no other, whatever follows it, and leaves
/// exactly what followed it.
pub proof fn law_decode_inverts_encode<T: Scale>(value: T, rest: Seq<u8>)
    ensures
        forall|other: T, other_rest: Seq<u8>|
            #[trigger] decodes_to(value.encoding() + rest, other, other_rest) <==> other == value
                && other_rest == rest,
{
    value.lemma_encoding_decodes(rest);
    assert forall|other: T, other_rest: Seq<u8>| #[trigger]
        decodes_to(value.encoding() + rest, other, other_rest) implies other == value && other_rest
        == rest by {
        value.lemma_encoding_prefix_free(&other, rest, other_rest);
    }
}

/// Two values with the same encoding are the same value.
pub proof fn law_encoding_is_injective<T: Scale>(value: T, other: T)
    requires
        value.encoding() == other.encoding(),
    ensures
        value == other,
{
    value.lemma_encoding_prefix_free(&other, Seq::empty(), Seq::empty());
}

/// `bytes` start with the encoding of `value`.
pub open spec fn starts_with<T: Scale>(bytes: Seq<u8>, value: T) -> bool {
    exists|rest: Seq<u8>| decodes_to(bytes, value, rest)
}

/// The value whose encoding `bytes` start with.
pub open spec fn decoded<T: Scale>(bytes: Seq<u8>) -> T {
    choose|value: T| starts_with(bytes, value)
}

/// Bytes decode to one value at most.
pub proof fn law_decoded_is_unique<T: Scale>(bytes: Seq<u8>, value: T)
    requires
        starts_with(bytes, value),
    ensures
        decoded::<T>(bytes) == value,
{
    let rest = choose|rest: Seq<u8>| decodes_to(bytes, value, rest);
    let other = decoded::<T>(bytes);
    assert(starts_with(bytes, other));
    let other_rest = choose|other_rest: Seq<u8>| decodes_to(bytes, other, other_rest);
    value.lemma_encoding_prefix_free(&other, rest, other_rest);
}

/// The four bytes of `value`, least significant first.
pub open spec fn little_endian(value: u32) -> Seq<u8> {
    seq![
        (value % 0x100) as u8,
        (value / 0x100 % 0x100) as u8,
        (value / 0x1_0000 % 0x100) as u8,
        (value / 0x100_0000) as u8,
    ]
}

/// The value that four bytes stand for, least significant first.
pub open spec fn from_little_endian(bytes: Seq<u8>) -> int {
    bytes[0] + 0x100 * bytes[1] + 0x1_0000 * bytes[2] + 0x100_0000 * bytes[3]
}

/// A `u32` is determined by its four bytes.
pub proof fn lemma_little_endian_inverse(value: u32)
    ensures
        from_little_endian(little_endian(value)) == value,
{
    assert(value == value % 0x100 + 0x100 * (value / 0x100 % 0x100) + 0x1_0000 * (value / 0x1_0000
        % 0x100) + 0x100_0000 * (value / 0x100_0000)) by (bit_vector);
    assert(value % 0x100 < 0x100 && value / 0x100 % 0x100 < 0x100 && value / 0x1_0000 % 0x100
        < 0x100 && value / 0x100_0000 < 0x100) by (bit_vector);
}

/// The error of `parity_scale_codec`: its text plays no part in what this library does.
#[verifier::external_type_specification]
#[verifier::external_body]
pub struct ExCodecError(parity_scale_codec::Error);

/// `Encode::encode` of `parity_scale_codec` on a `u8`: the byte itself.
#[verifier::external_body]
pub(crate) fn encode_u8(value: u8) -> (bytes: Vec<u8>)
    ensures
        bytes@ == seq![value],
{
    parity_scale_codec::Encode::encode(&value)
}

/// `Decode::decode` of `parity_scale_codec` for a `u8`, on a slice: takes one byte off the front,
/// and fails only where there is none.
#[verifier::external_body]
pub(crate) fn decode_u8<'a>(input: &'a [u8]) -> (result: Result<
    (u8, &'a [u8]),
    parity_scale_codec::Error,
>)
    ensures
        result is Ok <==> input@.len() >= 1,
        result matches Ok((value, rest)) ==> input@ == seq![value] + rest@,
{
    let mut rest: &'a [u8] = input;
    let value: u8 = parity_scale_codec::Decode::decode(&mut rest)?;
    Ok((value, rest))
}

/// `Encode::encode` of `parity_scale_codec` on a `u32`: its four bytes, least significant first.
#[verifier::external_body]
pub(crate) fn encode_u32(value: u32) -> (bytes: Vec<u8>)
    ensures
        bytes@ == little_endian(value),
{
    parity_scale_codec::Encode::encode(&value)
}

/// `Decode::decode` of `parity_scale_codec` for a `u32`, on a slice: takes four bytes off the
/// front, least significant first, and fails only where there are fewer.
#[verifier::external_body]
pub(crate) fn decode_u32<'a>(input: &'a [u8]) -> (result: Result<
    (u32, &'a [u8]),
    parity_scale_codec::Error,
>)
    ensures
        result is Ok <==> input@.len() >= 4,
        result matches Ok((value, rest)) ==> input@ == little_endian(value) + rest@,
{
    let mut rest: &'a [u8] = input;
    let value: u32 = parity_scale_codec::Decode::decode(&mut rest)?;
    Ok((value, rest))
}

/// `Encode::encode` of `parity_scale_codec` on an array of 32 bytes: the bytes in order, with no
/// length in front.
#[verifier::external_body]
pub(crate) fn encode_bytes32(value: &[u8; 32]) -> (bytes: Vec<u8>)
    ensures
        bytes@ == value@,
{
    parity_scale_codec::Encode::encode(value)
}

/// `Decode::decode` of `parity_scale_codec` for an array of 32 bytes, on a slice: takes 32 bytes
/// off the front in order, and fails only where there are fewer.
#[verifier::external_body]
pub(crate) fn decode_bytes32<'a>(input: &'a [u8]) -> (result: Result<
    ([u8; 32], &'a [u8]),
    parity_scale_codec::Error,
>)
    ensures
        result is Ok <==> input@.len() >= 32,
        result matches Ok((value, rest)) ==> input@ == value@ + rest@,
{
    let mut rest: &'a [u8] = input;
    let value: [u8; 32] = parity_scale_codec::Decode::decode(&mut rest)?;
    Ok((value, rest))
}

/// The byte in front of the payload of a `Result`.
pub open spec fn outcome_marker(outcome: Result<(), ()>) -> u8 {
    if outcome is Ok {
        0
    } else {
        1
    }
}

/// `Encode::encode` of `parity_scale_codec` on a `Result` without a payload: the marker of the
/// `Result` alone, since `()` takes no bytes.
#[verifier::external_body]
pub(crate) fn encode_outcome(outcome: Result<(), ()>) -> (bytes: Vec<u8>)
    ensures
        bytes@ == seq![outcome_marker(outcome)],
{
    parity_scale_codec::Encode::encode(&outcome)
}

/// `Decode::decode` of `parity_scale_codec` for a `Result` without a payload, on a slice: takes
/// the marker off the front, and fails where there is none or where it is neither 0 nor 1.
#[verifier::external_body]
pub(crate) fn decode_outcome<'a>(input: &'a [u8]) -> (result: Result<
    (Result<(), ()>, &'a [u8]),
    parity_scale_codec::Error,
>)
    ensures
        result is Ok <==> (input@.len() >= 1 && input@[0] <= 1),
        result matches Ok((outcome, rest)) ==> input@ == seq![outcome_marker(outcome)] + rest@,
{
    let mut rest: &'a [u8] = input;
    let outcome: Result<(), ()> = parity_scale_codec::Decode::decode(&mut rest)?;
    Ok((outcome, rest))
}

/// Two ways to split `bytes` after the same number of bytes are the same split.
pub(crate) proof fn lemma_same_split(a: Seq<u8>, b: Seq<u8>, rest: Seq<u8>, other_rest: Seq<u8>)
    requires
        a + rest == b + other_rest,
        a.len() == b.len(),
    ensures
        a == b,
        rest == other_rest,
{
    let bytes = a + rest;
    assert(a =~= bytes.take(a.len() as int));
    assert(b =~= bytes.take(a.len() as int));
    assert(rest =~= bytes.skip(a.len() as int));
    assert(other_rest =~= bytes.skip(a.len() as int));
}

/// The byte itself.
impl Scale for u8 {
    open spec fn encoding(&self) -> Seq<u8> {
        seq![*self]
    }

    open spec fn decode_error(bytes: Seq<u8>) -> Option<DecodeError> {
        if bytes.len() < 1 {
            Some(DecodeError::NotEnoughData)
        } else {
            None
        }
    }

    fn encode(&self) -> (bytes: Vec<u8>) {
        encode_u8(*self)
    }

    fn decode<'a>(input: &'a [u8]) -> (result: Result<(Self, &'a [u8]), DecodeError>) {
        match decode_u8(input) {
            Ok((value, rest)) => Ok((value, rest)),
            Err(_) => Err(DecodeError::NotEnoughData),
        }
    }

    proof fn lemma_encoding_decodes(&self, rest: Seq<u8>) {
    }

    proof fn lemma_encoding_prefix_free(&self, other: &Self, rest: Seq<u8>, other_rest: Seq<u8>) {
        lemma_same_split(self.encoding(), other.encoding(), rest, other_rest);
        assert(self.encoding()[0] == other.encoding()[0]);
    }
}

/// Four bytes, least significant first.
impl Scale for u32 {
    open spec fn encoding(&self) -> Seq<u8> {
        little_endian(*self)
    }

    open spec fn decode_error(bytes: Seq<u8>) -> Option<DecodeError> {
        if bytes.len() < 4 {
            Some(DecodeError::NotEnoughData)
        } else {
            None
        }
    }

    fn encode(&self) -> (bytes: Vec<u8>) {
        encode_u32(*self)
    }

    fn decode<'a>(input: &'a [u8]) -> (result: Result<(Self, &'a [u8]), DecodeError>) {
        match decode_u32(input) {
            Ok((value, rest)) => Ok((value, rest)),
            Err(_) => Err(DecodeError::NotEnoughData),
        }
    }

    proof fn lemma_encoding_decodes(&self, rest: Seq<u8>) {
    }

    proof fn lemma_encoding_prefix_free(&self, other: &Self, rest: Seq<u8>, other_rest: Seq<u8>) {
        lemma_same_split(self.encoding(), other.encoding(), rest, other_rest);
        lemma_little_endian_inverse(*self);
        lemma_little_endian_inverse(*other);
    }
}

/// The bytes in order, with no length in front.
impl Scale for [u8; 32] {
    open spec fn encoding(&self) -> Seq<u8> {
        self@
    }

    open spec fn decode_error(bytes: Seq<u8>) -> Option<DecodeError> {
        if bytes.len() < 32 {
            Some(DecodeError::NotEnoughData)
        } else {
            None
        }
    }

    fn encode(&self) -> (bytes: Vec<u8>) {
        encode_bytes32(self)
    }

    fn decode<'a>(input: &'a [u8]) -> (result: Result<(Self, &'a [u8]), DecodeError>) {
        match decode_bytes32(input) {
            Ok((value, rest)) => Ok((value, rest)),
            Err(_) => Err(DecodeError::NotEnoughData),
        }
    }

    proof fn lemma_encoding_decodes(&self, rest: Seq<u8>) {
    }

    proof fn lemma_encoding_prefix_free(&self, other: &Self, rest: Seq<u8>, other_rest: Seq<u8>) {
        lemma_same_split(self.encoding(), other.encoding(), rest, other_rest);
        assert forall|i: int| 0 <= i < 32 implies self[i] == other[i] by {
            assert(self@[i] == other@[i]);
        }
        assert(*self =~= *other);
    }
}

/// The marker of the `Result`, then the encoding of what it holds.
impl<T: Scale, E: Scale> Scale for Result<T, E> {
    open spec fn encoding(&self) -> Seq<u8> {
        match self {
            Ok(value) => seq![0u8] + value.encoding(),
            Err(error) => seq![1u8] + error.encoding(),
        }
    }

    open spec fn decode_error(bytes: Seq<u8>) -> Option<DecodeError> {
        if bytes.len() == 0 {
            Some(DecodeError::NotEnoughData)
        } else if bytes[0] == 0 {
            T::decode_error(bytes.skip(1))
        } else if bytes[0] == 1 {
            E::decode_error(bytes.skip(1))
        } else {
            Some(DecodeError::UnknownVariant)
        }
    }

    fn encode(&self) -> (bytes: Vec<u8>) {
        match self {
            Ok(value) => {
                let mut bytes = encode_outcome(Ok(()));
                let mut payload = value.encode();
                bytes.append(&mut payload);
                bytes
            },
            Err(error) => {
                let mut bytes = encode_outcome(Err(()));
                let mut payload = error.encode();
                bytes.append(&mut payload);
                bytes
            },
        }
    }

    fn decode<'a>(input: &'a [u8]) -> (result: Result<(Self, &'a [u8]), DecodeError>) {
        match decode_outcome(input) {
            Ok((outcome, payload)) => {
                assert(input@.skip(1) =~= payload@);
                match outcome {
                    Ok(_) => match T::decode(payload) {
                        Ok((value, rest)) => {
                            assert(input@ =~= seq![0u8] + value.encoding() + rest@);
                            Ok((Ok(value), rest))
                        },
                        Err(error) => Err(error),
                    },
                    Err(_) => match E::decode(payload) {
                        Ok((value, rest)) => {
                            assert(input@ =~= seq![1u8] + value.encoding() + rest@);
                            Ok((Err(value), rest))
                        },
                        Err(error) => Err(error),
                    },
                }
            },
            Err(_) => if input.len() == 0 {
                Err(DecodeError::NotEnoughData)
            } else {
                Err(DecodeError::UnknownVariant)
            },
        }
    }

    proof fn lemma_encoding_decodes(&self, rest: Seq<u8>) {
        match self {
            Ok(value) => {
                assert((self.encoding() + rest).skip(1) =~= value.encoding() + rest);
                value.lemma_encoding_decodes(rest);
            },
            Err(error) => {
                assert((self.encoding() + rest).skip(1) =~= error.encoding() + rest);
                error.lemma_encoding_decodes(rest);
            },
        }
    }

    proof fn lemma_encoding_prefix_free(&self, other: &Self, rest: Seq<u8>, other_rest: Seq<u8>) {
        let bytes = self.encoding() + rest;
        assert(bytes[0] == self.encoding()[0]);
        assert(bytes[0] == other.encoding()[0]);
        match (self, other) {
            (Ok(value), Ok(other_value)) => {
                assert(bytes.skip(1) =~= value.encoding() + rest);
                assert(bytes.skip(1) =~= other_value.encoding() + other_rest);
                value.lemma_encoding_prefix_free(other_value, rest, other_rest);
            },
            (Err(error), Err(other_error)) => {
                assert(bytes.skip(1) =~= error.encoding() + rest);
                assert(bytes.skip(1) =~= other_error.encoding() + other_rest);
                error.lemma_encoding_prefix_free(other_error, rest, other_rest);
            },
            _ => {},
        }
    }
}

/// A byte is itself on the wire, and any first byte is one.
pub proof fn law_byte_on_wire(byte: u8, bytes: Seq<u8>)
    ensures
        byte.encoding() == seq![byte],
        u8::decode_error(bytes) == if bytes.len() == 0 {
            Some(DecodeError::NotEnoughData)
        } else {
            None
        },
{
}

/// A number is its four bytes on the wire, from the one that counts least to the one that counts
/// most, and any four bytes are one.
pub proof fn law_number_on_wire(b0: u8, b1: u8, b2: u8, b3: u8, value: u32, bytes: Seq<u8>)
    requires
        value == b0 + 0x100 * b1 + 0x1_0000 * b2 + 0x100_0000 * b3,
    ensures
        value.encoding() == seq![b0, b1, b2, b3],
        u32::decode_error(bytes) == if bytes.len() < 4 {
            Some(DecodeError::NotEnoughData)
        } else {
            None
        },
{
    assert(value % 0x100 == b0 && value / 0x100 % 0x100 == b1 && value / 0x1_0000 % 0x100 == b2
        && value / 0x100_0000 == b3) by (bit_vector)
        requires
            value == b0 + 0x100 * b1 + 0x1_0000 * b2 + 0x100_0000 * b3,
    ;
    assert(value.encoding() =~= seq![b0, b1, b2, b3]);
}

/// An ID is its bytes on the wire, and any 32 bytes are one.
pub proof fn law_id_on_wire(id: [u8; 32], bytes: Seq<u8>)
    ensures
        id.encoding().len() == 32,
        forall|i: int| 0 <= i < 32 ==> #[trigger] id.encoding()[i] == id[i],
        <[u8; 32]>::decode_error(bytes) == if bytes.len() < 32 {
            Some(DecodeError::NotEnoughData)
        } else {
            None
        },
{
}

/// A success is the byte 0 and what it holds on the wire, a failure is the byte 1 and what it
/// holds, and what starts with another byte is no result. What follows the first byte is taken for
/// what the success, or the failure, holds.
pub proof fn law_result_on_wire<T: Scale, E: Scale>(value: T, error: E, byte: u8, payload: Seq<u8>)
    ensures
        Ok::<T, E>(value).encoding() == seq![0u8] + value.encoding(),
        Err::<T, E>(error).encoding() == seq![1u8] + error.encoding(),
        Result::<T, E>::decode_error(Seq::empty()) == Some(DecodeError::NotEnoughData),
        byte == 0 ==> Result::<T, E>::decode_error(seq![byte] + payload) == T::decode_error(payload),
        byte == 1 ==> Result::<T, E>::decode_error(seq![byte] + payload) == E::decode_error(payload),
        byte > 1 ==> Result::<T, E>::decode_error(seq![byte] + payload) == Some(
            DecodeError::UnknownVariant,
        ),
{
    assert((seq![byte] + payload).skip(1) =~= payload);
    assert((seq![byte] + payload)[0] == byte);
}

} // verus!
