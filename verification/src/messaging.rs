//! Messages between tasks.
//!
//! A task talks to its host by passing buffers. What it passes out, and what it makes of what comes
//! back, is decided here; the calls of the host themselves are made by whoever runs in the task.
use vstd::prelude::*;
use vstd::slice::slice_subrange;

use crate::scale::{
    decode_bytes32, decode_u8, decodes_to, encode_bytes32, encode_u8, law_decode_inverts_encode,
    lemma_same_split, DecodeError, Scale,
};

verus! {

/// The ID of a task.
pub type TaskId = [u8; 32];

/// The size of the buffer in which a task receives a message.
pub const MESSAGE_BUFFER_LEN: usize = 1024;

/// The size of the buffer in which a task receives the answer to a call.
pub const RESULT_BUFFER_LEN: usize = 4096;

/// Why a call to another task has no result.
#[derive(Clone, Copy, Debug, PartialEq, Eq, Structural)]
pub enum CallError {
    /// The answer of the called task could not be decoded.
    ResultDecoding,
}

/// What a task is told, or tells another task.
#[derive(Clone, Copy, Debug)]
pub enum Message {
    Ping,
    Pong,
    /// Asks the receiver to call the given task.
    Call(TaskId),
}

impl Scale for Message {
    open spec fn encoding(&self) -> Seq<u8> {
        match self {
            Message::Ping => seq![0u8],
            Message::Pong => seq![1u8],
            Message::Call(task_id) => seq![2u8] + task_id@,
        }
    }

    open spec fn decode_error(bytes: Seq<u8>) -> Option<DecodeError> {
        if bytes.len() == 0 || (bytes[0] == 2 && bytes.len() < 33) {
            Some(DecodeError::NotEnoughData)
        } else if bytes[0] > 2 {
            Some(DecodeError::UnknownVariant)
        } else {
            None
        }
    }

    fn encode(&self) -> (bytes: Vec<u8>) {
        match self {
            Message::Ping => encode_u8(0),
            Message::Pong => encode_u8(1),
            Message::Call(task_id) => {
                let mut bytes = encode_u8(2);
                let mut id = encode_bytes32(task_id);
                bytes.append(&mut id);
                bytes
            },
        }
    }

    fn decode<'a>(input: &'a [u8]) -> (result: Result<(Self, &'a [u8]), DecodeError>) {
        match decode_u8(input) {
            Ok((index, fields)) => if index == 0 {
                Ok((Message::Ping, fields))
            } else if index == 1 {
                Ok((Message::Pong, fields))
            } else if index == 2 {
                match decode_bytes32(fields) {
                    Ok((task_id, rest)) => {
                        assert(input@ =~= seq![2u8] + task_id@ + rest@);
                        Ok((Message::Call(task_id), rest))
                    },
                    Err(_) => Err(DecodeError::NotEnoughData),
                }
            } else {
                Err(DecodeError::UnknownVariant)
            },
            Err(_) => Err(DecodeError::NotEnoughData),
        }
    }

    proof fn lemma_encoding_decodes(&self, rest: Seq<u8>) {
        assert((self.encoding() + rest)[0] == self.encoding()[0]);
    }

    proof fn lemma_encoding_prefix_free(&self, other: &Self, rest: Seq<u8>, other_rest: Seq<u8>) {
        let bytes = self.encoding() + rest;
        assert(bytes[0] == self.encoding()[0]);
        assert(bytes[0] == other.encoding()[0]);
        lemma_same_split(self.encoding(), other.encoding(), rest, other_rest);
        if let (Message::Call(task_id), Message::Call(other_id)) = (self, other) {
            assert(task_id@ =~= bytes.subrange(1, 33));
            assert(other_id@ =~= bytes.subrange(1, 33));
            assert forall|i: int| 0 <= i < 32 implies task_id[i] == other_id[i] by {
                assert(task_id@[i] == other_id@[i]);
            }
            assert(*task_id =~= *other_id);
        }
    }
}

impl Scale for CallError {
    open spec fn encoding(&self) -> Seq<u8> {
        seq![0u8]
    }

    open spec fn decode_error(bytes: Seq<u8>) -> Option<DecodeError> {
        if bytes.len() == 0 {
            Some(DecodeError::NotEnoughData)
        } else if bytes[0] > 0 {
            Some(DecodeError::UnknownVariant)
        } else {
            None
        }
    }

    fn encode(&self) -> (bytes: Vec<u8>) {
        encode_u8(0)
    }

    fn decode<'a>(input: &'a [u8]) -> (result: Result<(Self, &'a [u8]), DecodeError>) {
        match decode_u8(input) {
            Ok((index, rest)) => if index == 0 {
                Ok((CallError::ResultDecoding, rest))
            } else {
                Err(DecodeError::UnknownVariant)
            },
            Err(_) => Err(DecodeError::NotEnoughData),
        }
    }

    proof fn lemma_encoding_decodes(&self, rest: Seq<u8>) {
    }

    proof fn lemma_encoding_prefix_free(&self, other: &Self, rest: Seq<u8>, other_rest: Seq<u8>) {
        lemma_same_split(self.encoding(), other.encoding(), rest, other_rest);
    }
}

/// A ping is the byte 0 on the wire, a pong the byte 1, and a request to call a task the byte 2 and
/// the ID of the task. Whatever follows them, these bytes decode to that message and no other, and
/// what follows is left over.
pub proof fn law_message_on_wire(task_id: TaskId, rest: Seq<u8>)
    ensures
        Message::Ping.encoding() == seq![0u8],
        Message::Pong.encoding() == seq![1u8],
        Message::Call(task_id).encoding() == seq![2u8] + task_id@,
        forall|message: Message, left: Seq<u8>| #[trigger]
            decodes_to(seq![0u8] + rest, message, left) <==> message is Ping && left == rest,
        forall|message: Message, left: Seq<u8>| #[trigger]
            decodes_to(seq![1u8] + rest, message, left) <==> message is Pong && left == rest,
        forall|message: Message, left: Seq<u8>| #[trigger]
            decodes_to(seq![2u8] + task_id@ + rest, message, left) <==> message == Message::Call(
                task_id,
            ) && left == rest,
{
    law_decode_inverts_encode(Message::Ping, rest);
    law_decode_inverts_encode(Message::Pong, rest);
    law_decode_inverts_encode(Message::Call(task_id), rest);
    assert(Message::Call(task_id).encoding() + rest =~= seq![2u8] + task_id@ + rest);
}

/// Bytes start with a message exactly if the first one is 0 or 1, or is 2 and 32 more follow. Where
/// they do not, the input ends too soon, or the first byte stands for no message.
pub proof fn law_what_is_a_message(bytes: Seq<u8>)
    ensures
        Message::decode_error(bytes) is None <==> bytes.len() > 0 && (bytes[0] == 0 || bytes[0] == 1
            || (bytes[0] == 2 && bytes.len() >= 33)),
        Message::decode_error(bytes) == Some(DecodeError::UnknownVariant) <==> bytes.len() > 0
            && bytes[0] > 2,
{
}

/// The reason why a call failed is the byte 0 on the wire, and no other byte is one.
pub proof fn law_call_error_on_wire(bytes: Seq<u8>)
    ensures
        CallError::ResultDecoding.encoding() == seq![0u8],
        CallError::decode_error(bytes) is None <==> bytes.len() > 0 && bytes[0] == 0,
        CallError::decode_error(bytes) == Some(DecodeError::UnknownVariant) <==> bytes.len() > 0
            && bytes[0] != 0,
{
}

/// Every encoded message fits the buffer in which a task receives messages, and none is empty: a
/// length of 0 is free to say that there is no message.
pub proof fn law_message_length(message: Message)
    ensures
        0 < message.encoding().len() <= MESSAGE_BUFFER_LEN,
{
}

/// What a task makes of a poll for the next message: `len` is what the host returned, and
/// `buffer` is where it put the message. `None` means that there is no message yet.
pub fn next_message(buffer: &[u8], len: u32) -> (result: Result<Option<Message>, DecodeError>)
    requires
        len <= buffer@.len(),
    ensures
        match result {
            Ok(None) => len == 0,
            Ok(Some(message)) => {
                &&& len != 0
                &&& Message::decode_error(buffer@.take(len as int)) is None
                &&& exists|rest: Seq<u8>| decodes_to(buffer@.take(len as int), message, rest)
            },
            Err(error) => len != 0 && Message::decode_error(buffer@.take(len as int)) == Some(
                error,
            ),
        },
{
    if len == 0 {
        return Ok(None);
    }
    let bytes = slice_subrange(buffer, 0, len as usize);
    assert(bytes@ == buffer@.take(len as int));
    match Message::decode(bytes) {
        Ok((message, rest)) => {
            assert(decodes_to(buffer@.take(len as int), message, rest@));
            Ok(Some(message))
        },
        Err(error) => Err(error),
    }
}

/// The bytes that a task passes to the host to send `msg`.
pub fn send_message(msg: Message) -> (encoded: Vec<u8>)
    ensures
        encoded@ == msg.encoding(),
{
    msg.encode()
}

/// The bytes that a task passes to the host to call another task with `msg`.
pub fn call_task_message<M: Scale>(msg: &M) -> (encoded: Vec<u8>)
    ensures
        encoded@ == msg.encoding(),
{
    msg.encode()
}

/// What a task makes of the answer to a call of another task: `result_len` is what the host
/// returned, and `result_buffer` is where it put the answer.
pub fn call_task<R: Scale>(result_buffer: &[u8], result_len: u32) -> (result: Result<R, CallError>)
    requires
        result_len <= result_buffer@.len(),
    ensures
        ({
            let answer = result_buffer@.take(result_len as int);
            if Result::<R, CallError>::decode_error(answer) is None {
                exists|rest: Seq<u8>| decodes_to(answer, result, rest)
            } else {
                result == Err::<R, CallError>(CallError::ResultDecoding)
            }
        }),
{
    let answer = slice_subrange(result_buffer, 0, result_len as usize);
    assert(answer@ == result_buffer@.take(result_len as int));
    match Result::<R, CallError>::decode(answer) {
        Ok((result, rest)) => {
            assert(decodes_to(answer@, result, rest@));
            result
        },
        Err(_) => Err(CallError::ResultDecoding),
    }
}

} // verus!
