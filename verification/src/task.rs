//! What runs inside a task: what its main loop reacts to and how, and the calls that it answers.
use std::collections::VecDeque;
use vstd::prelude::*;

use crate::memory::packed_word;
use crate::messaging::{Message, TaskId};
use crate::scale::{
    decode_u32, decode_u8, decodes_to, encode_u32, encode_u8, law_decode_inverts_encode,
    law_number_on_wire, lemma_little_endian_inverse, lemma_same_split, little_endian, DecodeError,
    Scale,
};

verus! {

/// A call that a task answers.
#[derive(Clone, Copy, Debug, PartialEq, Eq, Structural)]
pub enum Call {
    DoSomething(u32),
}

/// The answer to a [`Call`].
#[derive(Clone, Copy, Debug, PartialEq, Eq, Structural)]
pub enum CallResult {
    DoSomethingR(u32),
}

impl Call {
    /// The answer that a call gets.
    pub open spec fn answer(&self) -> CallResult {
        match self {
            Call::DoSomething(r) => CallResult::DoSomethingR(*r),
        }
    }

    /// Answers the call.
    pub fn dispatch(&self) -> (result: CallResult)
        ensures
            result == self.answer(),
    {
        match self {
            Call::DoSomething(r) => CallResult::DoSomethingR(*r),
        }
    }
}

/// Why some bytes do not start with the index 0 and a `u32`.
pub open spec fn single_u32_error(bytes: Seq<u8>) -> Option<DecodeError> {
    if bytes.len() == 0 {
        Some(DecodeError::NotEnoughData)
    } else if bytes[0] > 0 {
        Some(DecodeError::UnknownVariant)
    } else if bytes.len() < 5 {
        Some(DecodeError::NotEnoughData)
    } else {
        None
    }
}

/// The encoding of an enum whose one variant holds one `u32`.
pub open spec fn single_u32_encoding(value: u32) -> Seq<u8> {
    seq![0u8] + little_endian(value)
}

/// No encoding of an enum whose one variant holds one `u32` is the start of another one.
proof fn lemma_single_u32_prefix_free(a: u32, b: u32, rest: Seq<u8>, other_rest: Seq<u8>)
    requires
        single_u32_encoding(a) + rest == single_u32_encoding(b) + other_rest,
    ensures
        a == b,
        rest == other_rest,
{
    lemma_same_split(single_u32_encoding(a), single_u32_encoding(b), rest, other_rest);
    assert(little_endian(a) =~= single_u32_encoding(a).skip(1));
    assert(little_endian(b) =~= single_u32_encoding(b).skip(1));
    lemma_little_endian_inverse(a);
    lemma_little_endian_inverse(b);
}

/// Encodes an enum whose one variant holds one `u32`.
fn encode_single_u32(value: u32) -> (bytes: Vec<u8>)
    ensures
        bytes@ == single_u32_encoding(value),
{
    let mut bytes = encode_u8(0);
    let mut field = encode_u32(value);
    bytes.append(&mut field);
    bytes
}

/// Decodes the `u32` in an enum whose one variant holds one.
fn decode_single_u32<'a>(input: &'a [u8]) -> (result: Result<(u32, &'a [u8]), DecodeError>)
    ensures
        match result {
            Ok((value, rest)) => single_u32_error(input@) is None && input@ == single_u32_encoding(
                value,
            ) + rest@,
            Err(error) => single_u32_error(input@) == Some(error),
        },
{
    match decode_u8(input) {
        Ok((index, fields)) => if index == 0 {
            match decode_u32(fields) {
                Ok((value, rest)) => {
                    assert(input@ =~= single_u32_encoding(value) + rest@);
                    Ok((value, rest))
                },
                Err(_) => Err(DecodeError::NotEnoughData),
            }
        } else {
            Err(DecodeError::UnknownVariant)
        },
        Err(_) => Err(DecodeError::NotEnoughData),
    }
}

impl Scale for Call {
    open spec fn encoding(&self) -> Seq<u8> {
        match self {
            Call::DoSomething(r) => single_u32_encoding(*r),
        }
    }

    open spec fn decode_error(bytes: Seq<u8>) -> Option<DecodeError> {
        single_u32_error(bytes)
    }

    fn encode(&self) -> (bytes: Vec<u8>) {
        match self {
            Call::DoSomething(r) => encode_single_u32(*r),
        }
    }

    fn decode<'a>(input: &'a [u8]) -> (result: Result<(Self, &'a [u8]), DecodeError>) {
        match decode_single_u32(input) {
            Ok((r, rest)) => Ok((Call::DoSomething(r), rest)),
            Err(error) => Err(error),
        }
    }

    proof fn lemma_encoding_decodes(&self, rest: Seq<u8>) {
        assert((self.encoding() + rest)[0] == 0);
    }

    proof fn lemma_encoding_prefix_free(&self, other: &Self, rest: Seq<u8>, other_rest: Seq<u8>) {
        let Call::DoSomething(r) = self;
        let Call::DoSomething(other_r) = other;
        lemma_single_u32_prefix_free(*r, *other_r, rest, other_rest);
    }
}

impl Scale for CallResult {
    open spec fn encoding(&self) -> Seq<u8> {
        match self {
            CallResult::DoSomethingR(r) => single_u32_encoding(*r),
        }
    }

    open spec fn decode_error(bytes: Seq<u8>) -> Option<DecodeError> {
        single_u32_error(bytes)
    }

    fn encode(&self) -> (bytes: Vec<u8>) {
        match self {
            CallResult::DoSomethingR(r) => encode_single_u32(*r),
        }
    }

    fn decode<'a>(input: &'a [u8]) -> (result: Result<(Self, &'a [u8]), DecodeError>) {
        match decode_single_u32(input) {
            Ok((r, rest)) => Ok((CallResult::DoSomethingR(r), rest)),
            Err(error) => Err(error),
        }
    }

    proof fn lemma_encoding_decodes(&self, rest: Seq<u8>) {
        assert((self.encoding() + rest)[0] == 0);
    }

    proof fn lemma_encoding_prefix_free(&self, other: &Self, rest: Seq<u8>, other_rest: Seq<u8>) {
        let CallResult::DoSomethingR(r) = self;
        let CallResult::DoSomethingR(other_r) = other;
        lemma_single_u32_prefix_free(*r, *other_r, rest, other_rest);
    }
}

/// The bytes that a task answers to `call`: the call's answer, marked as a success.
pub open spec fn encoded_answer(call: Call) -> Seq<u8> {
    Ok::<CallResult, CallResult>(call.answer()).encoding()
}

/// Answers the encoded call `data` with the encoding of its result, marked as a success.
pub fn call(data: &[u8]) -> (result: Result<Vec<u8>, DecodeError>)
    ensures
        match result {
            Ok(answer) => {
                &&& Call::decode_error(data@) is None
                &&& exists|call: Call, rest: Seq<u8>| #[trigger]
                    decodes_to(data@, call, rest) && answer@ == encoded_answer(call)
            },
            Err(error) => Call::decode_error(data@) == Some(error),
        },
{
    match Call::decode(data) {
        Ok((call, rest)) => {
            let answer = Ok::<CallResult, CallResult>(call.dispatch()).encode();
            assert(decodes_to(data@, call, rest@));
            Ok(answer)
        },
        Err(error) => Err(error),
    }
}

/// A call is answered with the number that it was made with, whatever that number is.
pub proof fn law_call_gets_its_number_back(r: u32)
    ensures
        Call::DoSomething(r).answer() == CallResult::DoSomethingR(r),
{
}

/// A call is the byte 0 and the four bytes of its number on the wire, and so is its answer.
/// Whatever follows them, these bytes decode to that call, or to that answer, and to no other.
pub proof fn law_call_on_wire(
    b0: u8,
    b1: u8,
    b2: u8,
    b3: u8,
    r: u32,
    rest: Seq<u8>,
    bytes: Seq<u8>,
)
    requires
        r == b0 + 0x100 * b1 + 0x1_0000 * b2 + 0x100_0000 * b3,
        bytes == seq![0u8, b0, b1, b2, b3] + rest,
    ensures
        Call::DoSomething(r).encoding() == seq![0u8, b0, b1, b2, b3],
        CallResult::DoSomethingR(r).encoding() == seq![0u8, b0, b1, b2, b3],
        forall|call: Call, left: Seq<u8>| #[trigger]
            decodes_to(bytes, call, left) <==> call == Call::DoSomething(r) && left == rest,
        forall|result: CallResult, left: Seq<u8>| #[trigger]
            decodes_to(bytes, result, left) <==> result == CallResult::DoSomethingR(r) && left
                == rest,
{
    law_number_on_wire(b0, b1, b2, b3, r, rest);
    assert(Call::DoSomething(r).encoding() =~= seq![0u8, b0, b1, b2, b3]);
    assert(CallResult::DoSomethingR(r).encoding() =~= seq![0u8, b0, b1, b2, b3]);
    law_decode_inverts_encode(Call::DoSomething(r), rest);
    law_decode_inverts_encode(CallResult::DoSomethingR(r), rest);
}

/// Bytes start with a call, or with the answer to one, exactly if the first one is 0 and four more
/// follow. Where they do not, the input ends too soon, or the first byte stands for nothing.
pub proof fn law_what_is_a_call(bytes: Seq<u8>)
    ensures
        Call::decode_error(bytes) is None <==> bytes.len() >= 5 && bytes[0] == 0,
        Call::decode_error(bytes) == Some(DecodeError::UnknownVariant) <==> bytes.len() > 0
            && bytes[0] != 0,
        CallResult::decode_error(bytes) == Call::decode_error(bytes),
{
}

/// A task answers an encoded call with the byte 0, which marks a success, and the very bytes of the
/// call: `call` is what the task decodes from those bytes, whatever follows them.
pub proof fn law_answer_repeats_the_call(
    b0: u8,
    b1: u8,
    b2: u8,
    b3: u8,
    rest: Seq<u8>,
    call: Call,
    left: Seq<u8>,
)
    requires
        decodes_to(seq![0u8, b0, b1, b2, b3] + rest, call, left),
    ensures
        encoded_answer(call) == seq![0u8, 0u8, b0, b1, b2, b3],
        encoded_answer(call) == seq![0u8] + call.encoding(),
{
    let r: u32 = (b0 + 0x100 * b1 + 0x1_0000 * b2 + 0x100_0000 * b3) as u32;
    law_call_on_wire(b0, b1, b2, b3, r, rest, seq![0u8, b0, b1, b2, b3] + rest);
    assert(encoded_answer(call) =~= seq![0u8, 0u8, b0, b1, b2, b3]);
    assert(encoded_answer(call) =~= seq![0u8] + call.encoding());
}

/// Packs where an answer lies into one word: the length in the upper half, the pointer in the
/// lower half.
pub fn pack_ptr_and_len(ptr: u32, len: u32) -> (packed: u64)
    ensures
        packed == packed_word(ptr, len),
{
    let mut packed: u64 = len as u64;
    assert(packed << 32 == packed * 0x1_0000_0000 && (packed << 32) | (ptr as u64) == packed
        * 0x1_0000_0000 + ptr) by (bit_vector)
        requires
            packed <= 0xffff_ffff,
    ;
    packed = packed << 32;
    packed | ptr as u64
}

/// What is known about the relay chain when the task is serviced.
#[derive(Clone, Copy, Debug)]
pub struct RelayChainContext {}

/// What the main loop of a task reacts to.
#[derive(Clone, Copy, Debug)]
pub enum IMessage {
    /// The task is serviced in a new relay chain context.
    Context(RelayChainContext),
    /// A message from outside of the task.
    Extern(Message),
}

/// Where the next input of the main loop comes from.
#[derive(Clone, Copy, Debug)]
pub enum NextInput {
    /// It is here.
    Ready(IMessage),
    /// The host has to be polled for a message.
    PollHost,
}

/// The inputs of the main loop that the task itself holds.
pub struct Messages {
    /// Contexts that the main loop has not seen yet, oldest first.
    pub relay_chain_contexts: VecDeque<RelayChainContext>,
}

impl Default for Messages {
    fn default() -> (messages: Self)
        ensures
            messages.relay_chain_contexts@ == Seq::<RelayChainContext>::empty(),
    {
        Messages { relay_chain_contexts: VecDeque::new() }
    }
}

impl Messages {
    /// The next input of the main loop: the oldest context, or whatever message the host has once
    /// there is no context left.
    pub fn next(&mut self) -> (input: NextInput)
        ensures
            ({
                let contexts = old(self).relay_chain_contexts@;
                if contexts.len() > 0 {
                    &&& input == NextInput::Ready(IMessage::Context(contexts.first()))
                    &&& final(self).relay_chain_contexts@ == contexts.drop_first()
                } else {
                    &&& input is PollHost
                    &&& final(self).relay_chain_contexts@ == contexts
                }
            }),
    {
        match self.relay_chain_contexts.pop_front() {
            Some(context) => NextInput::Ready(IMessage::Context(context)),
            None => NextInput::PollHost,
        }
    }
}

/// What the main loop does about one input.
#[derive(Clone, Copy, Debug)]
pub enum Reaction {
    Nothing,
    /// Send a message.
    Send(Message),
    /// Call another task, and print what comes back.
    CallTask(TaskId, Call),
}

/// What the main loop does about `message`.
pub open spec fn reaction_to(message: IMessage) -> Reaction {
    match message {
        IMessage::Context(_) => Reaction::Nothing,
        IMessage::Extern(Message::Ping) => Reaction::Send(Message::Pong),
        IMessage::Extern(Message::Pong) => Reaction::Send(Message::Ping),
        IMessage::Extern(Message::Call(task_id)) => Reaction::CallTask(
            task_id,
            Call::DoSomething(10),
        ),
    }
}

/// Decides what the main loop does about one input.
pub fn react(message: IMessage) -> (reaction: Reaction)
    ensures
        reaction == reaction_to(message),
{
    match message {
        IMessage::Context(_) => Reaction::Nothing,
        IMessage::Extern(message) => match message {
            Message::Ping => Reaction::Send(Message::Pong),
            Message::Pong => Reaction::Send(Message::Ping),
            Message::Call(task_id) => Reaction::CallTask(task_id, Call::DoSomething(10)),
        },
    }
}

/// A ping and a pong answer each other: two tasks that react to each other's messages go on
/// forever, and every second message is the same.
pub proof fn law_ping_pong(message: Message)
    requires
        !(message is Call),
    ensures
        reaction_to(IMessage::Extern(message)) matches Reaction::Send(answer) && answer != message
            && reaction_to(IMessage::Extern(answer)) == Reaction::Send(message),
{
}

/// A task reacts to a ping by sending a pong, to a pong by sending a ping, and to a request to call
/// a task by calling that very task, always with the same number. Nothing else makes it act.
pub proof fn law_reactions(task_id: TaskId, context: RelayChainContext)
    ensures
        reaction_to(IMessage::Extern(Message::Ping)) == Reaction::Send(Message::Pong),
        reaction_to(IMessage::Extern(Message::Pong)) == Reaction::Send(Message::Ping),
        reaction_to(IMessage::Extern(Message::Call(task_id))) == Reaction::CallTask(
            task_id,
            Call::DoSomething(10),
        ),
        reaction_to(IMessage::Context(context)) is Nothing,
{
}

/// After how many steps of work progress is reported.
pub const REPORT_INTERVAL: u64 = 100_000_000;

/// One step of work that never ends: counts it, and says which count to report, if any.
pub fn work(counter: &mut u64) -> (report: Option<u64>)
    requires
        *old(counter) < u64::MAX,
    ensures
        *final(counter) == *old(counter) + 1,
        report == if *final(counter) % REPORT_INTERVAL == 0 {
            Some(*final(counter))
        } else {
            None
        },
{
    *counter += 1;
    if *counter % REPORT_INTERVAL == 0 {
        Some(*counter)
    } else {
        None
    }
}

} // verus!
