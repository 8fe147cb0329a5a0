//! The functions that the host provides to a task.
//!
//! A task passes pointers into its linear memory. Every function works on that memory and on what
//! the host keeps about the task, and reports in its result what it could not accept.
use vstd::prelude::*;
use vstd::utf8::{decode_utf8, valid_utf8};

use crate::memory::{fits, in_bounds, read_memory, window, write_memory, written};
use crate::messaging::{Message, TaskId};
use crate::scale::{decodes_to, DecodeError, Scale};

verus! {

/// Why the host refuses a call of a task.
#[derive(Clone, Copy, Debug, PartialEq, Eq, Structural)]
pub enum HostError {
    /// A pointer or a length that must not be zero is zero.
    InvalidArgument,
    /// A pointer and a length name bytes outside of the task's memory.
    OutOfBounds,
    /// The bytes that the task passed are no message.
    MessageDecoding(DecodeError),
    /// The bytes that the task passed are no text.
    InvalidUtf8,
}

/// What the host keeps about a task.
pub struct StoreData {
    /// Messages for the task; the last one is handed out first.
    pub messages: Vec<Message>,
    /// Messages that the task sent, in the order in which it sent them.
    pub messages_to_send: Vec<Message>,
    /// The name of the task.
    pub name: String,
    /// Whether the task is asked to give control back.
    pub should_yield: bool,
}

/// The contents of [`StoreData`].
pub struct StoreDataView {
    pub messages: Seq<Message>,
    pub messages_to_send: Seq<Message>,
    pub name: Seq<char>,
    pub should_yield: bool,
}

impl View for StoreData {
    type V = StoreDataView;

    open spec fn view(&self) -> StoreDataView {
        StoreDataView {
            messages: self.messages@,
            messages_to_send: self.messages_to_send@,
            name: self.name@,
            should_yield: self.should_yield,
        }
    }
}

/// What [`next_message`] reports.
#[derive(Clone, Copy, Debug)]
pub struct Delivery {
    /// The length of the encoded message, or 0 where there was none.
    pub len: u32,
    /// The message that was handed out.
    pub message: Option<Message>,
}

/// A request of a task that the host serves with the help of another task.
#[derive(Debug)]
pub enum TaskRequest {
    /// Call the task `target` with the encoded call `call`.
    Call { target: TaskId, call: Vec<u8> },
}

/// Why [`next_message`] refuses its arguments, if it does.
pub open spec fn next_message_error(store: StoreDataView, memory: Seq<u8>, ptr: u32) -> Option<
    HostError,
> {
    if ptr == 0 {
        Some(HostError::InvalidArgument)
    } else if store.messages.len() > 0 && !in_bounds(
        memory,
        ptr,
        store.messages.last().encoding().len(),
    ) {
        Some(HostError::OutOfBounds)
    } else {
        None
    }
}

/// `store` once its next message has been handed out.
pub open spec fn message_taken(store: StoreDataView) -> StoreDataView {
    StoreDataView { messages: store.messages.drop_last(), ..store }
}

/// Hands the next message to the task: takes the message that was added last, and writes its
/// encoding to the task's memory at `next_message_ptr`.
pub fn next_message(store: &mut StoreData, memory: &mut [u8], next_message_ptr: u32) -> (result:
    Result<Delivery, HostError>)
    ensures
        match result {
            Err(error) => {
                &&& next_message_error(old(store)@, old(memory)@, next_message_ptr) == Some(error)
                &&& final(store)@ == old(store)@
                &&& final(memory)@ == old(memory)@
            },
            Ok(delivery) => {
                &&& next_message_error(old(store)@, old(memory)@, next_message_ptr) is None
                &&& if old(store)@.messages.len() == 0 {
                    &&& delivery.len == 0
                    &&& delivery.message is None
                    &&& final(store)@ == old(store)@
                    &&& final(memory)@ == old(memory)@
                } else {
                    let message = old(store)@.messages.last();
                    &&& delivery.len == message.encoding().len()
                    &&& delivery.message == Some(message)
                    &&& final(store)@ == message_taken(old(store)@)
                    &&& final(memory)@ == written(
                        old(memory)@,
                        next_message_ptr,
                        message.encoding(),
                    )
                }
            },
        },
{
    if next_message_ptr == 0 {
        return Err(HostError::InvalidArgument);
    }
    let count: usize = store.messages.len();
    if count == 0 {
        return Ok(Delivery { len: 0, message: None });
    }
    let message = store.messages[count - 1];
    let encoded = message.encode();
    if !fits(memory, next_message_ptr, encoded.len()) {
        return Err(HostError::OutOfBounds);
    }
    let _ = store.messages.pop();
    write_memory(memory, next_message_ptr, encoded.as_slice());
    Ok(Delivery { len: encoded.len() as u32, message: Some(message) })
}

/// Why [`send_message`] refuses its arguments, if it does.
pub open spec fn send_message_error(memory: Seq<u8>, ptr: u32, len: u32) -> Option<HostError> {
    if ptr == 0 || len == 0 {
        Some(HostError::InvalidArgument)
    } else if !in_bounds(memory, ptr, len as nat) {
        Some(HostError::OutOfBounds)
    } else {
        match Message::decode_error(window(memory, ptr, len as nat)) {
            Some(error) => Some(HostError::MessageDecoding(error)),
            None => None,
        }
    }
}

/// `store` once its task has sent `message`.
pub open spec fn message_sent(store: StoreDataView, message: Message) -> StoreDataView {
    StoreDataView { messages_to_send: store.messages_to_send.push(message), ..store }
}

/// Takes a message from the task: decodes the `msg_len` bytes of the task's memory at
/// `message_ptr`, and keeps the message for the host to pass on.
pub fn send_message(store: &mut StoreData, memory: &[u8], message_ptr: u32, msg_len: u32) -> (result:
    Result<Message, HostError>)
    ensures
        match result {
            Err(error) => {
                &&& send_message_error(memory@, message_ptr, msg_len) == Some(error)
                &&& final(store)@ == old(store)@
            },
            Ok(message) => {
                &&& send_message_error(memory@, message_ptr, msg_len) is None
                &&& exists|rest: Seq<u8>|
                    decodes_to(window(memory@, message_ptr, msg_len as nat), message, rest)
                &&& final(store)@ == message_sent(old(store)@, message)
            },
        },
{
    if message_ptr == 0 || msg_len == 0 {
        return Err(HostError::InvalidArgument);
    }
    if !fits(memory, message_ptr, msg_len as usize) {
        return Err(HostError::OutOfBounds);
    }
    let buffer = read_memory(memory, message_ptr, msg_len);
    match Message::decode(buffer.as_slice()) {
        Ok((message, rest)) => {
            assert(decodes_to(window(memory@, message_ptr, msg_len as nat), message, rest@));
            store.messages_to_send.push(message);
            Ok(message)
        },
        Err(error) => Err(HostError::MessageDecoding(error)),
    }
}

/// `String::from_utf8` of the standard library: the text that the bytes encode, or `None` where
/// they are not valid UTF-8.
#[verifier::external_body]
fn text_from_utf8(bytes: Vec<u8>) -> (text: Option<String>)
    ensures
        text is Some <==> valid_utf8(bytes@),
        text matches Some(text) ==> text@ == decode_utf8(bytes@),
{
    String::from_utf8(bytes).ok()
}

/// Why [`print`] refuses its arguments, if it does.
pub open spec fn print_error(memory: Seq<u8>, ptr: u32, len: u32) -> Option<HostError> {
    if ptr == 0 || len == 0 {
        Some(HostError::InvalidArgument)
    } else if !in_bounds(memory, ptr, len as nat) {
        Some(HostError::OutOfBounds)
    } else if !valid_utf8(window(memory, ptr, len as nat)) {
        Some(HostError::InvalidUtf8)
    } else {
        None
    }
}

/// The line that the task asks the host to print: the `msg_len` bytes of the task's memory at
/// `message_ptr`, as text.
pub fn print(memory: &[u8], message_ptr: u32, msg_len: u32) -> (result: Result<String, HostError>)
    ensures
        match result {
            Err(error) => print_error(memory@, message_ptr, msg_len) == Some(error),
            Ok(line) => {
                &&& print_error(memory@, message_ptr, msg_len) is None
                &&& line@ == decode_utf8(window(memory@, message_ptr, msg_len as nat))
            },
        },
{
    if message_ptr == 0 || msg_len == 0 {
        return Err(HostError::InvalidArgument);
    }
    if !fits(memory, message_ptr, msg_len as usize) {
        return Err(HostError::OutOfBounds);
    }
    let buffer = read_memory(memory, message_ptr, msg_len);
    match text_from_utf8(buffer) {
        Some(line) => Ok(line),
        None => Err(HostError::InvalidUtf8),
    }
}

/// The signal that tells the task whether to give control back: 1 where it should, else 0.
pub open spec fn yield_signal(store: StoreDataView) -> u32 {
    if store.should_yield {
        1
    } else {
        0
    }
}

/// Tells the task whether to give control back.
pub fn should_yield(store: &StoreData) -> (signal: u32)
    ensures
        signal == yield_signal(store@),
{
    if store.should_yield {
        1
    } else {
        0
    }
}

/// Why [`call_task`] refuses its arguments, if it does.
pub open spec fn call_task_error(
    memory: Seq<u8>,
    target: u32,
    call_ptr: u32,
    call_len: u32,
    result_ptr: u32,
) -> Option<HostError> {
    if call_ptr == 0 || call_len == 0 || result_ptr == 0 || target == 0 {
        Some(HostError::InvalidArgument)
    } else if !in_bounds(memory, call_ptr, call_len as nat) || !in_bounds(memory, target, 32) {
        Some(HostError::OutOfBounds)
    } else {
        None
    }
}

/// The request behind a task's call of another task: `target` points to the ID of the called
/// task, and the encoded call is the `call_len` bytes at `call_ptr`.
///
/// The answer to the request goes to `result_ptr`, see [`call_task_result`].
pub fn call_task(memory: &[u8], target: u32, call_ptr: u32, call_len: u32, result_ptr: u32) -> (result:
    Result<TaskRequest, HostError>)
    ensures
        match result {
            Err(error) => call_task_error(memory@, target, call_ptr, call_len, result_ptr) == Some(
                error,
            ),
            Ok(TaskRequest::Call { target: target_task, call }) => {
                &&& call_task_error(memory@, target, call_ptr, call_len, result_ptr) is None
                &&& target_task@ == window(memory@, target, 32)
                &&& call@ == window(memory@, call_ptr, call_len as nat)
            },
        },
{
    if call_ptr == 0 || call_len == 0 || result_ptr == 0 || target == 0 {
        return Err(HostError::InvalidArgument);
    }
    if !fits(memory, call_ptr, call_len as usize) || !fits(memory, target, 32) {
        return Err(HostError::OutOfBounds);
    }
    let call = read_memory(memory, call_ptr, call_len);
    let id = read_memory(memory, target, 32);
    let mut target_task: TaskId = [0u8; 32];
    let mut i: usize = 0;
    while i < 32
        invariant
            i <= 32,
            id@.len() == 32,
            forall|j: int| 0 <= j < i ==> target_task@[j] == id@[j],
        decreases 32 - i,
    {
        target_task[i] = id[i];
        i += 1;
    }
    assert(target_task@ =~= id@);
    Ok(TaskRequest::Call { target: target_task, call })
}

/// Hands the answer to a [`call_task`] request to the task that asked: writes `result` to that
/// task's memory at `result_ptr`, and returns its length.
pub fn call_task_result(memory: &mut [u8], result_ptr: u32, result: &[u8]) -> (len: Result<
    u32,
    HostError,
>)
    requires
        result@.len() <= u32::MAX,
    ensures
        match len {
            Err(error) => {
                &&& error == HostError::OutOfBounds
                &&& !in_bounds(old(memory)@, result_ptr, result@.len())
                &&& final(memory)@ == old(memory)@
            },
            Ok(len) => {
                &&& in_bounds(old(memory)@, result_ptr, result@.len())
                &&& len == result@.len()
                &&& final(memory)@ == written(old(memory)@, result_ptr, result@)
            },
        },
{
    if !fits(memory, result_ptr, result.len()) {
        return Err(HostError::OutOfBounds);
    }
    write_memory(memory, result_ptr, result);
    Ok(result.len() as u32)
}

/// What the host keeps about a task is all of what it is said to keep.
pub proof fn law_store_contents(store: StoreData)
    ensures
        store@.messages == store.messages@,
        store@.messages_to_send == store.messages_to_send@,
        store@.name == store.name@,
        store@.should_yield == store.should_yield,
{
}

/// A poll without a message is answered, whatever the pointer and the memory: the host refuses
/// only a pointer that is 0.
pub proof fn law_poll_without_message_is_answered(store: StoreDataView, memory: Seq<u8>, ptr: u32)
    requires
        store.messages.len() == 0,
    ensures
        ptr != 0 ==> next_message_error(store, memory, ptr) is None,
        ptr == 0 ==> next_message_error(store, memory, ptr) == Some(HostError::InvalidArgument),
{
}

/// A poll is answered with the next message wherever that message fits the memory, and is refused
/// only where it does not, or where the pointer is 0: a ping and a pong take one byte, a request to
/// call a task takes 33.
pub proof fn law_poll_for_message_is_answered(store: StoreDataView, memory: Seq<u8>, ptr: u32)
    requires
        store.messages.len() > 0,
    ensures
        ({
            let size: int = if store.messages[store.messages.len() - 1] is Call {
                33
            } else {
                1
            };
            next_message_error(store, memory, ptr) == if ptr == 0 {
                Some(HostError::InvalidArgument)
            } else if memory.len() < ptr + size {
                Some(HostError::OutOfBounds)
            } else {
                None
            }
        }),
{
}

/// Handing a message out takes the last one off the queue, and leaves every other one in its place
/// and everything else as it was.
pub proof fn law_taking_leaves_the_rest(store: StoreDataView)
    requires
        store.messages.len() > 0,
    ensures
        message_taken(store).messages.len() == store.messages.len() - 1,
        forall|i: int|
            0 <= i < store.messages.len() - 1 ==> #[trigger] message_taken(store).messages[i]
                == store.messages[i],
        message_taken(store).messages_to_send == store.messages_to_send,
        message_taken(store).name == store.name,
        message_taken(store).should_yield == store.should_yield,
{
}

/// A message that a task sends comes behind those that it sent before, and leaves everything else
/// as it was.
pub proof fn law_sending_leaves_the_rest(store: StoreDataView, message: Message)
    ensures
        message_sent(store, message).messages_to_send == store.messages_to_send + seq![message],
        message_sent(store, message).messages == store.messages,
        message_sent(store, message).name == store.name,
        message_sent(store, message).should_yield == store.should_yield,
{
    assert(store.messages_to_send.push(message) =~= store.messages_to_send + seq![message]);
}

/// A message that a task sends is refused only where an argument is 0, where the bytes do not lie
/// in the memory, or where they are no message. Otherwise the host takes the message that the bytes
/// at the pointer stand for, wherever in the memory they lie.
pub proof fn law_sent_bytes_are_taken(
    memory: Seq<u8>,
    ptr: u32,
    len: u32,
    message: Message,
    rest: Seq<u8>,
)
    ensures
        ({
            let error = send_message_error(memory, ptr, len);
            let first = memory[ptr as int];
            if ptr == 0 || len == 0 {
                error == Some(HostError::InvalidArgument)
            } else if memory.len() < ptr + len {
                error == Some(HostError::OutOfBounds)
            } else if first > 2 {
                error == Some(HostError::MessageDecoding(DecodeError::UnknownVariant))
            } else if first == 2 && len < 33 {
                error == Some(HostError::MessageDecoding(DecodeError::NotEnoughData))
            } else {
                &&& error is None
                &&& decodes_to(window(memory, ptr, len as nat), message, rest) ==> {
                    &&& first == 0 <==> message is Ping
                    &&& first == 1 <==> message is Pong
                    &&& first == 2 <==> message is Call
                    &&& first == 2 ==> message->Call_0@ == memory.subrange(ptr + 1, ptr + 33)
                }
            }
        }),
{
    let bytes = window(memory, ptr, len as nat);
    if ptr != 0 && len != 0 && memory.len() >= ptr + len {
        assert(bytes[0] == memory[ptr as int]);
        if decodes_to(bytes, message, rest) {
            assert((message.encoding() + rest)[0] == message.encoding()[0]);
            if let Message::Call(task_id) = message {
                assert(bytes.subrange(1, 33) =~= memory.subrange(ptr + 1, ptr + 33));
                assert((seq![2u8] + task_id@ + rest).subrange(1, 33) =~= task_id@);
            }
        }
    }
}

/// A line is refused only where an argument is 0, where its bytes do not lie in the memory, or
/// where they are no text. The bytes are those at the pointer, wherever in the memory they lie.
pub proof fn law_printed_bytes_are_taken(memory: Seq<u8>, ptr: u32, len: u32)
    ensures
        print_error(memory, ptr, len) == if ptr == 0 || len == 0 {
            Some(HostError::InvalidArgument)
        } else if memory.len() < ptr + len {
            Some(HostError::OutOfBounds)
        } else if !valid_utf8(memory.subrange(ptr as int, ptr + len)) {
            Some(HostError::InvalidUtf8)
        } else {
            None
        },
        window(memory, ptr, len as nat) == memory.subrange(ptr as int, ptr + len),
{
}

/// The signal is 1 where the task is asked to give control back, and 0 where it is not.
pub proof fn law_signal_is_the_request(store: StoreDataView)
    ensures
        store.should_yield ==> yield_signal(store) == 1,
        !store.should_yield ==> yield_signal(store) == 0,
{
}

/// A call of another task reaches the host: wherever the ID of that task and the encoded call lie
/// in the memory, the host refuses the call only where an argument is 0 or where one of the two
/// does not end inside of the memory. What it takes are the 32 bytes at `target` and the `call_len`
/// bytes at `call_ptr`.
pub proof fn law_call_reaches_host(
    memory: Seq<u8>,
    target: u32,
    call_ptr: u32,
    call_len: u32,
    result_ptr: u32,
)
    ensures
        call_task_error(memory, target, call_ptr, call_len, result_ptr) == if target == 0 || call_ptr
            == 0 || call_len == 0 || result_ptr == 0 {
            Some(HostError::InvalidArgument)
        } else if memory.len() < call_ptr + call_len || memory.len() < target + 32 {
            Some(HostError::OutOfBounds)
        } else {
            None
        },
        window(memory, target, 32) == memory.subrange(target as int, target + 32),
        window(memory, call_ptr, call_len as nat) == memory.subrange(
            call_ptr as int,
            call_ptr + call_len,
        ),
{
}

} // verus!
