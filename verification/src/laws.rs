//! What holds across the boundary between a task and its host.
use vstd::prelude::*;
use vstd::utf8::{decode_utf8, encode_utf8, encode_utf8_decode_utf8, encode_utf8_valid_utf8};

use crate::executor::{message_received, messages_delivered, messages_drained, yield_set};
use crate::host::{
    message_sent, message_taken, next_message_error, print_error, send_message_error,
    yield_signal, StoreDataView,
};
use crate::memory::{in_bounds, law_read_after_write, window, word_len, word_ptr, written};
use crate::messaging::{
    law_message_length, CallError, Message, MESSAGE_BUFFER_LEN, RESULT_BUFFER_LEN,
};
use crate::scale::{decodes_to, law_decode_inverts_encode, Scale};
use crate::service::{signalled, Service};
use crate::task::{encoded_answer, Call, CallResult};

verus! {

/// The next message of a task reaches it: the host does not refuse a task that polls with its
/// buffer at `ptr`, and what the task decodes from its buffer is that message and no other.
pub proof fn law_message_reaches_task(store: StoreDataView, memory: Seq<u8>, ptr: u32)
    requires
        store.messages.len() > 0,
        ptr != 0,
        in_bounds(memory, ptr, MESSAGE_BUFFER_LEN as nat),
    ensures
        next_message_error(store, memory, ptr) is None,
        ({
            let message = store.messages.last();
            let len = message.encoding().len();
            let memory_after = written(memory, ptr, message.encoding());
            let buffer = window(memory_after, ptr, MESSAGE_BUFFER_LEN as nat);
            &&& 0 < len <= MESSAGE_BUFFER_LEN
            &&& Message::decode_error(buffer.take(len as int)) is None
            &&& forall|other: Message, rest: Seq<u8>| #[trigger]
                decodes_to(buffer.take(len as int), other, rest) <==> other == message
                    && rest.len() == 0
        }),
{
    let message = store.messages.last();
    law_message_length(message);
    let len = message.encoding().len();
    let memory_after = written(memory, ptr, message.encoding());
    let buffer = window(memory_after, ptr, MESSAGE_BUFFER_LEN as nat);
    law_read_after_write(memory, ptr, message.encoding());
    assert(buffer.take(len as int) =~= window(memory_after, ptr, len));
    lemma_decodes_alone(message);
}

/// Bytes that are the encoding of a value decode to that value, with nothing left over.
proof fn lemma_decodes_alone<T: Scale>(value: T)
    ensures
        T::decode_error(value.encoding()) is None,
        forall|other: T, rest: Seq<u8>| #[trigger]
            decodes_to(value.encoding(), other, rest) <==> other == value && rest.len() == 0,
{
    let empty = Seq::<u8>::empty();
    assert(value.encoding() + empty =~= value.encoding());
    value.lemma_encoding_decodes(empty);
    law_decode_inverts_encode(value, empty);
    assert forall|other: T, rest: Seq<u8>|
        #[trigger] decodes_to(value.encoding(), other, rest) <==> other == value && rest.len()
            == 0 by {
        assert(rest.len() == 0 ==> rest =~= empty);
        assert(decodes_to(value.encoding() + empty, other, rest) <==> other == value && rest
            == empty);
    }
}

/// A message that a task sends reaches the host: where the encoded message lies at `ptr`, the host
/// does not refuse it, and what it decodes is that message and no other.
pub proof fn law_message_reaches_host(message: Message, memory: Seq<u8>, ptr: u32)
    requires
        ptr != 0,
        in_bounds(memory, ptr, message.encoding().len()),
        window(memory, ptr, message.encoding().len()) == message.encoding(),
    ensures
        send_message_error(memory, ptr, message.encoding().len() as u32) is None,
        forall|other: Message, rest: Seq<u8>| #[trigger]
            decodes_to(window(memory, ptr, message.encoding().len()), other, rest) <==> other
                == message && rest.len() == 0,
{
    law_message_length(message);
    lemma_decodes_alone(message);
}

/// A message that is sent to a task is the next one that the task is handed, and handing it out
/// leaves everything else as it was before it was sent.
pub proof fn law_receive_undoes_send(store: StoreDataView, message: Message)
    ensures
        message_received(store, message).messages.last() == message,
        message_taken(message_received(store, message)) == store,
{
    assert(store.messages.push(message).drop_last() =~= store.messages);
}

/// Of two messages the one that was sent last is handed out first.
pub proof fn law_last_in_first_out(store: StoreDataView, first: Message, second: Message)
    ensures
        ({
            let both = message_received(message_received(store, first), second);
            &&& both.messages.last() == second
            &&& message_taken(both).messages.last() == first
            &&& message_taken(message_taken(both)) == store
        }),
{
    law_receive_undoes_send(store, first);
    law_receive_undoes_send(message_received(store, first), second);
}

/// A message that one task sends is the next one that the other task is handed once messages have
/// been passed on, and passing them on twice passes none twice.
pub proof fn law_sent_message_is_passed_on(from: StoreDataView, to: StoreDataView, message: Message)
    ensures
        ({
            let sent = message_sent(from, message);
            let received = messages_delivered(sent, to);
            &&& received.messages.last() == message
            &&& message_taken(received).messages == to.messages + from.messages_to_send
            &&& messages_delivered(messages_drained(sent), received) == received
        }),
{
    let sent = message_sent(from, message);
    let received = messages_delivered(sent, to);
    assert(received.messages.drop_last() =~= to.messages + from.messages_to_send);
    assert(messages_delivered(messages_drained(sent), received).messages =~= received.messages);
}

/// What a task receives and what it sends are kept apart.
pub proof fn law_queues_are_independent(store: StoreDataView, message: Message, sent: Message)
    ensures
        message_received(store, message).messages_to_send == store.messages_to_send,
        message_sent(store, sent).messages == store.messages,
        message_received(message_sent(store, sent), message) == message_sent(
            message_received(store, message),
            sent,
        ),
{
}

/// A task is asked to give control back exactly as long as the host's request stands.
pub proof fn law_yield_signal(store: StoreDataView, service: Service, should_yield: bool)
    ensures
        signalled(service, yield_signal(yield_set(store, should_yield))).yielded == (
        service.yielded || should_yield),
{
}

/// What happens to what the host keeps about a task.
pub enum StoreStep {
    /// The task is sent a message.
    Receive(Message),
    /// The task polls for a message.
    Poll,
    /// The task sends a message.
    Send(Message),
    /// The messages that the task sent are collected.
    Drain,
    /// The messages that the task of another store sent are passed on to the task.
    Deliver(StoreDataView),
    /// The task is scheduled.
    Run,
    /// The time slice of the task is over.
    SliceOver,
}

/// `store` after `step`.
pub open spec fn store_after(store: StoreDataView, step: StoreStep) -> StoreDataView {
    match step {
        StoreStep::Receive(message) => message_received(store, message),
        StoreStep::Poll => if store.messages.len() > 0 {
            message_taken(store)
        } else {
            store
        },
        StoreStep::Send(message) => message_sent(store, message),
        StoreStep::Drain => messages_drained(store),
        StoreStep::Deliver(from) => messages_delivered(from, store),
        StoreStep::Run => yield_set(store, false),
        StoreStep::SliceOver => yield_set(store, true),
    }
}

/// `store` after all of `steps`.
pub open spec fn store_after_all(store: StoreDataView, steps: Seq<StoreStep>) -> StoreDataView
    decreases steps.len(),
{
    if steps.len() == 0 {
        store
    } else {
        store_after(store_after_all(store, steps.drop_last()), steps.last())
    }
}

/// From the end of its time slice until it is scheduled again a task is told to give control back,
/// whatever else happens: `i` is when the time slice ended.
pub proof fn law_signal_stands_until_run(store: StoreDataView, steps: Seq<StoreStep>, i: int)
    requires
        0 <= i < steps.len(),
        steps[i] is SliceOver,
        forall|j: int| i < j < steps.len() ==> !(#[trigger] steps[j] is Run),
    ensures
        yield_signal(store_after_all(store, steps)) == 1,
    decreases steps.len(),
{
    if i < steps.len() - 1 {
        let earlier = steps.drop_last();
        assert forall|j: int| i < j < earlier.len() implies !(#[trigger] earlier[j] is Run) by {
            assert(!(steps[j] is Run));
        }
        law_signal_stands_until_run(store, earlier, i);
        assert(!(steps[steps.len() - 1] is Run));
    }
}

/// From when it is scheduled until the end of its time slice a task is not told to give control
/// back, whatever else happens: `i` is when it was scheduled.
pub proof fn law_no_signal_within_slice(store: StoreDataView, steps: Seq<StoreStep>, i: int)
    requires
        0 <= i < steps.len(),
        steps[i] is Run,
        forall|j: int| i < j < steps.len() ==> !(#[trigger] steps[j] is SliceOver),
    ensures
        yield_signal(store_after_all(store, steps)) == 0,
    decreases steps.len(),
{
    if i < steps.len() - 1 {
        let earlier = steps.drop_last();
        assert forall|j: int| i < j < earlier.len() implies !(
        #[trigger] earlier[j] is SliceOver) by {
            assert(!(steps[j] is SliceOver));
        }
        law_no_signal_within_slice(store, earlier, i);
        assert(!(steps[steps.len() - 1] is SliceOver));
    }
}

/// A text that a task asks to have printed is printed as it is: where its bytes lie at `ptr`, the
/// host does not refuse them, and the line is that text. The empty text is left out: the host
/// refuses a length of 0.
pub proof fn law_text_is_printed(text: Seq<char>, memory: Seq<u8>, ptr: u32)
    requires
        ptr != 0,
        0 < encode_utf8(text).len() <= u32::MAX,
        in_bounds(memory, ptr, encode_utf8(text).len()),
        window(memory, ptr, encode_utf8(text).len()) == encode_utf8(text),
    ensures
        print_error(memory, ptr, encode_utf8(text).len() as u32) is None,
        decode_utf8(window(memory, ptr, encode_utf8(text).len())) == text,
{
    encode_utf8_valid_utf8(text);
    encode_utf8_decode_utf8(text);
}

/// A task that calls another one gets the answer to its call.
///
/// The encoded call goes to `call_ptr` in the memory `called` of the called task, which decodes
/// that call and no other from it. Where the task leaves its answer in its memory (by then
/// `answering`) and says so in `packed`, the answer fits the buffer that the calling task has at
/// `result_ptr` in its memory `calling`, and what that task decodes from it is the answer to its
/// call, as a success.
pub proof fn law_remote_call(
    call: Call,
    called: Seq<u8>,
    call_ptr: u32,
    answering: Seq<u8>,
    packed: u64,
    calling: Seq<u8>,
    result_ptr: u32,
)
    requires
        in_bounds(called, call_ptr, call.encoding().len()),
        in_bounds(answering, word_ptr(packed), word_len(packed) as nat),
        window(answering, word_ptr(packed), word_len(packed) as nat) == encoded_answer(call),
        in_bounds(calling, result_ptr, RESULT_BUFFER_LEN as nat),
    ensures
        ({
            let len = call.encoding().len();
            let received = window(written(called, call_ptr, call.encoding()), call_ptr, len);
            &&& Call::decode_error(received) is None
            &&& forall|other: Call, rest: Seq<u8>| #[trigger]
                decodes_to(received, other, rest) <==> other == call && rest.len() == 0
        }),
        ({
            let answer = window(answering, word_ptr(packed), word_len(packed) as nat);
            let buffer = window(
                written(calling, result_ptr, answer),
                result_ptr,
                RESULT_BUFFER_LEN as nat,
            );
            let received = buffer.take(answer.len() as int);
            &&& answer.len() <= RESULT_BUFFER_LEN
            &&& Result::<CallResult, CallError>::decode_error(received) is None
            &&& forall|other: Result<CallResult, CallError>, rest: Seq<u8>| #[trigger]
                decodes_to(received, other, rest) <==> other == Ok::<CallResult, CallError>(
                    call.answer(),
                ) && rest.len() == 0
        }),
{
    law_read_after_write(called, call_ptr, call.encoding());
    lemma_decodes_alone(call);
    let answer = window(answering, word_ptr(packed), word_len(packed) as nat);
    assert(answer.len() == 6);
    law_read_after_write(calling, result_ptr, answer);
    let calling_after = written(calling, result_ptr, answer);
    let buffer = window(calling_after, result_ptr, RESULT_BUFFER_LEN as nat);
    assert(buffer.take(answer.len() as int) =~= window(calling_after, result_ptr, answer.len()));
    let result = Ok::<CallResult, CallError>(call.answer());
    assert(result.encoding() =~= answer);
    lemma_decodes_alone(result);
}

} // verus!
