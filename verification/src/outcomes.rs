//! What the functions of this library return and change, in terms of bytes, numbers and texts.
//!
//! Each law speaks of one call of a function: of its arguments, of what it returned, and of what it
//! left behind.
use vstd::prelude::*;
use vstd::utf8::{decode_utf8, encode_utf8, valid_utf8};

use crate::executor::{
    create_task, deliver_messages, end_time_slice, law_task_id_is_the_name, run_task,
    unpack_ptr_and_len, Slot, Task, TaskFunction,
};
use crate::host;
use crate::host::{law_sent_bytes_are_taken, Delivery, HostError, StoreData, TaskRequest};
use crate::memory::{
    fits, law_memory_has_parts, law_word_has_halves, read_memory, write_memory, written,
};
use crate::messaging;
use crate::messaging::{CallError, Message, TaskId};
use crate::scale::{decodes_to, DecodeError, Scale};
use crate::service::{
    law_answered_bytes_decide, law_polled_bytes_decide, law_work_goes_on_in_turn,
    law_work_reports_multiples, works, Event, EventView, HostCall, LongWork, MainLoop, Phase,
    Service, Step, TaskFailure, TaskState, WorkPhase,
};
use crate::serving::{
    accept_request, PlacedCall, ServeAction, ServeEvent, ServeFailure, Serving,
};
use crate::task;
use crate::task::{
    law_answer_repeats_the_call, law_call_on_wire, pack_ptr_and_len, react, Call, CallResult,
    IMessage, Messages, NextInput, Reaction,
};
use crate::text::{comma_separated, counter_line, decimal, law_lines_read, push_decimal, report};

verus! {

/// Bytes fit a memory exactly if they end inside of it.
pub proof fn law_fits(memory: &[u8], offset: u32, len: usize, inside: bool)
    requires
        call_ensures(fits, (memory, offset, len), inside),
    ensures
        inside <==> offset + len <= memory@.len(),
{
}

/// What is read from a memory are its bytes from the offset on, in order.
pub proof fn law_read_memory(memory: &[u8], offset: u32, len: u32, data: Vec<u8>)
    requires
        call_ensures(read_memory, (memory, offset, len), data),
        offset + len <= memory@.len(),
    ensures
        data@.len() == len,
        forall|i: int| 0 <= i < len ==> #[trigger] data@[i] == memory@[offset + i],
{
}

/// A memory holds what is written to it from the offset on, and is otherwise what it was.
pub proof fn law_write_memory(memory: &mut [u8], offset: u32, data: &[u8])
    requires
        call_ensures(write_memory, (memory, offset, data), ()),
        offset + data@.len() <= old(memory)@.len(),
    ensures
        final(memory)@.len() == old(memory)@.len(),
        forall|i: int|
            0 <= i < old(memory)@.len() ==> #[trigger] final(memory)@[i] == if offset <= i < offset
                + data@.len() {
                data@[i - offset]
            } else {
                old(memory)@[i]
            },
{
}

/// A poll that the host answered with the length 0 gave no message; otherwise the first of the
/// bytes tells the message, and the ID in a request to call a task is what follows it.
pub proof fn law_polled_message(
    buffer: &[u8],
    len: u32,
    result: Result<Option<Message>, DecodeError>,
)
    requires
        call_ensures(messaging::next_message, (buffer, len), result),
        len <= buffer@.len(),
    ensures
        if len == 0 {
            result matches Ok(None)
        } else if buffer@[0] == 0 {
            result == Ok::<Option<Message>, DecodeError>(Some(Message::Ping))
        } else if buffer@[0] == 1 {
            result == Ok::<Option<Message>, DecodeError>(Some(Message::Pong))
        } else if buffer@[0] > 2 {
            result == Err::<Option<Message>, DecodeError>(DecodeError::UnknownVariant)
        } else if len < 33 {
            result == Err::<Option<Message>, DecodeError>(DecodeError::NotEnoughData)
        } else {
            result matches Ok(Some(Message::Call(task_id))) && task_id@ == buffer@.subrange(1, 33)
        },
{
    let bytes = buffer@.take(len as int);
    if let Ok(Some(message)) = result {
        let rest = choose|rest: Seq<u8>| decodes_to(bytes, message, rest);
        assert(bytes[0] == buffer@[0]);
        assert((message.encoding() + rest)[0] == message.encoding()[0]);
        if let Message::Call(task_id) = message {
            assert((seq![2u8] + task_id@ + rest).subrange(1, 33) =~= task_id@);
            assert(bytes.subrange(1, 33) =~= buffer@.subrange(1, 33));
        }
    }
}

/// A ping is sent as the byte 0, a pong as the byte 1, and a request to call a task as the byte 2
/// and the ID of the task.
pub proof fn law_sent_message(message: Message, encoded: Vec<u8>)
    requires
        call_ensures(messaging::send_message, (message,), encoded),
    ensures
        match message {
            Message::Ping => encoded@ == seq![0u8],
            Message::Pong => encoded@ == seq![1u8],
            Message::Call(task_id) => encoded@ == seq![2u8] + task_id@,
        },
{
}

/// A task is called with the byte 0 and the four bytes of the number.
pub proof fn law_sent_call(b0: u8, b1: u8, b2: u8, b3: u8, r: u32, encoded: Vec<u8>)
    requires
        call_ensures(messaging::call_task_message::<Call>, (&Call::DoSomething(r),), encoded),
        r == b0 + 0x100 * b1 + 0x1_0000 * b2 + 0x100_0000 * b3,
    ensures
        encoded@ == seq![0u8, b0, b1, b2, b3],
{
    let rest = Seq::<u8>::empty();
    law_call_on_wire(b0, b1, b2, b3, r, rest, seq![0u8, b0, b1, b2, b3] + rest);
}

/// The answer to a call is the number behind two bytes 0, whatever follows it; anything else is a
/// failed call.
pub proof fn law_received_answer(buffer: &[u8], len: u32, result: Result<CallResult, CallError>)
    requires
        call_ensures(messaging::call_task::<CallResult>, (buffer, len), result),
        len <= buffer@.len(),
    ensures
        if len >= 6 && buffer@[0] == 0 && buffer@[1] == 0 {
            result matches Ok(CallResult::DoSomethingR(r)) && r == buffer@[2] + 0x100 * buffer@[3]
                + 0x1_0000 * buffer@[4] + 0x100_0000 * buffer@[5]
        } else {
            result == Err::<CallResult, CallError>(CallError::ResultDecoding)
        },
{
    let answer = buffer@.take(len as int);
    if Result::<CallResult, CallError>::decode_error(answer) is None {
        let rest = choose|rest: Seq<u8>| decodes_to(answer, result, rest);
        assert(answer[0] == buffer@[0]);
        assert((result.encoding() + rest)[0] == result.encoding()[0]);
        if let Ok(value) = result {
            assert(answer.skip(1)[0] == buffer@[1]);
            let r: u32 = (buffer@[2] + 0x100 * buffer@[3] + 0x1_0000 * buffer@[4] + 0x100_0000
                * buffer@[5]) as u32;
            let bytes = answer.skip(1);
            let left = answer.skip(6);
            assert(bytes =~= seq![0u8, buffer@[2], buffer@[3], buffer@[4], buffer@[5]] + left);
            law_call_on_wire(
                buffer@[2],
                buffer@[3],
                buffer@[4],
                buffer@[5],
                r,
                left,
                bytes,
            );
            assert(bytes =~= value.encoding() + rest);
            assert(decodes_to(bytes, value, rest));
        }
    } else if len >= 6 {
        assert(answer[0] == buffer@[0]);
        assert(answer.skip(1)[0] == buffer@[1]);
    }
}

/// A call is answered with the number that it was made with.
pub proof fn law_dispatch(r: u32, result: CallResult)
    requires
        call_ensures(Call::dispatch, (&Call::DoSomething(r),), result),
    ensures
        result == CallResult::DoSomethingR(r),
{
}

/// An encoded call, which is the byte 0 and four bytes, is answered with one more byte 0 in front
/// of those five bytes; what follows them plays no part. Anything else is refused: for its first
/// byte, or because it ends too soon.
pub proof fn law_call(data: &[u8], result: Result<Vec<u8>, DecodeError>)
    requires
        call_ensures(task::call, (data,), result),
    ensures
        if data@.len() == 0 {
            result == Err::<Vec<u8>, DecodeError>(DecodeError::NotEnoughData)
        } else if data@[0] != 0 {
            result == Err::<Vec<u8>, DecodeError>(DecodeError::UnknownVariant)
        } else if data@.len() < 5 {
            result == Err::<Vec<u8>, DecodeError>(DecodeError::NotEnoughData)
        } else {
            result matches Ok(answer) && answer@ == seq![0u8] + data@.take(5)
        },
{
    if let Ok(answer) = result {
        let (call, rest) = choose|call: Call, rest: Seq<u8>| #[trigger]
            decodes_to(data@, call, rest) && answer@ == task::encoded_answer(call);
        let left = data@.skip(5);
        assert(data@ =~= seq![0u8, data@[1], data@[2], data@[3], data@[4]] + left);
        law_answer_repeats_the_call(data@[1], data@[2], data@[3], data@[4], left, call, rest);
        assert(answer@ =~= seq![0u8] + data@.take(5));
    }
}

/// A word has the length in its upper half and the pointer in its lower half, both when it is put
/// together and when it is taken apart.
pub proof fn law_words(ptr: u32, len: u32, packed: u64, word: u64, unpacked: (u32, u32))
    requires
        call_ensures(pack_ptr_and_len, (ptr, len), packed),
        call_ensures(unpack_ptr_and_len, (word,), unpacked),
    ensures
        packed & 0xffff_ffff == ptr,
        packed >> 32 == len,
        unpacked.0 == word & 0xffff_ffff,
        unpacked.1 == word >> 32,
{
    law_word_has_halves(packed);
    law_word_has_halves(word);
}

/// A task has no contexts at first, and the next input of its main loop is its oldest context, as
/// long as it has one.
pub proof fn law_next_input(messages: &mut Messages, input: NextInput, fresh: Messages)
    requires
        call_ensures(Messages::next, (messages,), input),
        call_ensures(<Messages as Default>::default, (), fresh),
    ensures
        fresh.relay_chain_contexts@.len() == 0,
        ({
            let before = old(messages).relay_chain_contexts@;
            let after = final(messages).relay_chain_contexts@;
            if before.len() == 0 {
                input is PollHost && after.len() == 0
            } else {
                &&& input == NextInput::Ready(IMessage::Context(before[0]))
                &&& before == seq![before[0]] + after
            }
        }),
{
    let before = old(messages).relay_chain_contexts@;
    if before.len() > 0 {
        assert(before =~= seq![before[0]] + before.drop_first());
    }
}

/// A ping is answered by a pong, a pong by a ping, and a request to call a task by a call of that
/// task with the number 10.
pub proof fn law_react(message: IMessage, reaction: Reaction)
    requires
        call_ensures(react, (message,), reaction),
    ensures
        match message {
            IMessage::Context(_) => reaction is Nothing,
            IMessage::Extern(Message::Ping) => reaction == Reaction::Send(Message::Pong),
            IMessage::Extern(Message::Pong) => reaction == Reaction::Send(Message::Ping),
            IMessage::Extern(Message::Call(task_id)) => reaction == Reaction::CallTask(
                task_id,
                Call::DoSomething(10),
            ),
        },
{
}

/// A step of work counts itself, and reports each multiple of 100,000,000.
pub proof fn law_work(counter: &mut u64, report: Option<u64>)
    requires
        call_ensures(task::work, (counter,), report),
        *old(counter) < u64::MAX,
    ensures
        *final(counter) == *old(counter) + 1,
        *final(counter) % 100_000_000 == 0 ==> report == Some(*final(counter)),
        *final(counter) % 100_000_000 != 0 ==> report is None,
{
}

/// The lines of a task read word by word, and numbers in them are decimal.
pub proof fn law_printed_lines(
    task_id: TaskId,
    outcome: Result<CallResult, CallError>,
    line: String,
    counter: u64,
    counted: String,
    text: &mut String,
)
    requires
        call_ensures(report, (&task_id, &outcome), line),
        call_ensures(counter_line, (counter,), counted),
        call_ensures(push_decimal, (text, counter), ()),
    ensures
        match outcome {
            Ok(CallResult::DoSomethingR(r)) => line@ == "Task ["@ + comma_separated(task_id@)
                + "] returned: DoSomethingR("@ + decimal(r as nat) + ")"@,
            Err(_) => line@ == "Calling task ["@ + comma_separated(task_id@)
                + "] returned an error: ResultDecoding"@,
        },
        counted@ == "Counter "@ + decimal(counter as nat),
        final(text)@ == old(text)@ + decimal(counter as nat),
{
    match outcome {
        Ok(CallResult::DoSomethingR(r)) => {
            law_lines_read(task_id, r, counter);
        },
        Err(CallError::ResultDecoding) => {
            law_lines_read(task_id, 0, counter);
        },
    }
}

/// The main loop is started as long as no cycle has ended, and resumed once one has. Only the
/// signal 1 makes a task give control back, and a yield is remembered until the next cycle begins.
pub proof fn law_service_cycle(
    fresh: Service,
    beginning: &mut Service,
    entry: MainLoop,
    signalled: &mut Service,
    signal: u32,
    pending: bool,
    ending: &mut Service,
)
    requires
        call_ensures(Service::new, (), fresh),
        call_ensures(Service::begin, (beginning,), entry),
        call_ensures(Service::maybe_yield, (signalled, signal), pending),
        call_ensures(Service::end, (ending,), ()),
    ensures
        !fresh.started && !fresh.yielded,
        entry == MainLoop::Resume <==> old(beginning).started,
        final(beginning).started == old(beginning).started && !final(beginning).yielded,
        pending <==> signal == 1,
        final(signalled).yielded <==> old(signalled).yielded || signal == 1,
        final(signalled).started == old(signalled).started,
        final(ending).started && final(ending).yielded == old(ending).yielded,
{
}

/// A task that was never serviced is paused, and knows nothing.
pub proof fn law_new_task(task: TaskState)
    requires
        call_ensures(TaskState::new, (), task),
    ensures
        !task.service.started && !task.service.yielded,
        task.messages.relay_chain_contexts@.len() == 0,
        task.phase is Paused,
{
}

/// A paused task that is serviced polls for a message, and one that failed does nothing.
pub proof fn law_task_is_serviced(task: &mut TaskState, result: Result<Step, TaskFailure>)
    requires
        call_ensures(TaskState::advance, (task, Event::Service), result),
    ensures
        match old(task).phase {
            Phase::Paused => {
                &&& result matches Ok(Step::Call(HostCall::NextMessage))
                &&& final(task).phase is Polling
                &&& final(task).service.started == old(task).service.started
                &&& !final(task).service.yielded
            },
            Phase::Failed => result matches Err(TaskFailure::FailedBefore),
            _ => result matches Err(TaskFailure::OutOfTurn),
        },
        !(old(task).phase is Paused) ==> final(task).phase == old(task).phase && final(task).service
            == old(task).service,
{
    assert(Event::Service@ is Service);
}

/// A task that has polled reacts to the bytes that it got: to the byte 0 by sending the byte 1, to
/// the byte 1 by sending the byte 0, and to the byte 2 and an ID by calling the task of that ID
/// with the number 10. Without a message it gives control back.
pub proof fn law_task_takes_poll(
    task: &mut TaskState,
    buffer: Vec<u8>,
    len: u32,
    result: Result<Step, TaskFailure>,
    task_id: TaskId,
)
    requires
        call_ensures(TaskState::advance, (task, Event::Message { buffer, len }), result),
        old(task).phase is Polling,
    ensures
        if len > buffer@.len() {
            result matches Err(TaskFailure::BufferTooSmall) && final(task).phase is Failed
        } else if len == 0 {
            &&& result matches Ok(Step::Pending)
            &&& final(task).phase is Paused
            &&& final(task).service.started
            &&& final(task).service.yielded == old(task).service.yielded
        } else if buffer@[0] == 0 {
            &&& result matches Ok(Step::Call(HostCall::SendMessage(bytes))) && bytes@ == seq![1u8]
            &&& final(task).phase is Sending
        } else if buffer@[0] == 1 {
            &&& result matches Ok(Step::Call(HostCall::SendMessage(bytes))) && bytes@ == seq![0u8]
            &&& final(task).phase is Sending
        } else if buffer@[0] == 2 && len >= 33 {
            buffer@.subrange(1, 33) == task_id@ ==> {
                &&& result matches Ok(Step::Call(HostCall::CallTask { task: called, call }))
                    && called == task_id && call@ == seq![0u8, 10u8, 0u8, 0u8, 0u8]
                &&& final(task).phase == Phase::Calling(task_id)
            }
        } else {
            result matches Err(TaskFailure::MessageDecoding(_)) && final(task).phase is Failed
        },
        len > 0 && (buffer@[0] != 2 || len < 33 || buffer@.subrange(1, 33) == task_id@) ==> final(task).service == old(task).service,
        buffer@[0] != 2 || len < 33 || buffer@.subrange(1, 33) == task_id@ ==> final(task).messages.relay_chain_contexts@ == old(task).messages.relay_chain_contexts@,
{
    let event = Event::Message { buffer, len };
    assert(event@ == (EventView::Message { buffer: buffer@, len }));
    law_polled_bytes_decide(old(task)@, buffer@, len, task_id);
}

/// A task that has called another one prints the number behind two bytes 0, and reports a failure
/// for anything else.
pub proof fn law_task_takes_answer(
    task: &mut TaskState,
    task_id: TaskId,
    buffer: Vec<u8>,
    len: u32,
    result: Result<Step, TaskFailure>,
)
    requires
        call_ensures(TaskState::advance, (task, Event::CallResult { buffer, len }), result),
        old(task).phase == Phase::Calling(task_id),
    ensures
        ({
            let number = buffer@[2] + 0x100 * buffer@[3] + 0x1_0000 * buffer@[4] + 0x100_0000
                * buffer@[5];
            let id_text = comma_separated(task_id@);
            if len > buffer@.len() {
                result matches Err(TaskFailure::BufferTooSmall) && final(task).phase is Failed
            } else if len >= 6 && buffer@[0] == 0 && buffer@[1] == 0 {
                &&& result matches Ok(Step::Call(HostCall::Print(line))) && line@ == "Task ["@
                    + id_text + "] returned: DoSomethingR("@ + decimal(number as nat) + ")"@
                &&& final(task).phase is Printing
            } else {
                &&& result matches Ok(Step::Call(HostCall::Print(line))) && line@
                    == "Calling task ["@ + id_text + "] returned an error: ResultDecoding"@
                &&& final(task).phase is Printing
            }
        }),
        final(task).service == old(task).service,
        final(task).messages.relay_chain_contexts@ == old(task).messages.relay_chain_contexts@,
{
    let event = Event::CallResult { buffer, len };
    assert(event@ == (EventView::CallResult { buffer: buffer@, len }));
    law_answered_bytes_decide(old(task)@, task_id, buffer@, len);
}

/// A task whose message was sent, or whose line was printed, polls again, and has no contexts left.
pub proof fn law_task_polls_again(task: &mut TaskState, result: Result<Step, TaskFailure>)
    requires
        call_ensures(TaskState::advance, (task, Event::Done), result),
    ensures
        if old(task).phase is Sending || old(task).phase is Printing {
            &&& result matches Ok(Step::Call(HostCall::NextMessage))
            &&& final(task).phase is Polling
            &&& final(task).messages.relay_chain_contexts@.len() == 0
        } else {
            &&& result matches Err(TaskFailure::OutOfTurn)
            &&& final(task).phase == old(task).phase
            &&& final(task).messages.relay_chain_contexts@ == old(task).messages.relay_chain_contexts@
        },
        final(task).service == old(task).service,
{
    assert(Event::Done@ is Done);
}

/// A long computation starts at the counter 0.
pub proof fn law_new_work(work: LongWork)
    requires
        call_ensures(LongWork::never_return, (), work),
    ensures
        work.phase is Created,
        work.counter == 0,
{
}

/// The counter of a long computation changes only by work, which adds 1 to it: when the host
/// answers anything but the signal 1, and when the computation is polled after it gave control
/// back. It gives control back on the signal 1 alone, and prints each multiple of 100,000,000 that
/// the counter reaches.
pub proof fn law_work_advances(
    work: &mut LongWork,
    service: &mut Service,
    event: Event,
    result: Result<Step, TaskFailure>,
)
    requires
        call_ensures(LongWork::advance, (work, service, event), result),
        old(work).counter < u64::MAX,
    ensures
        match (old(work).phase, event) {
            (WorkPhase::Created, Event::Service) => {
                &&& result matches Ok(Step::Call(HostCall::Print(line))) && line@
                    == "Init `never_return`"@
                &&& final(work).phase is Starting
            },
            (WorkPhase::Starting, Event::Done) | (WorkPhase::Reporting, Event::Done) => {
                &&& result matches Ok(Step::Call(HostCall::ShouldYield))
                &&& final(work).phase is Asking
            },
            (WorkPhase::Asking, Event::Signal(1)) => {
                &&& result matches Ok(Step::Pending)
                &&& final(work).phase is Yielded
            },
            (WorkPhase::Asking, Event::Signal(_)) | (WorkPhase::Yielded, Event::Service) => {
                let counter = old(work).counter + 1;
                if counter % 100_000_000 == 0 {
                    &&& result matches Ok(Step::Call(HostCall::Print(line))) && line@ == "Counter "@
                        + decimal(counter as nat)
                    &&& final(work).phase is Reporting
                } else {
                    &&& result matches Ok(Step::Call(HostCall::ShouldYield))
                    &&& final(work).phase is Asking
                }
            },
            _ => result matches Err(TaskFailure::OutOfTurn) && final(work).phase == old(work).phase,
        },
        final(work).counter == match (old(work).phase, event) {
            (WorkPhase::Asking, Event::Signal(1)) => old(work).counter as int,
            (WorkPhase::Asking, Event::Signal(_)) | (WorkPhase::Yielded, Event::Service) => old(work).counter + 1,
            _ => old(work).counter as int,
        },
        final(service).started == old(service).started,
        final(service).yielded <==> old(service).yielded || (old(work).phase is Asking && event
            == Event::Signal(1)),
{
    law_work_goes_on_in_turn(*old(work), event@);
    if works(*old(work), event@) {
        law_work_reports_multiples(*old(work), event@, (old(work).counter + 1) as u64);
    }
}

/// A poll hands out the message that was added last, takes it off the queue and writes its bytes
/// to the memory, wherever there is room for them. Without a message nothing happens, and the host
/// answers 0. Only a pointer that is 0 is refused, and one that leaves no room for the message.
pub proof fn law_host_next_message(
    store: &mut StoreData,
    memory: &mut [u8],
    ptr: u32,
    result: Result<Delivery, HostError>,
)
    requires
        call_ensures(host::next_message, (store, memory, ptr), result),
    ensures
        ({
            let queue = old(store).messages@;
            let message = queue[queue.len() - 1];
            let bytes = match message {
                Message::Ping => seq![0u8],
                Message::Pong => seq![1u8],
                Message::Call(task_id) => seq![2u8] + task_id@,
            };
            let left_alone = final(store).messages@ == queue && final(memory)@ == old(memory)@;
            if ptr == 0 {
                result matches Err(HostError::InvalidArgument) && left_alone
            } else if queue.len() == 0 {
                &&& result matches Ok(delivery) && delivery.len == 0 && delivery.message is None
                &&& left_alone
            } else if old(memory)@.len() < ptr + bytes.len() {
                result matches Err(HostError::OutOfBounds) && left_alone
            } else {
                &&& result matches Ok(delivery) && delivery.len == bytes.len() && delivery.message
                    == Some(message)
                &&& queue == final(store).messages@ + seq![message]
                &&& final(memory)@.len() == old(memory)@.len()
                &&& final(memory)@.subrange(ptr as int, ptr + bytes.len()) == bytes
                &&& final(memory)@.take(ptr as int) == old(memory)@.take(ptr as int)
                &&& final(memory)@.skip(ptr + bytes.len()) == old(memory)@.skip(ptr + bytes.len())
            }
        }),
        final(store).messages_to_send@ == old(store).messages_to_send@,
        final(store).name@ == old(store).name@,
        final(store).should_yield == old(store).should_yield,
{
    let before = old(store)@;
    let after = final(store)@;
    let queue = old(store).messages@;
    assert(after.messages == final(store).messages@);
    assert(after.messages_to_send == final(store).messages_to_send@);
    assert(after.name == final(store).name@);
    if result is Ok && queue.len() > 0 {
        let message = queue[queue.len() - 1];
        let bytes = message.encoding();
        assert(queue =~= queue.drop_last() + seq![message]);
        assert(final(memory)@ == written(old(memory)@, ptr, bytes));
        assert(final(memory)@.subrange(ptr as int, ptr + bytes.len()) =~= bytes);
        assert(final(memory)@.take(ptr as int) =~= old(memory)@.take(ptr as int));
        assert(final(memory)@.skip(ptr + bytes.len()) =~= old(memory)@.skip(ptr + bytes.len()));
    }
}

/// A message that a task sends is told by its bytes, and comes behind those that the task sent
/// before. It is refused only where an argument is 0, where the bytes do not lie in the memory, or
/// where they are no message.
pub proof fn law_host_send_message(
    store: &mut StoreData,
    memory: &[u8],
    ptr: u32,
    len: u32,
    result: Result<Message, HostError>,
)
    requires
        call_ensures(host::send_message, (store, memory, ptr, len), result),
    ensures
        ({
            let first = memory@[ptr as int];
            if ptr == 0 || len == 0 {
                result matches Err(HostError::InvalidArgument)
            } else if memory@.len() < ptr + len {
                result matches Err(HostError::OutOfBounds)
            } else if first > 2 {
                result matches Err(HostError::MessageDecoding(DecodeError::UnknownVariant))
            } else if first == 2 && len < 33 {
                result matches Err(HostError::MessageDecoding(DecodeError::NotEnoughData))
            } else if first == 0 {
                result matches Ok(Message::Ping)
            } else if first == 1 {
                result matches Ok(Message::Pong)
            } else {
                result matches Ok(Message::Call(task_id)) && task_id@ == memory@.subrange(
                    ptr + 1,
                    ptr + 33,
                )
            }
        }),
        match result {
            Ok(message) => final(store).messages_to_send@ == old(store).messages_to_send@ + seq![
                message,
            ],
            Err(_) => final(store).messages_to_send@ == old(store).messages_to_send@,
        },
        final(store).messages@ == old(store).messages@,
        final(store).name@ == old(store).name@,
        final(store).should_yield == old(store).should_yield,
{
    let before = old(store)@;
    let after = final(store)@;
    assert(after.messages == final(store).messages@);
    assert(after.messages_to_send == final(store).messages_to_send@);
    assert(after.name == final(store).name@);
    assert(before.messages == old(store).messages@);
    match result {
        Ok(message) => {
            let bytes = memory@.subrange(ptr as int, ptr + len);
            let rest = choose|rest: Seq<u8>| decodes_to(bytes, message, rest);
            law_sent_bytes_are_taken(memory@, ptr, len, message, rest);
            assert(final(store).messages_to_send@ =~= old(store).messages_to_send@ + seq![message]);
        },
        Err(_) => {
            law_sent_bytes_are_taken(memory@, ptr, len, Message::Ping, Seq::empty());
        },
    }
}

/// A line is the text of the bytes that the task names. It is refused only where an argument is 0,
/// where the bytes do not lie in the memory, or where they are no text.
pub proof fn law_host_print(memory: &[u8], ptr: u32, len: u32, result: Result<String, HostError>)
    requires
        call_ensures(host::print, (memory, ptr, len), result),
    ensures
        ({
            let bytes = memory@.subrange(ptr as int, ptr + len);
            if ptr == 0 || len == 0 {
                result matches Err(HostError::InvalidArgument)
            } else if memory@.len() < ptr + len {
                result matches Err(HostError::OutOfBounds)
            } else if !valid_utf8(bytes) {
                result matches Err(HostError::InvalidUtf8)
            } else {
                result matches Ok(line) && line@ == decode_utf8(bytes)
            }
        }),
{
}

/// The signal is 1 where the task is asked to give control back, and 0 where it is not.
pub proof fn law_host_should_yield(store: StoreData, signal: u32)
    requires
        call_ensures(host::should_yield, (&store,), signal),
    ensures
        signal == if store.should_yield {
            1u32
        } else {
            0u32
        },
{
}

/// A call of another task becomes a request with the 32 bytes at `target` and the bytes of the
/// call, wherever they lie in the memory. It is refused only where an argument is 0, or where one
/// of the two does not end inside of the memory.
pub proof fn law_host_call_task(
    memory: &[u8],
    target: u32,
    call_ptr: u32,
    call_len: u32,
    result_ptr: u32,
    result: Result<TaskRequest, HostError>,
)
    requires
        call_ensures(host::call_task, (memory, target, call_ptr, call_len, result_ptr), result),
    ensures
        if target == 0 || call_ptr == 0 || call_len == 0 || result_ptr == 0 {
            result matches Err(HostError::InvalidArgument)
        } else if memory@.len() < call_ptr + call_len || memory@.len() < target + 32 {
            result matches Err(HostError::OutOfBounds)
        } else {
            result matches Ok(TaskRequest::Call { target: task_id, call }) && task_id@
                == memory@.subrange(target as int, target + 32) && call@ == memory@.subrange(
                call_ptr as int,
                call_ptr + call_len,
            )
        },
{
}

/// The answer to a call is written to the memory of the calling task, byte by byte and nowhere
/// else, and its length is returned. It is refused only where it does not end inside of the memory.
pub proof fn law_host_call_task_result(
    memory: &mut [u8],
    ptr: u32,
    answer: &[u8],
    result: Result<u32, HostError>,
)
    requires
        call_ensures(host::call_task_result, (memory, ptr, answer), result),
        answer@.len() <= u32::MAX,
    ensures
        if old(memory)@.len() < ptr + answer@.len() {
            result matches Err(HostError::OutOfBounds) && final(memory)@ == old(memory)@
        } else {
            &&& result matches Ok(len) && len == answer@.len()
            &&& final(memory)@.len() == old(memory)@.len()
            &&& forall|i: int|
                0 <= i < old(memory)@.len() ==> #[trigger] final(memory)@[i] == if ptr <= i < ptr
                    + answer@.len() {
                    answer@[i - ptr]
                } else {
                    old(memory)@[i]
                }
        },
{
}

/// A task is created for every name of at most 32 bytes. Its ID is those bytes and then zeros, and
/// it starts with empty queues and no request to give control back.
pub proof fn law_create_task(name: String, task: Option<Task>, i: int)
    requires
        call_ensures(create_task, (name,), task),
    ensures
        match task {
            None => encode_utf8(name@).len() > 32,
            Some(task) => {
                &&& encode_utf8(name@).len() <= 32
                &&& task.name@ == name@ && task.store_data.name@ == name@
                &&& 0 <= i < 32 ==> task.task_id[i] == if i < encode_utf8(name@).len() {
                    encode_utf8(name@)[i]
                } else {
                    0u8
                }
                &&& task.store_data.messages@.len() == 0
                &&& task.store_data.messages_to_send@.len() == 0
                &&& !task.store_data.should_yield
            },
        },
{
    law_task_id_is_the_name(name@, i);
    if let Some(task) = task {
        let store = task.store_data@;
        assert(store.messages == task.store_data.messages@);
        assert(store.messages_to_send == task.store_data.messages_to_send@);
        if 0 <= i < 32 {
            assert(task.task_id@[i] == task.task_id[i]);
        }
    }
}

/// Two states of one task, with the given queues and request.
pub open spec fn task_became(
    before: Task,
    after: Task,
    messages: Seq<Message>,
    messages_to_send: Seq<Message>,
    should_yield: bool,
) -> bool {
    &&& after.name@ == before.name@
    &&& after.task_id == before.task_id
    &&& after.store_data.name@ == before.store_data.name@
    &&& after.store_data.messages@ == messages
    &&& after.store_data.messages_to_send@ == messages_to_send
    &&& after.store_data.should_yield == should_yield
}

/// A task keeps all that it is but for what the host does with it: a message that it is sent comes
/// last in its queue, what it sent is collected whole, and the request to give control back is what
/// it was last set to.
pub proof fn law_task_changes(
    receiving: &mut Task,
    message: Message,
    draining: &mut Task,
    drained: Vec<Message>,
    asked: &mut Task,
    should_yield: bool,
    ended: &mut Task,
)
    requires
        call_ensures(Task::send_message, (receiving, message), ()),
        call_ensures(Task::drain_messages_to_send, (draining,), drained),
        call_ensures(Task::set_yield, (asked, should_yield), ()),
        call_ensures(end_time_slice, (ended,), ()),
    ensures
        task_became(
            *old(receiving),
            *final(receiving),
            old(receiving).store_data.messages@ + seq![message],
            old(receiving).store_data.messages_to_send@,
            old(receiving).store_data.should_yield,
        ),
        drained@ == old(draining).store_data.messages_to_send@,
        task_became(
            *old(draining),
            *final(draining),
            old(draining).store_data.messages@,
            Seq::empty(),
            old(draining).store_data.should_yield,
        ),
        task_became(
            *old(asked),
            *final(asked),
            old(asked).store_data.messages@,
            old(asked).store_data.messages_to_send@,
            should_yield,
        ),
        task_became(
            *old(ended),
            *final(ended),
            old(ended).store_data.messages@,
            old(ended).store_data.messages_to_send@,
            true,
        ),
{
    let received = final(receiving).store_data@;
    assert(received.messages == final(receiving).store_data.messages@);
    assert(received.messages =~= old(receiving).store_data.messages@ + seq![message]);
    assert(final(draining).store_data@.messages == final(draining).store_data.messages@);
    assert(final(asked).store_data@.messages == final(asked).store_data.messages@);
    assert(final(ended).store_data@.messages == final(ended).store_data.messages@);
}

/// Everything that one task sent is passed on to the other one, whole and in order, and nothing of
/// it is left to be passed on again.
pub proof fn law_deliver_messages(from: &mut Task, to: &mut Task)
    requires
        call_ensures(deliver_messages, (from, to), ()),
    ensures
        task_became(
            *old(from),
            *final(from),
            old(from).store_data.messages@,
            Seq::empty(),
            old(from).store_data.should_yield,
        ),
        task_became(
            *old(to),
            *final(to),
            old(to).store_data.messages@ + old(from).store_data.messages_to_send@,
            old(to).store_data.messages_to_send@,
            old(to).store_data.should_yield,
        ),
{
    assert(final(from).store_data@.messages == final(from).store_data.messages@);
    assert(final(to).store_data@.messages == final(to).store_data.messages@);
}

/// A task that is scheduled is no longer asked to give control back, and the function that services
/// it is taken by whoever schedules it.
pub proof fn law_run_task<F>(task: &mut Task, service: &mut Slot<F>, function: Option<F>)
    requires
        call_ensures(run_task::<F>, (task, service), function),
    ensures
        function == old(service)@,
        final(service)@ is None,
        task_became(
            *old(task),
            *final(task),
            old(task).store_data.messages@,
            old(task).store_data.messages_to_send@,
            false,
        ),
{
    assert(final(task).store_data@.messages == final(task).store_data.messages@);
}

/// A function is there until someone takes it, and is put back after a call that succeeded; after
/// one that failed, only the function that frees memory is.
pub proof fn law_slot<F>(
    function: F,
    fresh: Slot<F>,
    taking: &mut Slot<F>,
    taken: Option<F>,
    finishing: &mut Slot<F>,
    which: TaskFunction,
    succeeded: bool,
)
    requires
        call_ensures(Slot::<F>::new, (function,), fresh),
        call_ensures(Slot::<F>::take, (taking,), taken),
        call_ensures(Slot::<F>::finish, (finishing, which, function, succeeded), ()),
    ensures
        fresh@ == Some(function),
        taken == old(taking)@ && final(taking)@ is None,
        final(finishing)@ == if succeeded || which == TaskFunction::FreeMemory {
            Some(function)
        } else {
            old(finishing)@
        },
{
}

/// A request is taken on by the task that it is for and by no other, with the bytes of its call.
pub proof fn law_accept_request(
    target: TaskId,
    call: Vec<u8>,
    task: Task,
    accepted: Option<(ServeAction, Serving)>,
)
    requires
        call_ensures(accept_request, (TaskRequest::Call { target, call }, &task), accepted),
        call@.len() <= u32::MAX,
    ensures
        accepted is Some <==> target == task.task_id,
        accepted matches Some((ServeAction::Allocate { len }, Serving::Allocating(bytes))) ==> len
            == call@.len() && bytes@ == call@,
        accepted is Some ==> accepted->Some_0.0 is Allocate && accepted->Some_0.1 is Allocating,
{
}

/// What the host does while it serves a call. Once memory is allocated, the bytes of the call are
/// written there, and nowhere else; after that the memory of the called task is only read. Once the
/// task returns, the call is freed; once it is freed, the answer is read and freed; and once that
/// is done, the answer is passed on.
pub proof fn law_serving_advances(
    serving: Serving,
    event: ServeEvent,
    memory: &mut [u8],
    next: (Result<ServeAction, ServeFailure>, Serving),
)
    requires
        call_ensures(Serving::advance, (serving, event, memory), next),
        serving.wf(),
    ensures
        match (serving, event) {
            (Serving::Allocating(call), ServeEvent::Allocated(ptr)) => if old(memory)@.len() < ptr
                + call@.len() {
                &&& next.0 matches Err(ServeFailure::OutOfBounds)
                &&& next.1 is Failed
                &&& final(memory)@ == old(memory)@
            } else {
                &&& next.0 matches Ok(ServeAction::Call { ptr: at, len }) && at == ptr && len
                    == call@.len()
                &&& next.1 matches Serving::Calling(placed) && placed.ptr == ptr && placed.len
                    == call@.len()
                &&& final(memory)@.len() == old(memory)@.len()
                &&& final(memory)@.subrange(ptr as int, ptr + call@.len()) == call@
                &&& final(memory)@.take(ptr as int) == old(memory)@.take(ptr as int)
                &&& final(memory)@.skip(ptr + call@.len()) == old(memory)@.skip(ptr + call@.len())
            },
            (Serving::Calling(placed), ServeEvent::Returned(packed)) => {
                &&& next.0 matches Ok(ServeAction::Free { ptr, len }) && ptr == placed.ptr && len
                    == placed.len
                &&& next.1 matches Serving::FreeingCall(returned) && returned.call_ptr == placed.ptr
                    && returned.call_len == placed.len && returned.answer_ptr == packed
                    & 0xffff_ffff && returned.answer_len == packed >> 32
            },
            (Serving::FreeingCall(returned), ServeEvent::Freed) => if old(memory)@.len()
                < returned.answer_ptr + returned.answer_len {
                next.0 matches Err(ServeFailure::OutOfBounds) && next.1 is Failed
            } else {
                &&& next.0 matches Ok(ServeAction::Free { ptr, len }) && ptr == returned.answer_ptr
                    && len == returned.answer_len
                &&& next.1 matches Serving::FreeingAnswer(answer) && answer@ == old(memory)@.subrange(
                    returned.answer_ptr as int,
                    returned.answer_ptr + returned.answer_len,
                )
            },
            (Serving::FreeingAnswer(answer), ServeEvent::Freed) => {
                &&& next.0 matches Ok(ServeAction::Answer(bytes)) && bytes@ == answer@
                &&& next.1 is Answered
            },
            _ => next.0 matches Err(ServeFailure::OutOfTurn) && next.1 is Failed,
        },
        !(event is Allocated) ==> final(memory)@ == old(memory)@,
        !(serving is Allocating) ==> final(memory)@ == old(memory)@,
{
    if let ServeEvent::Returned(packed) = event {
        law_word_has_halves(packed);
    }
    if let (Serving::Allocating(call), ServeEvent::Allocated(ptr)) = (serving, event) {
        if old(memory)@.len() >= ptr + call@.len() {
            let before = old(memory)@.take(ptr as int);
            let block = old(memory)@.subrange(ptr as int, ptr + call@.len());
            let after = old(memory)@.skip(ptr + call@.len());
            assert(old(memory)@ =~= before + block + after);
            law_memory_has_parts(before, block, after, call@);
            assert(final(memory)@ == before + call@ + after);
            assert(final(memory)@.subrange(ptr as int, ptr + call@.len()) =~= call@);
            assert(final(memory)@.take(ptr as int) =~= before);
            assert(final(memory)@.skip(ptr + call@.len()) =~= after);
        }
    }
}

/// The answer of a task reaches the host unchanged: between the return of the task and the reading
/// of its answer the host is told twice that something happened, and the bytes that it then passes
/// on are those that lay in the memory when the task returned, where the returned word says.
pub proof fn law_answer_reaches_the_caller(
    placed: PlacedCall,
    packed: u64,
    memory_at_return: &mut [u8],
    returned: (Result<ServeAction, ServeFailure>, Serving),
    memory_at_read: &mut [u8],
    read: (Result<ServeAction, ServeFailure>, Serving),
    memory_at_end: &mut [u8],
    answered: (Result<ServeAction, ServeFailure>, Serving),
)
    requires
        call_ensures(
            Serving::advance,
            (Serving::Calling(placed), ServeEvent::Returned(packed), memory_at_return),
            returned,
        ),
        call_ensures(
            Serving::advance,
            (returned.1, ServeEvent::Freed, memory_at_read),
            read,
        ),
        call_ensures(Serving::advance, (read.1, ServeEvent::Freed, memory_at_end), answered),
        old(memory_at_read)@ == final(memory_at_return)@,
        (packed & 0xffff_ffff) + (packed >> 32) <= old(memory_at_return)@.len(),
    ensures
        answered.0 matches Ok(ServeAction::Answer(answer)) && answer@ == old(memory_at_return)@.subrange(
            (packed & 0xffff_ffff) as int,
            (packed & 0xffff_ffff) + (packed >> 32),
        ),
{
    law_serving_advances(
        Serving::Calling(placed),
        ServeEvent::Returned(packed),
        memory_at_return,
        returned,
    );
    law_serving_advances(returned.1, ServeEvent::Freed, memory_at_read, read);
    law_serving_advances(read.1, ServeEvent::Freed, memory_at_end, answered);
}

} // verus!
