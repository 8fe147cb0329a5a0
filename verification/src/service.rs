//! The service cycle in which the host drives a task.
//!
//! A task does not own the stack that it runs on. Between two calls of the host everything that it
//! knows is a value, [`TaskState`], and what it does next is decided by that value and by what the
//! host answers. So a task that stops can go on later, or be run again elsewhere, and does the same
//! whenever it is told the same.
use vstd::prelude::*;

use crate::messaging::{
    call_task, call_task_message, law_message_length, law_message_on_wire, next_message,
    send_message, CallError, Message, TaskId,
};
use crate::run::{is_run, lemma_runs_agree};
use crate::scale::{
    decoded, decodes_to, law_decoded_is_unique, starts_with, DecodeError, Scale,
};
use crate::task::{
    law_call_on_wire, react, reaction_to, work, Call, CallResult, IMessage, Messages, NextInput,
    Reaction, RelayChainContext, REPORT_INTERVAL,
};
use crate::text::{
    comma_separated, counter_line, counter_text, decimal, law_lines_read, report, report_text,
};

verus! {

/// How the main loop of a task is entered.
#[derive(Clone, Copy, Debug, PartialEq, Eq, Structural)]
pub enum MainLoop {
    /// From its start.
    Start,
    /// At the point where it gave control back.
    Resume,
}

/// The state of the service cycle of a task.
#[derive(Clone, Copy, Debug, PartialEq, Eq, Structural)]
pub struct Service {
    /// Whether a service cycle has ended, so that the main loop has a point to go on from.
    pub started: bool,
    /// Whether the task has yielded in the current cycle or, between cycles, in the last one.
    pub yielded: bool,
}

/// The state of a task that was never serviced.
pub open spec fn unserviced() -> Service {
    Service { started: false, yielded: false }
}

/// `service` at the start of a cycle.
pub open spec fn begun(service: Service) -> Service {
    Service { yielded: false, ..service }
}

/// `service` after the task has read `signal`.
pub open spec fn signalled(service: Service, signal: u32) -> Service {
    Service { yielded: service.yielded || signal == 1, ..service }
}

/// `service` at the end of a cycle.
pub open spec fn ended(service: Service) -> Service {
    Service { started: true, ..service }
}

impl Service {
    /// A task that was never serviced.
    pub fn new() -> (service: Self)
        ensures
            service == unserviced(),
    {
        Service { started: false, yielded: false }
    }

    /// Starts a service cycle: the task has not yielded in it, and the main loop is started in the
    /// first cycle only.
    pub fn begin(&mut self) -> (entry: MainLoop)
        ensures
            *final(self) == begun(*old(self)),
            entry == if old(self).started {
                MainLoop::Resume
            } else {
                MainLoop::Start
            },
    {
        self.yielded = false;
        if self.started {
            MainLoop::Resume
        } else {
            MainLoop::Start
        }
    }

    /// Maybe yields, depending on the `signal` of the host: returns whether the task has to give
    /// control back now.
    pub fn maybe_yield(&mut self, signal: u32) -> (pending: bool)
        ensures
            pending == (signal == 1),
            *final(self) == signalled(*old(self), signal),
    {
        if signal == 1 {
            self.yielded = true;
            true
        } else {
            false
        }
    }

    /// Ends a service cycle: from now on the main loop is resumed.
    pub fn end(&mut self)
        ensures
            *final(self) == ended(*old(self)),
    {
        self.started = true;
    }
}

/// What the parts of a service cycle do to its two flags: a task starts out with neither, a cycle
/// begins without a yield, only the signal 1 is a yield, and the end of a cycle is remembered.
/// Nothing else about the cycle changes at any of these points.
pub proof fn law_service_flags(service: Service, signal: u32)
    ensures
        !unserviced().started && !unserviced().yielded,
        begun(service).started == service.started && !begun(service).yielded,
        signalled(service, signal).started == service.started,
        signal == 1 ==> signalled(service, signal).yielded,
        signal != 1 ==> signalled(service, signal).yielded == service.yielded,
        ended(service).started && ended(service).yielded == service.yielded,
{
}

/// `service` after the task has read all of `signals`.
pub open spec fn all_signalled(service: Service, signals: Seq<u32>) -> Service
    decreases signals.len(),
{
    if signals.len() == 0 {
        service
    } else {
        signalled(all_signalled(service, signals.drop_last()), signals.last())
    }
}

/// `service` after a whole cycle in which the task has read `signals`.
pub open spec fn serviced(service: Service, signals: Seq<u32>) -> Service {
    ended(all_signalled(begun(service), signals))
}

/// Reading signals never changes how the main loop is entered next, and the task has yielded
/// exactly if it had before or one of the signals asked it to.
proof fn lemma_all_signalled(service: Service, signals: Seq<u32>)
    ensures
        all_signalled(service, signals).started == service.started,
        all_signalled(service, signals).yielded == (service.yielded || signals.contains(1u32)),
    decreases signals.len(),
{
    if signals.len() > 0 {
        let init = signals.drop_last();
        lemma_all_signalled(service, init);
        assert(signals =~= init.push(signals.last()));
        if init.contains(1u32) {
            let i = choose|i: int| 0 <= i < init.len() && init[i] == 1u32;
            assert(signals[i] == 1u32);
        }
        if signals.contains(1u32) && signals.last() != 1u32 {
            let i = choose|i: int| 0 <= i < signals.len() && signals[i] == 1u32;
            assert(init[i] == 1u32);
        }
        if signals.last() == 1u32 {
            assert(signals[signals.len() - 1] == 1u32);
        }
    }
}

/// A cycle starts afresh: afterwards the task counts as yielded exactly if the host asked it to
/// yield in that cycle, whatever happened before.
pub proof fn law_yield_is_per_cycle(service: Service, signals: Seq<u32>)
    ensures
        serviced(service, signals).yielded == signals.contains(1u32),
        serviced(service, signals).started,
{
    lemma_all_signalled(begun(service), signals);
}

/// A call of a function of the host. Buffers that the host fills are not part of it: the host
/// answers with what it put into them.
#[derive(Debug)]
pub enum HostCall {
    /// Poll for the next message.
    NextMessage,
    /// Send an encoded message.
    SendMessage(Vec<u8>),
    /// Call the given task with an encoded call.
    CallTask { task: TaskId, call: Vec<u8> },
    /// Print a line.
    Print(String),
    /// Ask whether to give control back.
    ShouldYield,
}

/// The contents of a [`HostCall`].
pub enum HostCallView {
    NextMessage,
    SendMessage(Seq<u8>),
    CallTask { task: TaskId, call: Seq<u8> },
    Print(Seq<char>),
    ShouldYield,
}

impl View for HostCall {
    type V = HostCallView;

    open spec fn view(&self) -> HostCallView {
        match self {
            HostCall::NextMessage => HostCallView::NextMessage,
            HostCall::SendMessage(bytes) => HostCallView::SendMessage(bytes@),
            HostCall::CallTask { task, call } => HostCallView::CallTask { task: *task, call: call@ },
            HostCall::Print(line) => HostCallView::Print(line@),
            HostCall::ShouldYield => HostCallView::ShouldYield,
        }
    }
}

/// What a task is told.
#[derive(Debug)]
pub enum Event {
    /// The host services the task.
    Service,
    /// The host was polled for a message: the buffer with what it put there, and the length that
    /// it returned.
    Message { buffer: Vec<u8>, len: u32 },
    /// Another task was called: the buffer with the answer, and the length that the host returned.
    CallResult { buffer: Vec<u8>, len: u32 },
    /// The host has done what it has nothing to answer to.
    Done,
    /// Whether the host wants control back.
    Signal(u32),
}

/// The contents of an [`Event`].
pub enum EventView {
    Service,
    Message { buffer: Seq<u8>, len: u32 },
    CallResult { buffer: Seq<u8>, len: u32 },
    Done,
    Signal(u32),
}

impl View for Event {
    type V = EventView;

    open spec fn view(&self) -> EventView {
        match self {
            Event::Service => EventView::Service,
            Event::Message { buffer, len } => EventView::Message { buffer: buffer@, len: *len },
            Event::CallResult { buffer, len } => EventView::CallResult { buffer: buffer@, len: *len },
            Event::Done => EventView::Done,
            Event::Signal(signal) => EventView::Signal(*signal),
        }
    }
}

/// What a task does next.
#[derive(Debug)]
pub enum Step {
    /// Call the host, and go on with its answer.
    Call(HostCall),
    /// Give control back until the task is serviced again.
    Pending,
}

/// The contents of a [`Step`].
pub enum StepView {
    Call(HostCallView),
    Pending,
}

impl View for Step {
    type V = StepView;

    open spec fn view(&self) -> StepView {
        match self {
            Step::Call(call) => StepView::Call(call@),
            Step::Pending => StepView::Pending,
        }
    }
}

/// Why a task cannot go on.
#[derive(Clone, Copy, Debug, PartialEq, Eq, Structural)]
pub enum TaskFailure {
    /// What the host put into the message buffer is no message.
    MessageDecoding(DecodeError),
    /// The host claims to have put more into a buffer than the buffer holds.
    BufferTooSmall,
    /// The task has failed before.
    FailedBefore,
    /// The task does not wait for this.
    OutOfTurn,
}

/// The contents of what [`TaskState::advance`] and [`LongWork::advance`] return.
pub open spec fn result_view(result: Result<Step, TaskFailure>) -> Result<StepView, TaskFailure> {
    match result {
        Ok(step) => Ok(step@),
        Err(failure) => Err(failure),
    }
}

/// What the main loop of a task waits for.
#[derive(Clone, Copy, Debug)]
pub enum Phase {
    /// For being serviced: for the first time, or after a poll that gave no message.
    Paused,
    /// For the answer to a poll for a message.
    Polling,
    /// For a message to be sent.
    Sending,
    /// For the answer to a call of the given task.
    Calling(TaskId),
    /// For a line to be printed.
    Printing,
    /// For nothing: it has failed.
    Failed,
}

/// Everything that a task knows between two calls of the host.
pub struct TaskState {
    pub service: Service,
    pub messages: Messages,
    pub phase: Phase,
}

/// The contents of a [`TaskState`].
pub struct TaskStateView {
    pub service: Service,
    pub contexts: Seq<RelayChainContext>,
    pub phase: Phase,
}

impl View for TaskState {
    type V = TaskStateView;

    open spec fn view(&self) -> TaskStateView {
        TaskStateView {
            service: self.service,
            contexts: self.messages.relay_chain_contexts@,
            phase: self.phase,
        }
    }
}

/// The state of a task that was never serviced.
pub open spec fn initial_state() -> TaskStateView {
    TaskStateView { service: unserviced(), contexts: Seq::empty(), phase: Phase::Paused }
}

/// `task` in another phase.
pub open spec fn in_phase(task: TaskStateView, phase: Phase) -> TaskStateView {
    TaskStateView { phase, ..task }
}

/// What a task that calls the host, or fails, returns.
pub open spec fn host_call(call: HostCallView) -> Result<StepView, TaskFailure> {
    Ok(StepView::Call(call))
}

/// One round of the main loop starts: contexts need no reaction, so all of them are taken off, and
/// the host is polled for a message.
pub open spec fn round_started(task: TaskStateView) -> (
    Result<StepView, TaskFailure>,
    TaskStateView,
) {
    (
        host_call(HostCallView::NextMessage),
        TaskStateView { contexts: Seq::empty(), phase: Phase::Polling, ..task },
    )
}

/// A task that waits to be serviced is serviced. In its first cycle the main loop starts, with no
/// contexts; in a later one the poll for a message is repeated.
pub open spec fn on_service(task: TaskStateView) -> (Result<StepView, TaskFailure>, TaskStateView) {
    let begun_task = TaskStateView { service: begun(task.service), ..task };
    if !task.service.started {
        round_started(TaskStateView { contexts: Seq::empty(), ..begun_task })
    } else {
        (host_call(HostCallView::NextMessage), in_phase(begun_task, Phase::Polling))
    }
}

/// A message reaches the main loop, which sends a message or calls a task.
pub open spec fn on_message(task: TaskStateView, message: Message) -> (
    Result<StepView, TaskFailure>,
    TaskStateView,
) {
    match reaction_to(IMessage::Extern(message)) {
        Reaction::Nothing => round_started(task),
        Reaction::Send(answer) => (
            host_call(HostCallView::SendMessage(answer.encoding())),
            in_phase(task, Phase::Sending),
        ),
        Reaction::CallTask(task_id, call) => (
            host_call(HostCallView::CallTask { task: task_id, call: call.encoding() }),
            in_phase(task, Phase::Calling(task_id)),
        ),
    }
}

/// The poll for a message is answered. Without a message the cycle ends.
pub open spec fn on_poll(task: TaskStateView, buffer: Seq<u8>, len: u32) -> (
    Result<StepView, TaskFailure>,
    TaskStateView,
) {
    let bytes = buffer.take(len as int);
    if len > buffer.len() {
        (Err(TaskFailure::BufferTooSmall), in_phase(task, Phase::Failed))
    } else if len == 0 {
        (
            Ok(StepView::Pending),
            TaskStateView { service: ended(task.service), phase: Phase::Paused, ..task },
        )
    } else {
        match Message::decode_error(bytes) {
            Some(error) => (
                Err(TaskFailure::MessageDecoding(error)),
                in_phase(task, Phase::Failed),
            ),
            None => on_message(task, decoded::<Message>(bytes)),
        }
    }
}

/// What a task makes of the answer to a call.
pub open spec fn call_outcome(answer: Seq<u8>) -> Result<CallResult, CallError> {
    if Result::<CallResult, CallError>::decode_error(answer) is None {
        decoded::<Result<CallResult, CallError>>(answer)
    } else {
        Err(CallError::ResultDecoding)
    }
}

/// The call of the task `task_id` is answered, and the task prints what came back.
pub open spec fn on_call_result(
    task: TaskStateView,
    task_id: TaskId,
    buffer: Seq<u8>,
    len: u32,
) -> (Result<StepView, TaskFailure>, TaskStateView) {
    if len > buffer.len() {
        (Err(TaskFailure::BufferTooSmall), in_phase(task, Phase::Failed))
    } else {
        let line = report_text(task_id, call_outcome(buffer.take(len as int)));
        (host_call(HostCallView::Print(line)), in_phase(task, Phase::Printing))
    }
}

/// What a task does when it is told `event`, and what it is then.
pub open spec fn advanced(task: TaskStateView, event: EventView) -> (
    Result<StepView, TaskFailure>,
    TaskStateView,
) {
    match (task.phase, event) {
        (Phase::Paused, EventView::Service) => on_service(task),
        (Phase::Failed, EventView::Service) => (Err(TaskFailure::FailedBefore), task),
        (Phase::Polling, EventView::Message { buffer, len }) => on_poll(task, buffer, len),
        (Phase::Sending, EventView::Done) => round_started(task),
        (Phase::Printing, EventView::Done) => round_started(task),
        (Phase::Calling(task_id), EventView::CallResult { buffer, len }) => on_call_result(
            task,
            task_id,
            buffer,
            len,
        ),
        _ => (Err(TaskFailure::OutOfTurn), task),
    }
}

impl TaskState {
    /// A task that was never serviced.
    pub fn new() -> (task: Self)
        ensures
            task@ == initial_state(),
    {
        TaskState { service: Service::new(), messages: Messages::default(), phase: Phase::Paused }
    }

    /// Starts one round of the main loop.
    fn start_round(&mut self) -> (step: Step)
        ensures
            (Ok::<StepView, TaskFailure>(step@), final(self)@) == round_started(old(self)@),
    {
        loop
            invariant
                self.service == old(self).service,
            ensures
                self.service == old(self).service,
                self.messages.relay_chain_contexts@.len() == 0,
            decreases self.messages.relay_chain_contexts@.len(),
        {
            match self.messages.next() {
                NextInput::Ready(message) => {
                    assert(reaction_to(message) is Nothing);
                },
                NextInput::PollHost => {
                    break;
                },
            }
        }
        self.phase = Phase::Polling;
        assert(self@.contexts =~= Seq::empty());
        Step::Call(HostCall::NextMessage)
    }

    /// Has the task be serviced.
    fn be_serviced(&mut self) -> (step: Step)
        ensures
            (Ok::<StepView, TaskFailure>(step@), final(self)@) == on_service(old(self)@),
    {
        match self.service.begin() {
            MainLoop::Start => {
                self.messages = Messages::default();
                self.start_round()
            },
            MainLoop::Resume => {
                self.phase = Phase::Polling;
                Step::Call(HostCall::NextMessage)
            },
        }
    }

    /// Takes a message.
    fn take_message(&mut self, message: Message) -> (step: Step)
        ensures
            (Ok::<StepView, TaskFailure>(step@), final(self)@) == on_message(old(self)@, message),
    {
        match react(IMessage::Extern(message)) {
            Reaction::Nothing => self.start_round(),
            Reaction::Send(answer) => {
                self.phase = Phase::Sending;
                Step::Call(HostCall::SendMessage(send_message(answer)))
            },
            Reaction::CallTask(task_id, call) => {
                self.phase = Phase::Calling(task_id);
                Step::Call(HostCall::CallTask { task: task_id, call: call_task_message(&call) })
            },
        }
    }

    /// Takes the answer to a poll for a message.
    fn take_poll(&mut self, buffer: &[u8], len: u32) -> (result: Result<Step, TaskFailure>)
        ensures
            (result_view(result), final(self)@) == on_poll(old(self)@, buffer@, len),
    {
        if len as usize > buffer.len() {
            self.phase = Phase::Failed;
            return Err(TaskFailure::BufferTooSmall);
        }
        match next_message(buffer, len) {
            Ok(None) => {
                self.service.end();
                self.phase = Phase::Paused;
                Ok(Step::Pending)
            },
            Ok(Some(message)) => {
                proof {
                    assert(starts_with(buffer@.take(len as int), message));
                    law_decoded_is_unique(buffer@.take(len as int), message);
                }
                Ok(self.take_message(message))
            },
            Err(error) => {
                self.phase = Phase::Failed;
                Err(TaskFailure::MessageDecoding(error))
            },
        }
    }

    /// Takes the answer to the call of the task `task_id`.
    fn take_call_result(&mut self, task_id: &TaskId, buffer: &[u8], len: u32) -> (result: Result<
        Step,
        TaskFailure,
    >)
        ensures
            (result_view(result), final(self)@) == on_call_result(
                old(self)@,
                *task_id,
                buffer@,
                len,
            ),
    {
        if len as usize > buffer.len() {
            self.phase = Phase::Failed;
            return Err(TaskFailure::BufferTooSmall);
        }
        let outcome: Result<CallResult, CallError> = call_task(buffer, len);
        proof {
            let answer = buffer@.take(len as int);
            if Result::<CallResult, CallError>::decode_error(answer) is None {
                assert(starts_with(answer, outcome));
                law_decoded_is_unique(answer, outcome);
            }
        }
        self.phase = Phase::Printing;
        Ok(Step::Call(HostCall::Print(report(task_id, &outcome))))
    }

    /// Tells the task `event`, and returns what it does next.
    pub fn advance(&mut self, event: Event) -> (result: Result<Step, TaskFailure>)
        ensures
            (result_view(result), final(self)@) == advanced(old(self)@, event@),
    {
        match (self.phase, event) {
            (Phase::Paused, Event::Service) => Ok(self.be_serviced()),
            (Phase::Failed, Event::Service) => Err(TaskFailure::FailedBefore),
            (Phase::Polling, Event::Message { buffer, len }) => self.take_poll(
                buffer.as_slice(),
                len,
            ),
            (Phase::Sending, Event::Done) => Ok(self.start_round()),
            (Phase::Printing, Event::Done) => Ok(self.start_round()),
            (Phase::Calling(task_id), Event::CallResult { buffer, len }) => self.take_call_result(
                &task_id,
                buffer.as_slice(),
                len,
            ),
            _ => Err(TaskFailure::OutOfTurn),
        }
    }
}

/// The contents of what a task is told, does and knows are those values, with nothing left out.
pub proof fn law_task_contents(
    task: TaskState,
    buffer: Vec<u8>,
    len: u32,
    task_id: TaskId,
    line: String,
    call: HostCall,
    step: Step,
    failure: TaskFailure,
)
    ensures
        task@.service == task.service && task@.phase == task.phase,
        task@.contexts == task.messages.relay_chain_contexts@,
        HostCall::NextMessage@ is NextMessage,
        HostCall::SendMessage(buffer)@ == HostCallView::SendMessage(buffer@),
        (HostCall::CallTask { task: task_id, call: buffer })@ == (HostCallView::CallTask {
            task: task_id,
            call: buffer@,
        }),
        HostCall::Print(line)@ == HostCallView::Print(line@),
        HostCall::ShouldYield@ is ShouldYield,
        Event::Service@ is Service,
        (Event::Message { buffer, len })@ == (EventView::Message { buffer: buffer@, len }),
        (Event::CallResult { buffer, len })@ == (EventView::CallResult { buffer: buffer@, len }),
        Event::Done@ is Done,
        Event::Signal(len)@ == EventView::Signal(len),
        Step::Call(call)@ == StepView::Call(call@),
        Step::Pending@ is Pending,
        result_view(Ok(step)) == Ok::<StepView, TaskFailure>(step@),
        result_view(Err(failure)) == Err::<StepView, TaskFailure>(failure),
{
}

/// A paused task that is serviced polls the host for a message, in a cycle without a yield. The
/// first time it starts without contexts; later it still has those that it had.
pub proof fn law_service_polls(task: TaskStateView)
    requires
        task.phase is Paused,
    ensures
        !initial_state().service.started && !initial_state().service.yielded,
        initial_state().contexts.len() == 0 && initial_state().phase is Paused,
        ({
            let (result, next) = advanced(task, EventView::Service);
            &&& result == Ok::<StepView, TaskFailure>(StepView::Call(HostCallView::NextMessage))
            &&& next.phase is Polling
            &&& next.service == (Service { started: task.service.started, yielded: false })
            &&& task.service.started ==> next.contexts == task.contexts
            &&& !task.service.started ==> next.contexts.len() == 0
        }),
{
}

/// What a task makes of the answer to a poll, byte by byte. Without a message it gives control
/// back. A message that starts with the byte 0 is answered by the byte 1, and the other way round;
/// one that starts with the byte 2 has the task whose ID follows called with the number 10. Where
/// the bytes are no message, or more than the buffer holds, the task fails. What the task knows
/// otherwise stays the same.
pub proof fn law_polled_bytes_decide(task: TaskStateView, buffer: Seq<u8>, len: u32, task_id: TaskId)
    requires
        task.phase is Polling,
    ensures
        ({
            let (result, next) = advanced(task, EventView::Message { buffer, len });
            let failed = TaskStateView { phase: Phase::Failed, ..task };
            if len > buffer.len() {
                &&& result == Err::<StepView, TaskFailure>(TaskFailure::BufferTooSmall)
                &&& next == failed
            } else if len == 0 {
                &&& result == Ok::<StepView, TaskFailure>(StepView::Pending)
                &&& next.phase is Paused
                &&& next.service == (Service { started: true, yielded: task.service.yielded })
                &&& next.contexts == task.contexts
            } else if buffer[0] == 0 || buffer[0] == 1 {
                let answer: u8 = if buffer[0] == 0 {
                    1
                } else {
                    0
                };
                &&& result == Ok::<StepView, TaskFailure>(
                    StepView::Call(HostCallView::SendMessage(seq![answer])),
                )
                &&& next == (TaskStateView { phase: Phase::Sending, ..task })
            } else if buffer[0] == 2 && len >= 33 {
                buffer.subrange(1, 33) == task_id@ ==> {
                    &&& result == Ok::<StepView, TaskFailure>(
                        StepView::Call(
                            HostCallView::CallTask {
                                task: task_id,
                                call: seq![0u8, 10u8, 0u8, 0u8, 0u8],
                            },
                        ),
                    )
                    &&& next == (TaskStateView { phase: Phase::Calling(task_id), ..task })
                }
            } else {
                let error = if buffer[0] == 2 {
                    DecodeError::NotEnoughData
                } else {
                    DecodeError::UnknownVariant
                };
                &&& result == Err::<StepView, TaskFailure>(TaskFailure::MessageDecoding(error))
                &&& next == failed
            }
        }),
{
    let bytes = buffer.take(len as int);
    if 0 < len <= buffer.len() {
        assert(bytes[0] == buffer[0]);
        let rest = bytes.skip(1);
        if buffer[0] == 0 {
            law_message_on_wire(task_id, rest);
            assert(bytes =~= seq![0u8] + rest);
            assert(decodes_to(bytes, Message::Ping, rest));
            law_decoded_is_unique(bytes, Message::Ping);
        } else if buffer[0] == 1 {
            law_message_on_wire(task_id, rest);
            assert(bytes =~= seq![1u8] + rest);
            assert(decodes_to(bytes, Message::Pong, rest));
            law_decoded_is_unique(bytes, Message::Pong);
        } else if buffer[0] == 2 && len >= 33 && buffer.subrange(1, 33) == task_id@ {
            let behind = bytes.skip(33);
            law_message_on_wire(task_id, behind);
            assert(bytes.subrange(1, 33) =~= buffer.subrange(1, 33));
            assert(bytes =~= seq![2u8] + task_id@ + behind);
            assert(decodes_to(bytes, Message::Call(task_id), behind));
            law_decoded_is_unique(bytes, Message::Call(task_id));
            law_call_on_wire(
                10,
                0,
                0,
                0,
                10,
                Seq::empty(),
                seq![0u8, 10u8, 0u8, 0u8, 0u8] + Seq::<u8>::empty(),
            );
        }
    }
}

/// What a task makes of the answer to its call of `task_id`, byte by byte: two bytes 0 and the four
/// bytes of a number are printed as that number, anything else as a failed call, and a length that
/// the buffer does not have makes the task fail. What the task knows otherwise stays the same.
pub proof fn law_answered_bytes_decide(
    task: TaskStateView,
    task_id: TaskId,
    buffer: Seq<u8>,
    len: u32,
)
    requires
        task.phase == Phase::Calling(task_id),
    ensures
        ({
            let (result, next) = advanced(task, EventView::CallResult { buffer, len });
            let number = buffer[2] + 0x100 * buffer[3] + 0x1_0000 * buffer[4] + 0x100_0000
                * buffer[5];
            let id_text = comma_separated(task_id@);
            let line = if len >= 6 && buffer[0] == 0 && buffer[1] == 0 {
                "Task ["@ + id_text + "] returned: DoSomethingR("@ + decimal(number as nat) + ")"@
            } else {
                "Calling task ["@ + id_text + "] returned an error: ResultDecoding"@
            };
            if len > buffer.len() {
                &&& result == Err::<StepView, TaskFailure>(TaskFailure::BufferTooSmall)
                &&& next == (TaskStateView { phase: Phase::Failed, ..task })
            } else {
                &&& result == Ok::<StepView, TaskFailure>(
                    StepView::Call(HostCallView::Print(line)),
                )
                &&& next == (TaskStateView { phase: Phase::Printing, ..task })
            }
        }),
{
    if len <= buffer.len() {
        let answer = buffer.take(len as int);
        if len >= 6 && buffer[0] == 0 && buffer[1] == 0 {
            let number: u32 = (buffer[2] + 0x100 * buffer[3] + 0x1_0000 * buffer[4] + 0x100_0000
                * buffer[5]) as u32;
            let rest = answer.skip(6);
            let number_bytes = seq![0u8, buffer[2], buffer[3], buffer[4], buffer[5]];
            law_call_on_wire(
                buffer[2],
                buffer[3],
                buffer[4],
                buffer[5],
                number,
                rest,
                number_bytes + rest,
            );
            let outcome = Ok::<CallResult, CallError>(CallResult::DoSomethingR(number));
            assert(answer =~= outcome.encoding() + rest);
            outcome.lemma_encoding_decodes(rest);
            assert(decodes_to(answer, outcome, rest));
            law_decoded_is_unique(answer, outcome);
            law_lines_read(task_id, number, 0);
        } else {
            law_lines_read(task_id, 0, 0);
            if Result::<CallResult, CallError>::decode_error(answer) is None {
                assert(answer[0] == buffer[0]);
                assert(answer.skip(1)[0] == buffer[1]);
                let outcome = Err::<CallResult, CallError>(CallError::ResultDecoding);
                let rest = answer.skip(2);
                assert(answer =~= outcome.encoding() + rest);
                assert(decodes_to(answer, outcome, rest));
                law_decoded_is_unique(answer, outcome);
            }
        }
    }
}

/// A task whose message was sent, or whose line was printed, polls for the next message, with no
/// contexts left. A task that is told what it does not wait for does nothing.
pub proof fn law_task_goes_on_in_turn(task: TaskStateView, event: EventView)
    ensures
        ({
            let (result, next) = advanced(task, event);
            match task.phase {
                Phase::Sending | Phase::Printing => if event is Done {
                    &&& result == Ok::<StepView, TaskFailure>(
                        StepView::Call(HostCallView::NextMessage),
                    )
                    &&& next.phase is Polling
                    &&& next.service == task.service
                    &&& next.contexts.len() == 0
                } else {
                    &&& result == Err::<StepView, TaskFailure>(TaskFailure::OutOfTurn)
                    &&& next == task
                },
                Phase::Paused => !(event is Service) ==> {
                    &&& result == Err::<StepView, TaskFailure>(TaskFailure::OutOfTurn)
                    &&& next == task
                },
                Phase::Polling => !(event is Message) ==> {
                    &&& result == Err::<StepView, TaskFailure>(TaskFailure::OutOfTurn)
                    &&& next == task
                },
                Phase::Calling(_) => !(event is CallResult) ==> {
                    &&& result == Err::<StepView, TaskFailure>(TaskFailure::OutOfTurn)
                    &&& next == task
                },
                Phase::Failed => result is Err && next == task,
            }
        }),
{
}

/// A run of a task: each state becomes the next one by [`TaskState::advance`].
pub open spec fn is_task_run(
    states: Seq<TaskStateView>,
    events: Seq<EventView>,
    results: Seq<Result<StepView, TaskFailure>>,
) -> bool {
    is_run(|task: TaskStateView, event: EventView| advanced(task, event), states, events, results)
}

/// A task that is serviced twice from the same state, with the same answers to its calls of the
/// host, makes the same calls with the same arguments in both runs, and is left in the same state.
pub proof fn law_service_is_determined(
    states: Seq<TaskStateView>,
    other_states: Seq<TaskStateView>,
    events: Seq<EventView>,
    results: Seq<Result<StepView, TaskFailure>>,
    other_results: Seq<Result<StepView, TaskFailure>>,
)
    requires
        is_task_run(states, events, results),
        is_task_run(other_states, events, other_results),
        states[0] == other_states[0],
    ensures
        results == other_results,
        states == other_states,
{
    lemma_runs_agree(
        |task: TaskStateView, event: EventView| advanced(task, event),
        states,
        other_states,
        events,
        results,
        other_results,
    );
}

/// The calls of the host that a task makes in a service cycle, and the state in which it leaves
/// it: `task` is told `event`, and then `answers`, one for each call, up to where it gives control
/// back, fails, or has no answer yet.
pub open spec fn cycle(task: TaskStateView, event: EventView, answers: Seq<EventView>) -> (
    Seq<HostCallView>,
    TaskStateView,
)
    decreases answers.len(),
{
    let (result, next) = advanced(task, event);
    match result {
        Ok(StepView::Call(call)) => if answers.len() == 0 {
            (seq![call], next)
        } else {
            let (calls, last) = cycle(next, answers.first(), answers.drop_first());
            (seq![call] + calls, last)
        },
        _ => (Seq::empty(), next),
    }
}

/// The calls of the host among `results`.
pub open spec fn calls_of(results: Seq<Result<StepView, TaskFailure>>) -> Seq<HostCallView>
    decreases results.len(),
{
    if results.len() == 0 {
        Seq::empty()
    } else {
        match results.first() {
            Ok(StepView::Call(call)) => seq![call] + calls_of(results.drop_first()),
            _ => calls_of(results.drop_first()),
        }
    }
}

/// A service cycle is a function of the task's state and of the host's answers: whatever run a
/// task goes through that calls the host at every step but perhaps the last one, the calls that it
/// makes and the state that it ends in are those of [`cycle`].
pub proof fn law_run_follows_cycle(
    states: Seq<TaskStateView>,
    events: Seq<EventView>,
    results: Seq<Result<StepView, TaskFailure>>,
)
    requires
        events.len() > 0,
        is_task_run(states, events, results),
        forall|i: int|
            0 <= i < results.len() - 1 ==> #[trigger] results[i] matches Ok(StepView::Call(_)),
    ensures
        (calls_of(results), states.last()) == cycle(
            states.first(),
            events.first(),
            events.drop_first(),
        ),
    decreases events.len(),
{
    assert((results[0], states[1]) == advanced(states[0], events[0]));
    let later_states = states.drop_first();
    let later_events = events.drop_first();
    let later_results = results.drop_first();
    if events.len() == 1 {
        assert(calls_of(later_results) =~= Seq::empty());
        assert(states.last() == states[1]);
        assert(calls_of(results) =~= cycle(states[0], events[0], later_events).0);
    } else {
        assert(results[0] matches Ok(StepView::Call(_)));
        assert forall|i: int| 0 <= i < later_events.len() implies (
        #[trigger] later_results[i],
        later_states[i + 1],
        ) == advanced(later_states[i], later_events[i]) by {
            assert((results[i + 1], states[i + 2]) == advanced(states[i + 1], events[i + 1]));
        }
        assert forall|i: int| 0 <= i < later_results.len() - 1 implies #[trigger] later_results[i] matches Ok(
            StepView::Call(_),
        ) by {
            assert(results[i + 1] matches Ok(StepView::Call(_)));
        }
        law_run_follows_cycle(later_states, later_events, later_results);
        assert(later_states.first() == states[1]);
        assert(later_events.first() == events[1]);
    }
}

/// A task goes through service cycles: being serviced begins one, giving control back ends it, and
/// whatever the task does in between belongs to it.
pub proof fn law_steps_make_cycles(task: TaskStateView, event: EventView)
    ensures
        ({
            let (result, next) = advanced(task, event);
            &&& event is Service && result is Ok ==> next.service == begun(task.service)
            &&& result == Ok::<StepView, TaskFailure>(StepView::Pending) ==> next.service == ended(
                task.service,
            )
            &&& !(event is Service) && result != Ok::<StepView, TaskFailure>(StepView::Pending)
                ==> next.service == task.service
        }),
{
}

/// A task that gave control back goes on at the point where it stopped: serviced again, it repeats
/// the poll for a message that had none, and nothing that it knows is lost.
pub proof fn law_resumes_where_it_paused(task: TaskStateView, buffer: Seq<u8>)
    requires
        task.phase is Polling,
    ensures
        ({
            let (result, paused) = advanced(task, EventView::Message { buffer, len: 0 });
            let (resumed_result, resumed) = advanced(paused, EventView::Service);
            &&& result == Ok::<StepView, TaskFailure>(StepView::Pending)
            &&& resumed_result == host_call(HostCallView::NextMessage)
            &&& resumed == (TaskStateView {
                service: begun(ended(task.service)),
                ..task
            })
        }),
{
}

/// The first service of a run is the one at `i`.
pub open spec fn first_service(events: Seq<EventView>, i: int) -> bool {
    &&& events[i] is Service
    &&& forall|j: int| 0 <= j < i ==> !(#[trigger] events[j] is Service)
}

/// Whether `event` starts the main loop of `task`.
pub open spec fn starts_main_loop(task: TaskStateView, event: EventView) -> bool {
    task.phase is Paused && event is Service && !task.service.started
}

/// A task that was serviced never again waits for its first service.
proof fn lemma_only_first_service_starts(
    states: Seq<TaskStateView>,
    events: Seq<EventView>,
    results: Seq<Result<StepView, TaskFailure>>,
    i: int,
)
    requires
        is_task_run(states, events, results),
        states[0] == initial_state(),
        0 <= i < states.len(),
    ensures
        if forall|j: int| 0 <= j < i ==> !(#[trigger] events[j] is Service) {
            states[i] == initial_state()
        } else {
            states[i].service.started || !(states[i].phase is Paused)
        },
    decreases i,
{
    if i > 0 {
        lemma_only_first_service_starts(states, events, results, i - 1);
        assert((results[i - 1], states[i]) == advanced(states[i - 1], events[i - 1]));
    }
}

/// However often a task is serviced, its main loop is started once, by the first service: every
/// later one goes on where the cycle before it stopped.
pub proof fn law_main_is_started_once(
    states: Seq<TaskStateView>,
    events: Seq<EventView>,
    results: Seq<Result<StepView, TaskFailure>>,
    i: int,
)
    requires
        is_task_run(states, events, results),
        states[0] == initial_state(),
        0 <= i < events.len(),
    ensures
        starts_main_loop(states[i], events[i]) <==> first_service(events, i),
{
    lemma_only_first_service_starts(states, events, results, i);
}

/// Once a task has given control back it never forgets that its main loop was started: in every
/// later state a service resumes the loop, which keeps what the task knows.
pub proof fn law_started_task_is_resumed(
    states: Seq<TaskStateView>,
    events: Seq<EventView>,
    results: Seq<Result<StepView, TaskFailure>>,
    j: int,
    k: int,
)
    requires
        is_task_run(states, events, results),
        0 <= j < k < states.len(),
        results[j] == Ok::<StepView, TaskFailure>(StepView::Pending),
    ensures
        states[k].service.started,
        k < events.len() ==> !starts_main_loop(states[k], events[k]),
        k < events.len() && states[k].phase is Paused && events[k] is Service ==> (
            results[k] == host_call(HostCallView::NextMessage) && states[k + 1] == (TaskStateView {
                service: begun(states[k].service),
                phase: Phase::Polling,
                ..states[k]
            })),
    decreases k,
{
    assert((results[k - 1], states[k]) == advanced(states[k - 1], events[k - 1]));
    if k - 1 > j {
        law_started_task_is_resumed(states, events, results, j, k - 1);
    }
    if k < events.len() {
        assert((results[k], states[k + 1]) == advanced(states[k], events[k]));
    }
}

/// A message of a service cycle, and what the host answers around it.
pub struct Exchange {
    /// The message.
    pub message: Message,
    /// The buffer that holds the message when the task has polled for it.
    pub poll: Seq<u8>,
    /// The buffer that holds the answer to the call which the message asks for, if it asks for one,
    /// and the length that the host returned.
    pub answer: Seq<u8>,
    pub answer_len: u32,
}

impl Exchange {
    /// The message lies in its buffer, and the answer fits its own.
    pub open spec fn wf(self) -> bool {
        let len = self.message.encoding().len();
        &&& len <= self.poll.len()
        &&& self.poll.take(len as int) == self.message.encoding()
        &&& self.message is Call ==> self.answer_len <= self.answer.len()
    }

    /// What the task is told: the message, and then the answers to the calls that the message
    /// leads to.
    pub open spec fn events(self) -> Seq<EventView> {
        let message = EventView::Message {
            buffer: self.poll,
            len: self.message.encoding().len() as u32,
        };
        match self.message {
            Message::Call(_) => {
                let result = EventView::CallResult { buffer: self.answer, len: self.answer_len };
                seq![message, result, EventView::Done]
            },
            _ => seq![message, EventView::Done],
        }
    }

    /// The calls of the host by which the task reacts: a ping is answered by a pong and a pong by
    /// a ping, and where another task is to be called, it is called, and what it answered is
    /// printed.
    pub open spec fn calls(self) -> Seq<HostCallView> {
        match self.message {
            Message::Ping => seq![HostCallView::SendMessage(Message::Pong.encoding())],
            Message::Pong => seq![HostCallView::SendMessage(Message::Ping.encoding())],
            Message::Call(task) => {
                let outcome = call_outcome(self.answer.take(self.answer_len as int));
                seq![
                    HostCallView::CallTask { task, call: Call::DoSomething(10).encoding() },
                    HostCallView::Print(report_text(task, outcome)),
                ]
            },
        }
    }
}

/// What a task is told in a cycle with `exchanges`: those, and then that there is no message, with
/// `last` in the buffer.
pub open spec fn cycle_events(exchanges: Seq<Exchange>, last: Seq<u8>) -> Seq<EventView>
    decreases exchanges.len(),
{
    if exchanges.len() == 0 {
        seq![EventView::Message { buffer: last, len: 0 }]
    } else {
        exchanges.first().events() + cycle_events(exchanges.drop_first(), last)
    }
}

/// The calls of the host in a cycle with `exchanges`: for each of them a poll and the reaction to
/// its message, and then the poll that gives no message.
pub open spec fn cycle_calls(exchanges: Seq<Exchange>) -> Seq<HostCallView>
    decreases exchanges.len(),
{
    if exchanges.len() == 0 {
        seq![HostCallView::NextMessage]
    } else {
        seq![HostCallView::NextMessage] + exchanges.first().calls() + cycle_calls(
            exchanges.drop_first(),
        )
    }
}

/// A task that has polled for a message in a cycle takes all of `exchanges`, and then gives control
/// back.
proof fn lemma_polling_task_takes_all(task: TaskStateView, exchanges: Seq<Exchange>, last: Seq<u8>)
    requires
        task.phase is Polling,
        forall|i: int| 0 <= i < exchanges.len() ==> (#[trigger] exchanges[i]).wf(),
    ensures
        ({
            let events = cycle_events(exchanges, last);
            let (calls, end) = cycle(task, events.first(), events.drop_first());
            &&& events.len() > 0
            &&& seq![HostCallView::NextMessage] + calls == cycle_calls(exchanges)
            &&& end == (TaskStateView {
                service: ended(task.service),
                contexts: if exchanges.len() == 0 {
                    task.contexts
                } else {
                    Seq::empty()
                },
                phase: Phase::Paused,
            })
        }),
    decreases exchanges.len(),
{
    let events = cycle_events(exchanges, last);
    if exchanges.len() > 0 {
        let exchange = exchanges.first();
        let message = exchange.message;
        let rest = cycle_events(exchanges.drop_first(), last);
        assert(exchanges[0].wf());
        law_message_length(message);
        let bytes = message.encoding();
        assert(bytes + Seq::<u8>::empty() =~= bytes);
        message.lemma_encoding_decodes(Seq::empty());
        assert(decodes_to(bytes, message, Seq::<u8>::empty()));
        law_decoded_is_unique(bytes, message);
        let polled = TaskStateView { contexts: Seq::empty(), ..task };
        lemma_polling_task_takes_all(polled, exchanges.drop_first(), last);
        let (calls, end) = cycle(polled, rest.first(), rest.drop_first());
        let after_message = events.drop_first();
        let after_reply = after_message.drop_first();
        match message {
            Message::Call(task_id) => {
                assert(after_reply.drop_first() =~= rest);
                let calling = in_phase(task, Phase::Calling(task_id));
                let printing = in_phase(task, Phase::Printing);
                assert(cycle(printing, EventView::Done, rest).0 == seq![HostCallView::NextMessage]
                    + calls);
                assert(cycle(calling, after_message.first(), after_reply).0 == seq![
                    exchange.calls()[1],
                ] + (seq![HostCallView::NextMessage] + calls));
                assert(cycle(task, events.first(), after_message).1 == end);
                assert(cycle(task, events.first(), after_message).0 == seq![exchange.calls()[0]] + (
                seq![exchange.calls()[1]] + (seq![HostCallView::NextMessage] + calls)));
            },
            _ => {
                assert(after_reply =~= rest);
                let sending = in_phase(task, Phase::Sending);
                assert(cycle(sending, EventView::Done, rest).0 == seq![HostCallView::NextMessage]
                    + calls);
                assert(cycle(task, events.first(), after_message).1 == end);
                assert(cycle(task, events.first(), after_message).0 == seq![exchange.calls()[0]] + (
                seq![HostCallView::NextMessage] + calls));
            },
        }
        assert(seq![HostCallView::NextMessage] + cycle(task, events.first(), after_message).0
            =~= cycle_calls(exchanges));
    } else {
        assert(cycle(task, events.first(), events.drop_first()).0 =~= Seq::empty());
        assert(seq![HostCallView::NextMessage] + Seq::<HostCallView>::empty() =~= cycle_calls(
            exchanges,
        ));
    }
}

/// A service cycle takes every message there is: the task polls for each of them and reacts to it,
/// in turn, and gives control back at the first poll that gives none. It is then paused.
pub proof fn law_cycle_takes_every_message(
    task: TaskStateView,
    exchanges: Seq<Exchange>,
    last: Seq<u8>,
)
    requires
        task.phase is Paused,
        forall|i: int| 0 <= i < exchanges.len() ==> (#[trigger] exchanges[i]).wf(),
    ensures
        ({
            let (calls, end) = cycle(task, EventView::Service, cycle_events(exchanges, last));
            &&& calls == cycle_calls(exchanges)
            &&& end == (TaskStateView {
                service: ended(begun(task.service)),
                contexts: if exchanges.len() == 0 && task.service.started {
                    task.contexts
                } else {
                    Seq::empty()
                },
                phase: Phase::Paused,
            })
        }),
{
    let (_, polling) = on_service(task);
    lemma_polling_task_takes_all(polling, exchanges, last);
}

/// A task that fails stays failed, whatever it is told and in whatever cycle it failed: it calls
/// the host no more, and a service of it is refused because of the failure.
pub proof fn law_failed_task(task: TaskStateView, event: EventView)
    requires
        task.phase is Failed,
    ensures
        advanced(task, event) == (
            Err::<StepView, TaskFailure>(
                if event is Service {
                    TaskFailure::FailedBefore
                } else {
                    TaskFailure::OutOfTurn
                },
            ),
            task,
        ),
{
}

/// What a long computation waits for.
#[derive(Clone, Copy, Debug, PartialEq, Eq, Structural)]
pub enum WorkPhase {
    /// For being polled for the first time.
    Created,
    /// For its first line to be printed.
    Starting,
    /// For the signal of the host.
    Asking,
    /// For being polled after it has given control back.
    Yielded,
    /// For a report of its progress to be printed.
    Reporting,
}

/// A computation that never ends. It asks the host at every step whether to give control back, and
/// reports its progress now and then.
#[derive(Clone, Copy, Debug, PartialEq, Eq, Structural)]
pub struct LongWork {
    pub phase: WorkPhase,
    pub counter: u64,
}

/// The next step of work is done: its progress is reported, or the host is asked whether to go on.
pub open spec fn worked(work: LongWork) -> (Result<StepView, TaskFailure>, LongWork) {
    let counter = (work.counter + 1) as u64;
    if counter % REPORT_INTERVAL == 0 {
        (
            host_call(HostCallView::Print(counter_text(counter))),
            LongWork { phase: WorkPhase::Reporting, counter },
        )
    } else {
        (host_call(HostCallView::ShouldYield), LongWork { phase: WorkPhase::Asking, counter })
    }
}

/// The computation asks the host whether to give control back.
pub open spec fn asked(work: LongWork) -> (Result<StepView, TaskFailure>, LongWork) {
    (host_call(HostCallView::ShouldYield), LongWork { phase: WorkPhase::Asking, ..work })
}

/// What a long computation does when it is told `event`, and what it is then.
pub open spec fn work_advanced(work: LongWork, event: EventView) -> (
    Result<StepView, TaskFailure>,
    LongWork,
) {
    match (work.phase, event) {
        (WorkPhase::Created, EventView::Service) => (
            host_call(HostCallView::Print("Init `never_return`"@)),
            LongWork { phase: WorkPhase::Starting, ..work },
        ),
        (WorkPhase::Starting, EventView::Done) => asked(work),
        (WorkPhase::Reporting, EventView::Done) => asked(work),
        (WorkPhase::Asking, EventView::Signal(signal)) => if signal == 1 {
            (Ok(StepView::Pending), LongWork { phase: WorkPhase::Yielded, ..work })
        } else {
            worked(work)
        },
        (WorkPhase::Yielded, EventView::Service) => worked(work),
        _ => (Err(TaskFailure::OutOfTurn), work),
    }
}

/// `service` after a long computation in the phase `phase` was told `event`.
pub open spec fn service_signalled(service: Service, phase: WorkPhase, event: EventView) -> Service {
    match (phase, event) {
        (WorkPhase::Asking, EventView::Signal(signal)) => signalled(service, signal),
        _ => service,
    }
}

impl LongWork {
    /// A computation that has done nothing yet.
    pub fn never_return() -> (work: Self)
        ensures
            work == (LongWork { phase: WorkPhase::Created, counter: 0 }),
    {
        LongWork { phase: WorkPhase::Created, counter: 0 }
    }

    /// Does the next step of work.
    fn do_work(&mut self) -> (step: Step)
        requires
            old(self).counter < u64::MAX,
        ensures
            (Ok::<StepView, TaskFailure>(step@), *final(self)) == worked(*old(self)),
    {
        match work(&mut self.counter) {
            Some(count) => {
                self.phase = WorkPhase::Reporting;
                Step::Call(HostCall::Print(counter_line(count)))
            },
            None => {
                self.phase = WorkPhase::Asking;
                Step::Call(HostCall::ShouldYield)
            },
        }
    }

    /// Tells the computation `event` in the current cycle of `service`, and returns what it does
    /// next.
    pub fn advance(&mut self, service: &mut Service, event: Event) -> (result: Result<
        Step,
        TaskFailure,
    >)
        requires
            old(self).counter < u64::MAX,
        ensures
            (result_view(result), *final(self)) == work_advanced(*old(self), event@),
            *final(service) == service_signalled(*old(service), old(self).phase, event@),
    {
        match (self.phase, event) {
            (WorkPhase::Created, Event::Service) => {
                self.phase = WorkPhase::Starting;
                Ok(Step::Call(HostCall::Print("Init `never_return`".to_owned())))
            },
            (WorkPhase::Starting, Event::Done) => {
                self.phase = WorkPhase::Asking;
                Ok(Step::Call(HostCall::ShouldYield))
            },
            (WorkPhase::Reporting, Event::Done) => {
                self.phase = WorkPhase::Asking;
                Ok(Step::Call(HostCall::ShouldYield))
            },
            (WorkPhase::Asking, Event::Signal(signal)) => if service.maybe_yield(signal) {
                self.phase = WorkPhase::Yielded;
                Ok(Step::Pending)
            } else {
                Ok(self.do_work())
            },
            (WorkPhase::Yielded, Event::Service) => Ok(self.do_work()),
            _ => Err(TaskFailure::OutOfTurn),
        }
    }
}

/// A run of a long computation: each state becomes the next one by [`LongWork::advance`].
pub open spec fn is_work_run(
    states: Seq<LongWork>,
    events: Seq<EventView>,
    results: Seq<Result<StepView, TaskFailure>>,
) -> bool {
    is_run(|work: LongWork, event: EventView| work_advanced(work, event), states, events, results)
}

/// A long computation that is run twice from the same state, with the same answers to its calls of
/// the host, makes the same calls in both runs, and is left in the same state.
pub proof fn law_work_is_determined(
    states: Seq<LongWork>,
    other_states: Seq<LongWork>,
    events: Seq<EventView>,
    results: Seq<Result<StepView, TaskFailure>>,
    other_results: Seq<Result<StepView, TaskFailure>>,
)
    requires
        is_work_run(states, events, results),
        is_work_run(other_states, events, other_results),
        states[0] == other_states[0],
    ensures
        results == other_results,
        states == other_states,
{
    lemma_runs_agree(
        |work: LongWork, event: EventView| work_advanced(work, event),
        states,
        other_states,
        events,
        results,
        other_results,
    );
}

/// A long computation waits for its first poll exactly as long as there was none.
proof fn lemma_created_until_serviced(
    states: Seq<LongWork>,
    events: Seq<EventView>,
    results: Seq<Result<StepView, TaskFailure>>,
    i: int,
)
    requires
        is_work_run(states, events, results),
        states[0].phase is Created,
        0 <= i < states.len(),
    ensures
        states[i].phase is Created <==> forall|j: int|
            0 <= j < i ==> !(#[trigger] events[j] is Service),
    decreases i,
{
    if i > 0 {
        lemma_created_until_serviced(states, events, results, i - 1);
        assert((results[i - 1], states[i]) == work_advanced(states[i - 1], events[i - 1]));
    }
}

/// The first line of a long computation is printed when it is polled for the first time, and at no
/// other time.
pub proof fn law_first_line_is_printed_once(
    states: Seq<LongWork>,
    events: Seq<EventView>,
    results: Seq<Result<StepView, TaskFailure>>,
    i: int,
)
    requires
        is_work_run(states, events, results),
        states[0].phase is Created,
        0 <= i < events.len(),
    ensures
        results[i] == host_call(HostCallView::Print("Init `never_return`"@)) <==> first_service(
            events,
            i,
        ),
{
    lemma_created_until_serviced(states, events, results, i);
    assert((results[i], states[i + 1]) == work_advanced(states[i], events[i]));
    reveal_strlit("Init `never_return`");
    reveal_strlit("Counter ");
    let counter = (states[i].counter + 1) as u64;
    assert("Init `never_return`"@[0] == 'I');
    assert(counter_text(counter)[0] == 'C');
}

/// A long computation gives control back exactly when it has asked the host, and the host answers
/// that it is to.
pub proof fn law_work_yields_on_signal(
    states: Seq<LongWork>,
    events: Seq<EventView>,
    results: Seq<Result<StepView, TaskFailure>>,
    i: int,
)
    requires
        is_work_run(states, events, results),
        0 <= i < events.len(),
    ensures
        results[i] == Ok::<StepView, TaskFailure>(StepView::Pending) <==> states[i].phase is Asking
            && events[i] == EventView::Signal(1),
{
    assert((results[i], states[i + 1]) == work_advanced(states[i], events[i]));
}

/// The counter of a long computation is kept across a yield: it is what it was when control was
/// given back until the computation is polled again, which then counts on from there.
pub proof fn law_counter_survives_yield(
    states: Seq<LongWork>,
    events: Seq<EventView>,
    results: Seq<Result<StepView, TaskFailure>>,
    i: int,
    j: int,
)
    requires
        is_work_run(states, events, results),
        0 <= i < j < states.len(),
        results[i] == Ok::<StepView, TaskFailure>(StepView::Pending),
        forall|k: int| i < k < j ==> !(#[trigger] events[k] is Service),
    ensures
        states[j] == (LongWork { phase: WorkPhase::Yielded, counter: states[i].counter }),
        j < events.len() && events[j] is Service && states[i].counter < u64::MAX ==> states[j
            + 1].counter == states[i].counter + 1,
    decreases j,
{
    assert((results[j - 1], states[j]) == work_advanced(states[j - 1], events[j - 1]));
    if j - 1 > i {
        law_counter_survives_yield(states, events, results, i, j - 1);
    }
    if j < events.len() {
        assert((results[j], states[j + 1]) == work_advanced(states[j], events[j]));
    }
}

/// What a long computation does in each phase: when it is polled for the first time it prints its
/// first line; when a line has been printed it asks the host; when the host answers with the
/// signal 1 it gives control back; and when the host answers anything else, or when it is polled
/// after it gave control back, it works. None of these but work touches the counter. What it does
/// not wait for changes nothing.
pub proof fn law_work_goes_on_in_turn(work: LongWork, event: EventView)
    ensures
        ({
            let (result, next) = work_advanced(work, event);
            if work.phase is Created && event is Service {
                &&& result == Ok::<StepView, TaskFailure>(
                    StepView::Call(HostCallView::Print("Init `never_return`"@)),
                )
                &&& next == (LongWork { phase: WorkPhase::Starting, counter: work.counter })
            } else if (work.phase is Starting || work.phase is Reporting) && event is Done {
                &&& result == Ok::<StepView, TaskFailure>(StepView::Call(HostCallView::ShouldYield))
                &&& next == (LongWork { phase: WorkPhase::Asking, counter: work.counter })
            } else if work.phase is Asking && event == EventView::Signal(1) {
                &&& result == Ok::<StepView, TaskFailure>(StepView::Pending)
                &&& next == (LongWork { phase: WorkPhase::Yielded, counter: work.counter })
            } else if works(work, event) {
                work.counter < u64::MAX ==> next.counter == work.counter + 1
            } else {
                &&& result == Err::<StepView, TaskFailure>(TaskFailure::OutOfTurn)
                &&& next == work
            }
        }),
{
}

/// A step of work adds 1 to the counter. Where that makes it a multiple of 100,000,000, the counter
/// is printed; otherwise the host is asked whether to go on.
pub proof fn law_work_reports_multiples(work: LongWork, event: EventView, counter: u64)
    requires
        works(work, event),
        counter == work.counter + 1,
    ensures
        ({
            let (result, next) = work_advanced(work, event);
            &&& next.counter == counter
            &&& counter % 100_000_000 == 0 ==> result == Ok::<StepView, TaskFailure>(
                StepView::Call(HostCallView::Print("Counter "@ + decimal(counter as nat))),
            ) && next.phase is Reporting
            &&& counter % 100_000_000 != 0 ==> result == Ok::<StepView, TaskFailure>(
                StepView::Call(HostCallView::ShouldYield),
            ) && next.phase is Asking
        }),
{
}

/// Only the answer of the host to a long computation says anything about its service cycle: the
/// signal 1 is a yield, and nothing else is.
pub proof fn law_work_signals_service(service: Service, phase: WorkPhase, event: EventView)
    ensures
        ({
            let next = service_signalled(service, phase, event);
            &&& next.started == service.started
            &&& phase is Asking && event == EventView::Signal(1) ==> next.yielded
            &&& !(phase is Asking && event == EventView::Signal(1)) ==> next.yielded
                == service.yielded
        }),
{
}

/// A long computation that is told `event` does a step of work.
pub open spec fn works(work: LongWork, event: EventView) -> bool {
    ||| work.phase is Asking && event is Signal && event->Signal_0 != 1
    ||| work.phase is Yielded && event is Service
}

/// How many steps of work there are among the first `n` steps of a run.
pub open spec fn steps_of_work(states: Seq<LongWork>, events: Seq<EventView>, n: nat) -> nat
    decreases n,
{
    if n == 0 {
        0
    } else {
        let before = (n - 1) as nat;
        steps_of_work(states, events, before) + if works(states[n - 1], events[n - 1]) {
            1nat
        } else {
            0nat
        }
    }
}

/// Whether a long computation reports its progress: it prints a line that is not its first one.
pub open spec fn reports(result: Result<StepView, TaskFailure>) -> bool {
    result matches Ok(StepView::Call(HostCallView::Print(line))) && line != "Init `never_return`"@
}

/// How many reports there are among the first `n` results of a run.
pub open spec fn reports_among(results: Seq<Result<StepView, TaskFailure>>, n: nat) -> nat
    decreases n,
{
    if n == 0 {
        0
    } else {
        reports_among(results, (n - 1) as nat) + if reports(results[n - 1]) {
            1nat
        } else {
            0nat
        }
    }
}

/// The counter of a long computation counts its steps of work, from the first one on: it never
/// decreases, whatever else happens, and is never set back.
pub proof fn law_counter_counts_work(
    states: Seq<LongWork>,
    events: Seq<EventView>,
    results: Seq<Result<StepView, TaskFailure>>,
    n: nat,
)
    requires
        is_work_run(states, events, results),
        n <= events.len(),
        states[0].counter + steps_of_work(states, events, n) <= u64::MAX,
    ensures
        states[n as int].counter == states[0].counter + steps_of_work(states, events, n),
        n > 0 ==> states[n - 1].counter <= states[n as int].counter <= states[n - 1].counter + 1,
    decreases n,
{
    if n > 0 {
        law_counter_counts_work(states, events, results, (n - 1) as nat);
        assert((results[n - 1], states[n as int]) == work_advanced(states[n - 1], events[n - 1]));
    }
}

/// A long computation that starts at the counter 0 reports once for every 100,000,000 steps of
/// work, and its `k`-th report is the line with the number `k` times 100,000,000.
pub proof fn law_reports_are_multiples(
    states: Seq<LongWork>,
    events: Seq<EventView>,
    results: Seq<Result<StepView, TaskFailure>>,
    n: nat,
)
    requires
        is_work_run(states, events, results),
        states[0] == (LongWork { phase: WorkPhase::Created, counter: 0 }),
        n <= events.len(),
        steps_of_work(states, events, n) <= u64::MAX,
    ensures
        reports_among(results, n) == steps_of_work(states, events, n) / 100_000_000,
        n > 0 && reports(results[n - 1]) ==> results[n - 1] == Ok::<StepView, TaskFailure>(
            StepView::Call(
                HostCallView::Print(
                    "Counter "@ + decimal(100_000_000 * reports_among(results, n)),
                ),
            ),
        ),
    decreases n,
{
    if n > 0 {
        let work = states[n - 1];
        let event = events[n - 1];
        law_reports_are_multiples(states, events, results, (n - 1) as nat);
        law_counter_counts_work(states, events, results, (n - 1) as nat);
        law_counter_counts_work(states, events, results, n);
        assert((results[n - 1], states[n as int]) == work_advanced(work, event));
        if works(work, event) {
            let counter = (work.counter + 1) as u64;
            law_work_reports_multiples(work, event, counter);
            reveal_strlit("Init `never_return`");
            reveal_strlit("Counter ");
            assert("Init `never_return`"@[0] == 'I');
            assert(counter_text(counter)[0] == 'C');
        }
    }
}

} // verus!
