//! Having a task answer the call of another one.
//!
//! The called task allocates memory for the encoded call, is called on it, and returns where its
//! answer lies. What the host does next is decided by [`Serving`], which is told what the called
//! task did, and says what to have it do.
use vstd::prelude::*;

use crate::executor::{same_task_id, unpack_ptr_and_len, Task};
use crate::host::TaskRequest;
use crate::memory::{
    fits, in_bounds, law_memory_has_parts, law_unpack_inverts_pack, law_word_has_halves,
    packed_word, read_memory, window, word_len, word_ptr, write_memory, written,
};
use crate::run::is_run;

verus! {

/// A call whose bytes lie in the memory of the called task, where the task is to be called on
/// them.
#[derive(Clone, Copy, Debug, PartialEq, Eq, Structural)]
pub struct PlacedCall {
    pub ptr: u32,
    pub len: u32,
}

/// A call that has returned. The memory of the encoded call is to be freed, and the answer to be
/// read.
#[derive(Clone, Copy, Debug, PartialEq, Eq, Structural)]
pub struct ReturnedCall {
    /// Where the encoded call lies.
    pub call_ptr: u32,
    pub call_len: u32,
    /// Where the answer lies.
    pub answer_ptr: u32,
    pub answer_len: u32,
}

/// A call whose bytes `call` lie at `ptr`.
pub open spec fn placed_at(call: Seq<u8>, ptr: u32) -> PlacedCall {
    PlacedCall { ptr, len: call.len() as u32 }
}

/// `placed` once the called task has returned `packed`.
pub open spec fn returned_with(placed: PlacedCall, packed: u64) -> ReturnedCall {
    ReturnedCall {
        call_ptr: placed.ptr,
        call_len: placed.len,
        answer_ptr: word_ptr(packed),
        answer_len: word_len(packed),
    }
}

/// What is freed after a call is what was allocated for it: the memory that the called task
/// allocated for the encoded call, and the memory in which it says that its answer lies.
pub proof fn law_freed_is_allocated(call: Seq<u8>, ptr: u32, answer_ptr: u32, answer_len: u32)
    requires
        call.len() <= u32::MAX,
    ensures
        ({
            let packed = packed_word(answer_ptr, answer_len) as u64;
            let returned = returned_with(placed_at(call, ptr), packed);
            &&& returned.call_ptr == ptr
            &&& returned.call_len == call.len()
            &&& returned.answer_ptr == answer_ptr
            &&& returned.answer_len == answer_len
        }),
{
    law_unpack_inverts_pack(answer_ptr, answer_len);
}

/// How far the host is with a call, by what it waits for.
#[derive(Debug)]
pub enum Serving {
    /// For memory for the encoded call.
    Allocating(Vec<u8>),
    /// For the called task to return.
    Calling(PlacedCall),
    /// For the memory of the encoded call to be freed.
    FreeingCall(ReturnedCall),
    /// For the memory of the answer to be freed, which has been read.
    FreeingAnswer(Vec<u8>),
    /// For nothing: the answer has been handed out.
    Answered,
    /// For nothing: the call cannot be answered.
    Failed,
}

/// The contents of a [`Serving`].
pub enum ServingView {
    Allocating(Seq<u8>),
    Calling(PlacedCall),
    FreeingCall(ReturnedCall),
    FreeingAnswer(Seq<u8>),
    Answered,
    Failed,
}

impl View for Serving {
    type V = ServingView;

    open spec fn view(&self) -> ServingView {
        match self {
            Serving::Allocating(call) => ServingView::Allocating(call@),
            Serving::Calling(placed) => ServingView::Calling(*placed),
            Serving::FreeingCall(returned) => ServingView::FreeingCall(*returned),
            Serving::FreeingAnswer(answer) => ServingView::FreeingAnswer(answer@),
            Serving::Answered => ServingView::Answered,
            Serving::Failed => ServingView::Failed,
        }
    }
}

/// What the called task did.
#[derive(Clone, Copy, Debug, PartialEq, Eq, Structural)]
pub enum ServeEvent {
    /// It allocated memory at this pointer.
    Allocated(u32),
    /// It returned this word from the call.
    Returned(u64),
    /// It freed what it was told to free.
    Freed,
}

/// What is to be done next.
#[derive(Debug)]
pub enum ServeAction {
    /// Have the called task allocate memory.
    Allocate { len: u32 },
    /// Call the task on what lies in its memory.
    Call { ptr: u32, len: u32 },
    /// Have the called task free memory.
    Free { ptr: u32, len: u32 },
    /// Pass the answer on to the calling task.
    Answer(Vec<u8>),
}

/// The contents of a [`ServeAction`].
pub enum ServeActionView {
    Allocate { len: u32 },
    Call { ptr: u32, len: u32 },
    Free { ptr: u32, len: u32 },
    Answer(Seq<u8>),
}

impl View for ServeAction {
    type V = ServeActionView;

    open spec fn view(&self) -> ServeActionView {
        match self {
            ServeAction::Allocate { len } => ServeActionView::Allocate { len: *len },
            ServeAction::Call { ptr, len } => ServeActionView::Call { ptr: *ptr, len: *len },
            ServeAction::Free { ptr, len } => ServeActionView::Free { ptr: *ptr, len: *len },
            ServeAction::Answer(answer) => ServeActionView::Answer(answer@),
        }
    }
}

/// Why a call cannot be answered.
#[derive(Clone, Copy, Debug, PartialEq, Eq, Structural)]
pub enum ServeFailure {
    /// The called task names bytes outside of its memory.
    OutOfBounds,
    /// The host does not wait for this.
    OutOfTurn,
}

/// The contents of an action, or why there is none.
pub type ServeResult = Result<ServeActionView, ServeFailure>;

/// The contents of what [`Serving::advance`] returns.
pub open spec fn serve_result(result: Result<ServeAction, ServeFailure>) -> ServeResult {
    match result {
        Ok(action) => Ok(action@),
        Err(failure) => Err(failure),
    }
}

/// The called task has allocated memory at `ptr`: the encoded call is written there, and the task
/// is called on it.
pub open spec fn on_allocated(call: Seq<u8>, ptr: u32, memory: Seq<u8>) -> (
    (ServeResult, Seq<u8>),
    ServingView,
) {
    if in_bounds(memory, ptr, call.len()) {
        let placed = placed_at(call, ptr);
        (
            (
                Ok(ServeActionView::Call { ptr: placed.ptr, len: placed.len }),
                written(memory, ptr, call),
            ),
            ServingView::Calling(placed),
        )
    } else {
        ((Err(ServeFailure::OutOfBounds), memory), ServingView::Failed)
    }
}

/// The called task has returned `packed`: the memory of the encoded call is freed.
pub open spec fn on_returned(placed: PlacedCall, packed: u64, memory: Seq<u8>) -> (
    (ServeResult, Seq<u8>),
    ServingView,
) {
    let returned = returned_with(placed, packed);
    (
        (Ok(ServeActionView::Free { ptr: returned.call_ptr, len: returned.call_len }), memory),
        ServingView::FreeingCall(returned),
    )
}

/// The memory of the encoded call has been freed: the answer is read, and its memory is freed.
pub open spec fn on_call_freed(returned: ReturnedCall, memory: Seq<u8>) -> (
    (ServeResult, Seq<u8>),
    ServingView,
) {
    let ptr = returned.answer_ptr;
    let len = returned.answer_len;
    if in_bounds(memory, ptr, len as nat) {
        (
            (Ok(ServeActionView::Free { ptr, len }), memory),
            ServingView::FreeingAnswer(window(memory, ptr, len as nat)),
        )
    } else {
        ((Err(ServeFailure::OutOfBounds), memory), ServingView::Failed)
    }
}

/// What the host does when it is told `event` while `memory` is the memory of the called task, what
/// that memory is then, and how far the host is then. A call that cannot be answered stays
/// unanswered.
pub open spec fn served(serving: ServingView, event: ServeEvent, memory: Seq<u8>) -> (
    (ServeResult, Seq<u8>),
    ServingView,
) {
    match (serving, event) {
        (ServingView::Allocating(call), ServeEvent::Allocated(ptr)) => on_allocated(
            call,
            ptr,
            memory,
        ),
        (ServingView::Calling(placed), ServeEvent::Returned(packed)) => on_returned(
            placed,
            packed,
            memory,
        ),
        (ServingView::FreeingCall(returned), ServeEvent::Freed) => on_call_freed(returned, memory),
        (ServingView::FreeingAnswer(answer), ServeEvent::Freed) => (
            (Ok(ServeActionView::Answer(answer)), memory),
            ServingView::Answered,
        ),
        _ => ((Err(ServeFailure::OutOfTurn), memory), ServingView::Failed),
    }
}

/// Has `task` take on a request, if it is the one that the request is for. The first thing to do is
/// to allocate memory for the encoded call.
pub fn accept_request(request: TaskRequest, task: &Task) -> (accepted: Option<
    (ServeAction, Serving),
>)
    requires
        request->call@.len() <= u32::MAX,
    ensures
        ({
            let TaskRequest::Call { target, call } = request;
            match accepted {
                Some((action, serving)) => {
                    &&& target == task.task_id
                    &&& action@ == (ServeActionView::Allocate { len: call@.len() as u32 })
                    &&& serving@ == ServingView::Allocating(call@)
                    &&& serving.wf()
                },
                None => target != task.task_id,
            }
        }),
{
    match request {
        TaskRequest::Call { target, call } => if same_task_id(&target, &task.task_id) {
            let len: u32 = call.len() as u32;
            Some((ServeAction::Allocate { len }, Serving::Allocating(call)))
        } else {
            None
        },
    }
}

impl Serving {
    /// The size of a call is a size in the memory of a task.
    pub open spec fn wf(&self) -> bool {
        match self {
            Serving::Allocating(call) => call@.len() <= u32::MAX,
            _ => true,
        }
    }

    /// Tells the host `event`, while `memory` is the memory of the called task, and returns what is
    /// to be done next.
    pub fn advance(self, event: ServeEvent, memory: &mut [u8]) -> (next: (
        Result<ServeAction, ServeFailure>,
        Serving,
    ))
        requires
            self.wf(),
        ensures
            ((serve_result(next.0), final(memory)@), next.1@) == served(
                self@,
                event,
                old(memory)@,
            ),
            next.1.wf(),
    {
        match (self, event) {
            (Serving::Allocating(call), ServeEvent::Allocated(ptr)) => {
                if !fits(memory, ptr, call.len()) {
                    return (Err(ServeFailure::OutOfBounds), Serving::Failed);
                }
                write_memory(memory, ptr, call.as_slice());
                let placed = PlacedCall { ptr, len: call.len() as u32 };
                let action = ServeAction::Call { ptr: placed.ptr, len: placed.len };
                (Ok(action), Serving::Calling(placed))
            },
            (Serving::Calling(placed), ServeEvent::Returned(packed)) => {
                let (answer_ptr, answer_len) = unpack_ptr_and_len(packed);
                let returned = ReturnedCall {
                    call_ptr: placed.ptr,
                    call_len: placed.len,
                    answer_ptr,
                    answer_len,
                };
                let action = ServeAction::Free { ptr: returned.call_ptr, len: returned.call_len };
                (Ok(action), Serving::FreeingCall(returned))
            },
            (Serving::FreeingCall(returned), ServeEvent::Freed) => {
                let ptr: u32 = returned.answer_ptr;
                let len: u32 = returned.answer_len;
                if !fits(memory, ptr, len as usize) {
                    return (Err(ServeFailure::OutOfBounds), Serving::Failed);
                }
                let answer = read_memory(memory, ptr, len);
                (Ok(ServeAction::Free { ptr, len }), Serving::FreeingAnswer(answer))
            },
            (Serving::FreeingAnswer(answer), ServeEvent::Freed) => (
                Ok(ServeAction::Answer(answer)),
                Serving::Answered,
            ),
            _ => (Err(ServeFailure::OutOfTurn), Serving::Failed),
        }
    }
}

/// A run in which a call is served: each state becomes the next one by [`Serving::advance`]. An
/// input is what the host is told, with the memory of the called task by then; a result is what is
/// to be done, with the memory that the host leaves behind.
pub open spec fn is_serving_run(
    states: Seq<ServingView>,
    inputs: Seq<(ServeEvent, Seq<u8>)>,
    results: Seq<(ServeResult, Seq<u8>)>,
) -> bool {
    is_run(
        |serving: ServingView, input: (ServeEvent, Seq<u8>)| served(serving, input.0, input.1),
        states,
        inputs,
        results,
    )
}

/// Whether memory is to be freed.
pub open spec fn frees(result: (ServeResult, Seq<u8>)) -> bool {
    result.0 is Ok && result.0->Ok_0 is Free
}

/// Whether an answer is to be passed on.
pub open spec fn answers(result: (ServeResult, Seq<u8>)) -> bool {
    result.0 is Ok && result.0->Ok_0 is Answer
}

/// Once a call has been answered, or cannot be, there is nothing more to do.
proof fn lemma_served_stays_served(
    states: Seq<ServingView>,
    inputs: Seq<(ServeEvent, Seq<u8>)>,
    results: Seq<(ServeResult, Seq<u8>)>,
    i: int,
    j: int,
)
    requires
        is_serving_run(states, inputs, results),
        0 <= i <= j < inputs.len(),
        states[i] is Answered || states[i] is Failed,
    ensures
        states[j] is Answered || states[j] is Failed,
        results[j].0 is Err,
    decreases j,
{
    if j > i {
        lemma_served_stays_served(states, inputs, results, i, j - 1);
        assert((results[j - 1], states[j]) == served(
            states[j - 1],
            inputs[j - 1].0,
            inputs[j - 1].1,
        ));
    }
    assert((results[j], states[j + 1]) == served(states[j], inputs[j].0, inputs[j].1));
}

/// A call that is answered, from the moment on at which memory is allocated for it, is answered in
/// exactly this way: the encoded call is written to that memory, the task is called on it, and then
/// the memory of the call and the memory of the answer are freed, each of them once, before the
/// bytes of the answer are passed on as they lay in the memory of the called task when the answer
/// was read. Nothing else is freed, and nothing is done after that.
pub proof fn law_answered_call_is_freed(
    call: Seq<u8>,
    states: Seq<ServingView>,
    inputs: Seq<(ServeEvent, Seq<u8>)>,
    results: Seq<(ServeResult, Seq<u8>)>,
    n: int,
)
    requires
        is_serving_run(states, inputs, results),
        states[0] == ServingView::Allocating(call),
        call.len() <= u32::MAX,
        0 <= n < results.len(),
        answers(results[n]),
    ensures
        n == 3,
        inputs[0].0 is Allocated,
        inputs[1].0 is Returned,
        ({
            let ptr = inputs[0].0->Allocated_0;
            let placed = placed_at(call, ptr);
            let returned = returned_with(placed, inputs[1].0->Returned_0);
            let answer = window(inputs[2].1, returned.answer_ptr, returned.answer_len as nat);
            &&& returned.call_ptr == ptr
            &&& returned.call_len == call.len()
            &&& results[0] == (
                Ok::<ServeActionView, ServeFailure>(
                    ServeActionView::Call { ptr: placed.ptr, len: placed.len },
                ),
                written(inputs[0].1, ptr, call),
            )
            &&& results[1].0 == Ok::<ServeActionView, ServeFailure>(
                ServeActionView::Free { ptr: returned.call_ptr, len: returned.call_len },
            )
            &&& results[2].0 == Ok::<ServeActionView, ServeFailure>(
                ServeActionView::Free { ptr: returned.answer_ptr, len: returned.answer_len },
            )
            &&& results[3].0 == Ok::<ServeActionView, ServeFailure>(ServeActionView::Answer(answer))
        }),
        forall|i: int|
            0 <= i < results.len() ==> (frees(#[trigger] results[i]) <==> i == 1 || i == 2),
        forall|i: int| 3 < i < results.len() ==> (#[trigger] results[i]).0 is Err,
{
    assert((results[0], states[1]) == served(states[0], inputs[0].0, inputs[0].1));
    if states[1] is Failed && n >= 1 {
        lemma_served_stays_served(states, inputs, results, 1, n);
    }
    assert((results[1], states[2]) == served(states[1], inputs[1].0, inputs[1].1));
    if states[2] is Failed && n >= 2 {
        lemma_served_stays_served(states, inputs, results, 2, n);
    }
    assert((results[2], states[3]) == served(states[2], inputs[2].0, inputs[2].1));
    if states[3] is Failed && n >= 3 {
        lemma_served_stays_served(states, inputs, results, 3, n);
    }
    assert((results[3], states[4]) == served(states[3], inputs[3].0, inputs[3].1));
    if n >= 4 {
        lemma_served_stays_served(states, inputs, results, 4, n);
    }
    assert forall|i: int| 3 < i < results.len() implies (#[trigger] results[i]).0 is Err by {
        lemma_served_stays_served(states, inputs, results, 4, i);
    }
    assert forall|i: int| 0 <= i < results.len() implies (frees(#[trigger] results[i]) <==> i == 1
        || i == 2) by {
        if i > 3 {
            lemma_served_stays_served(states, inputs, results, 4, i);
        }
    }
}

/// A call is answered wherever the called task does what it is told, in turn, and names only bytes
/// of its memory: where it allocates memory that holds the encoded call, and then says that its
/// answer lies in a part of its memory that is still there once the call has been freed.
pub proof fn law_well_behaved_call_is_answered(
    call: Seq<u8>,
    states: Seq<ServingView>,
    inputs: Seq<(ServeEvent, Seq<u8>)>,
    results: Seq<(ServeResult, Seq<u8>)>,
    ptr: u32,
    packed: u64,
)
    requires
        is_serving_run(states, inputs, results),
        states[0] == ServingView::Allocating(call),
        inputs.len() == 4,
        inputs[0].0 == ServeEvent::Allocated(ptr),
        inputs[1].0 == ServeEvent::Returned(packed),
        inputs[2].0 == ServeEvent::Freed,
        inputs[3].0 == ServeEvent::Freed,
        in_bounds(inputs[0].1, ptr, call.len()),
        in_bounds(inputs[2].1, word_ptr(packed), word_len(packed) as nat),
    ensures
        results[3].0 == Ok::<ServeActionView, ServeFailure>(
            ServeActionView::Answer(
                window(inputs[2].1, word_ptr(packed), word_len(packed) as nat),
            ),
        ),
        states[4] is Answered,
{
    assert((results[0], states[1]) == served(states[0], inputs[0].0, inputs[0].1));
    assert((results[1], states[2]) == served(states[1], inputs[1].0, inputs[1].1));
    assert((results[2], states[3]) == served(states[2], inputs[2].0, inputs[2].1));
    assert((results[3], states[4]) == served(states[3], inputs[3].0, inputs[3].1));
}

/// A placed call is where it was placed, with all of its bytes; a call that has returned is still
/// there, and its answer lies where the two halves of the returned word say.
pub proof fn law_calls_and_answers_lie(call: Seq<u8>, ptr: u32, placed: PlacedCall, packed: u64)
    requires
        call.len() <= u32::MAX,
    ensures
        placed_at(call, ptr).ptr == ptr,
        placed_at(call, ptr).len == call.len(),
        returned_with(placed, packed).call_ptr == placed.ptr,
        returned_with(placed, packed).call_len == placed.len,
        returned_with(placed, packed).answer_ptr == packed & 0xffff_ffff,
        returned_with(placed, packed).answer_len == packed >> 32,
{
    law_word_has_halves(packed);
}

/// The host writes to the memory of the called task once: when memory has been allocated for the
/// call. From the moment on at which the task returns no byte of its memory is changed, whatever
/// the host waits for.
pub proof fn law_host_only_reads_after_the_call(
    serving: ServingView,
    event: ServeEvent,
    memory: Seq<u8>,
)
    ensures
        !(event is Allocated) ==> served(serving, event, memory).0.1 == memory,
        !(serving is Allocating) ==> served(serving, event, memory).0.1 == memory,
        served(serving, event, memory).0.0 is Err ==> served(serving, event, memory).0.1 == memory,
{
}

/// Once the called task has allocated memory for the call, which lies between `before` and
/// `after`, exactly that memory becomes the call, and the task is called on it. Memory that ends
/// before the call would ends the service.
pub proof fn law_call_is_placed(
    call: Seq<u8>,
    before: Seq<u8>,
    block: Seq<u8>,
    after: Seq<u8>,
    ptr: u32,
    memory: Seq<u8>,
)
    requires
        call.len() <= u32::MAX,
        ptr == before.len(),
        block.len() == call.len(),
    ensures
        served(
            ServingView::Allocating(call),
            ServeEvent::Allocated(ptr),
            before + block + after,
        ) == (
            (
                Ok::<ServeActionView, ServeFailure>(
                    ServeActionView::Call { ptr, len: call.len() as u32 },
                ),
                before + call + after,
            ),
            ServingView::Calling(PlacedCall { ptr, len: call.len() as u32 }),
        ),
        memory.len() < ptr + call.len() ==> served(
            ServingView::Allocating(call),
            ServeEvent::Allocated(ptr),
            memory,
        ) == (
            (Err::<ServeActionView, ServeFailure>(ServeFailure::OutOfBounds), memory),
            ServingView::Failed,
        ),
{
    law_memory_has_parts(before, block, after, call);
}

/// What the host does while it serves a call, step by step: once the task returns, the call is
/// freed; once that is done, the answer is read, which lies between `before` and `after`, and is
/// freed; once that is done, the answer is passed on as it was read.
pub proof fn law_answer_is_read_and_freed(
    placed: PlacedCall,
    returned: ReturnedCall,
    packed: u64,
    before: Seq<u8>,
    answer: Seq<u8>,
    after: Seq<u8>,
    memory: Seq<u8>,
)
    requires
        before.len() == returned.answer_ptr,
        answer.len() == returned.answer_len,
    ensures
        served(ServingView::Calling(placed), ServeEvent::Returned(packed), memory) == (
            (
                Ok::<ServeActionView, ServeFailure>(
                    ServeActionView::Free { ptr: placed.ptr, len: placed.len },
                ),
                memory,
            ),
            ServingView::FreeingCall(
                ReturnedCall {
                    call_ptr: placed.ptr,
                    call_len: placed.len,
                    answer_ptr: (packed & 0xffff_ffff) as u32,
                    answer_len: (packed >> 32) as u32,
                },
            ),
        ),
        served(
            ServingView::FreeingCall(returned),
            ServeEvent::Freed,
            before + answer + after,
        ) == (
            (
                Ok::<ServeActionView, ServeFailure>(
                    ServeActionView::Free { ptr: returned.answer_ptr, len: returned.answer_len },
                ),
                before + answer + after,
            ),
            ServingView::FreeingAnswer(answer),
        ),
        memory.len() < returned.answer_ptr + returned.answer_len ==> served(
            ServingView::FreeingCall(returned),
            ServeEvent::Freed,
            memory,
        ) == (
            (Err::<ServeActionView, ServeFailure>(ServeFailure::OutOfBounds), memory),
            ServingView::Failed,
        ),
        served(ServingView::FreeingAnswer(answer), ServeEvent::Freed, memory) == (
            (Ok::<ServeActionView, ServeFailure>(ServeActionView::Answer(answer)), memory),
            ServingView::Answered,
        ),
{
    law_word_has_halves(packed);
    law_memory_has_parts(before, answer, after, answer);
}

/// What the host does not wait for ends the service: memory is allocated for a call alone, a task
/// returns from a call alone, and nothing is freed but a call and an answer.
pub proof fn law_service_has_an_order(serving: ServingView, event: ServeEvent, memory: Seq<u8>)
    requires
        event is Allocated ==> !(serving is Allocating),
        event is Returned ==> !(serving is Calling),
        event is Freed ==> !(serving is FreeingCall) && !(serving is FreeingAnswer),
    ensures
        served(serving, event, memory) == (
            (Err::<ServeActionView, ServeFailure>(ServeFailure::OutOfTurn), memory),
            ServingView::Failed,
        ),
{
}

/// The answer is passed on unchanged: where the memory of the called task holds `answer` at the
/// moment at which the task returns, in the place that the returned word names, and where nothing
/// but the host touches that memory until the answer is read, the bytes that are passed on are
/// `answer`. The task returns in step `i`.
pub proof fn law_answer_is_passed_on_unchanged(
    states: Seq<ServingView>,
    inputs: Seq<(ServeEvent, Seq<u8>)>,
    results: Seq<(ServeResult, Seq<u8>)>,
    i: int,
    packed: u64,
    before: Seq<u8>,
    answer: Seq<u8>,
    after: Seq<u8>,
)
    requires
        is_serving_run(states, inputs, results),
        0 <= i < inputs.len() - 2,
        states[i] is Calling,
        inputs[i].0 == ServeEvent::Returned(packed),
        inputs[i].1 == before + answer + after,
        before.len() == packed & 0xffff_ffff,
        answer.len() == packed >> 32,
        inputs[i + 1].0 == ServeEvent::Freed,
        inputs[i + 1].1 == results[i].1,
        inputs[i + 2].0 == ServeEvent::Freed,
    ensures
        results[i + 2].0 == Ok::<ServeActionView, ServeFailure>(ServeActionView::Answer(answer)),
        states[i + 3] is Answered,
{
    let memory = before + answer + after;
    law_word_has_halves(packed);
    law_memory_has_parts(before, answer, after, answer);
    assert((results[i], states[i + 1]) == served(states[i], inputs[i].0, inputs[i].1));
    assert((results[i + 1], states[i + 2]) == served(
        states[i + 1],
        inputs[i + 1].0,
        inputs[i + 1].1,
    ));
    assert((results[i + 2], states[i + 3]) == served(
        states[i + 2],
        inputs[i + 2].0,
        inputs[i + 2].1,
    ));
}

/// The contents of what the host waits for, does and reports are those values, with nothing left
/// out.
pub proof fn law_serving_contents(
    bytes: Vec<u8>,
    ptr: u32,
    len: u32,
    placed: PlacedCall,
    returned: ReturnedCall,
    action: ServeAction,
    failure: ServeFailure,
)
    ensures
        Serving::Allocating(bytes)@ == ServingView::Allocating(bytes@),
        Serving::Calling(placed)@ == ServingView::Calling(placed),
        Serving::FreeingCall(returned)@ == ServingView::FreeingCall(returned),
        Serving::FreeingAnswer(bytes)@ == ServingView::FreeingAnswer(bytes@),
        Serving::Answered@ is Answered,
        Serving::Failed@ is Failed,
        (ServeAction::Allocate { len })@ == (ServeActionView::Allocate { len }),
        (ServeAction::Call { ptr, len })@ == (ServeActionView::Call { ptr, len }),
        (ServeAction::Free { ptr, len })@ == (ServeActionView::Free { ptr, len }),
        ServeAction::Answer(bytes)@ == ServeActionView::Answer(bytes@),
        serve_result(Ok(action)) == Ok::<ServeActionView, ServeFailure>(action@),
        serve_result(Err(failure)) == Err::<ServeActionView, ServeFailure>(failure),
        Serving::Allocating(bytes).wf() <==> bytes@.len() <= u32::MAX,
{
}

} // verus!
