//! The host's side of running tasks: creating them, scheduling them, and passing messages between
//! them.
use vstd::prelude::*;
use vstd::utf8::{encode_scalar, encode_utf8, encode_utf8_decode_utf8};

use crate::host::{StoreData, StoreDataView};
use crate::memory::{word_len, word_ptr};
use crate::messaging::{Message, TaskId};

verus! {

/// How long a task runs before it is asked to give control back, in milliseconds.
pub const TIME_SLICE_MS: u64 = 100;

/// The representation of a task.
pub struct Task {
    pub name: String,
    pub store_data: StoreData,
    pub task_id: TaskId,
}

/// The bytes of the ID of the task `name`: the name, filled up with zeros.
pub open spec fn task_id_bytes(name: Seq<char>) -> Seq<u8> {
    let bytes = encode_utf8(name);
    bytes + Seq::new((32 - bytes.len()) as nat, |i: int| 0u8)
}

/// The name leaves room for itself in an ID.
pub open spec fn fits_task_id(name: Seq<char>) -> bool {
    encode_utf8(name).len() <= 32
}

/// `n` zero characters.
pub open spec fn zero_chars(n: nat) -> Seq<char> {
    Seq::new(n, |i: int| '\0')
}

/// `longer` is `name` with zero characters behind it.
pub open spec fn extends_by_zeros(longer: Seq<char>, name: Seq<char>) -> bool {
    name.len() <= longer.len() && longer == name + zero_chars((longer.len() - name.len()) as nat)
}

/// Two tasks have the same ID exactly if their names are the same, up to zero characters at the
/// end of one of them: that character is also what an ID is filled up with.
pub proof fn law_task_ids_are_distinct(name: Seq<char>, other: Seq<char>)
    requires
        fits_task_id(name),
        fits_task_id(other),
    ensures
        task_id_bytes(name) == task_id_bytes(other) <==> extends_by_zeros(name, other)
            || extends_by_zeros(other, name),
{
    if extends_by_zeros(name, other) {
        lemma_zeros_keep_the_id(name, other);
    }
    if extends_by_zeros(other, name) {
        lemma_zeros_keep_the_id(other, name);
    }
    if task_id_bytes(name) == task_id_bytes(other) {
        if encode_utf8(name).len() <= encode_utf8(other).len() {
            lemma_same_id_extends(other, name);
        } else {
            lemma_same_id_extends(name, other);
        }
    }
}

/// Zero characters at the end of a name make no difference to the ID.
proof fn lemma_zeros_keep_the_id(longer: Seq<char>, name: Seq<char>)
    requires
        fits_task_id(longer),
        extends_by_zeros(longer, name),
    ensures
        task_id_bytes(longer) == task_id_bytes(name),
{
    lemma_encode_zeros_behind(name, (longer.len() - name.len()) as nat);
    assert(task_id_bytes(longer) =~= task_id_bytes(name));
}

/// Of two names with the same ID the longer one has zero characters behind the other one.
proof fn lemma_same_id_extends(longer: Seq<char>, name: Seq<char>)
    requires
        fits_task_id(longer),
        encode_utf8(name).len() <= encode_utf8(longer).len(),
        task_id_bytes(longer) == task_id_bytes(name),
    ensures
        extends_by_zeros(longer, name),
{
    let bytes = encode_utf8(name);
    let longer_bytes = encode_utf8(longer);
    let n = (longer_bytes.len() - bytes.len()) as nat;
    let id = task_id_bytes(name);
    assert(longer_bytes =~= id.take(longer_bytes.len() as int));
    assert(bytes + Seq::new(n, |i: int| 0u8) =~= id.take(longer_bytes.len() as int));
    lemma_encode_zeros_behind(name, n);
    encode_utf8_decode_utf8(longer);
    encode_utf8_decode_utf8(name + zero_chars(n));
}

/// Zero characters behind a text are zero bytes behind its encoding.
proof fn lemma_encode_zeros_behind(name: Seq<char>, n: nat)
    ensures
        encode_utf8(name + zero_chars(n)) == encode_utf8(name) + Seq::new(n, |i: int| 0u8),
    decreases name.len() + n,
{
    let text = name + zero_chars(n);
    if name.len() > 0 {
        lemma_encode_zeros_behind(name.drop_first(), n);
        assert(text.drop_first() =~= name.drop_first() + zero_chars(n));
        assert(encode_utf8(text) =~= encode_utf8(name) + Seq::new(n, |i: int| 0u8));
    } else if n > 0 {
        lemma_encode_zeros_behind(name, (n - 1) as nat);
        assert(text.drop_first() =~= name + zero_chars((n - 1) as nat));
        assert(0u32 & 0x7F == 0) by (bit_vector);
        assert(encode_scalar('\0' as u32) =~= seq![0u8]);
        assert(encode_utf8(text) =~= encode_utf8(name) + Seq::new(n, |i: int| 0u8));
    } else {
        assert(text =~= name);
        assert(encode_utf8(name) + Seq::new(n, |i: int| 0u8) =~= encode_utf8(name));
    }
}

/// The ID of a task is 32 bytes: those of its name, each in its place, and then zeros. Every name
/// of at most 32 bytes has one, and no other name has.
pub proof fn law_task_id_is_the_name(name: Seq<char>, i: int)
    ensures
        fits_task_id(name) <==> encode_utf8(name).len() <= 32,
        fits_task_id(name) ==> task_id_bytes(name).len() == 32,
        fits_task_id(name) && 0 <= i < encode_utf8(name).len() ==> task_id_bytes(name)[i]
            == encode_utf8(name)[i],
        fits_task_id(name) && encode_utf8(name).len() <= i < 32 ==> task_id_bytes(name)[i] == 0,
{
}

/// Whether two IDs are the same.
pub(crate) fn same_task_id(a: &TaskId, b: &TaskId) -> (same: bool)
    ensures
        same == (*a == *b),
{
    let mut i: usize = 0;
    while i < 32
        invariant
            i <= 32,
            forall|j: int| 0 <= j < i ==> a[j] == b[j],
        decreases 32 - i,
    {
        if a[i] != b[i] {
            assert(a[i as int] != b[i as int]);
            return false;
        }
        i += 1;
    }
    assert(*a =~= *b);
    true
}

/// Creates the task `name`, with nothing received, nothing sent, and no request to give control
/// back. A name that is longer than an ID has no task.
pub fn create_task(name: String) -> (task: Option<Task>)
    ensures
        match task {
            Some(task) => {
                &&& fits_task_id(name@)
                &&& task.wf()
                &&& task.name@ == name@
                &&& task.task_id@ == task_id_bytes(name@)
                &&& task.store_data@ == (StoreDataView {
                    messages: Seq::empty(),
                    messages_to_send: Seq::empty(),
                    name: name@,
                    should_yield: false,
                })
            },
            None => !fits_task_id(name@),
        },
{
    let bytes = name.as_str().as_bytes();
    let len: usize = bytes.len();
    if len > 32 {
        return None;
    }
    let mut task_id: TaskId = [0u8; 32];
    let mut i: usize = 0;
    while i < len
        invariant
            i <= len,
            len == bytes@.len(),
            len <= 32,
            forall|j: int| 0 <= j < i ==> task_id@[j] == bytes@[j],
            forall|j: int| i <= j < 32 ==> task_id@[j] == 0,
        decreases len - i,
    {
        task_id[i] = bytes[i];
        i += 1;
    }
    assert(task_id@ =~= task_id_bytes(name@));
    let store_data = StoreData {
        messages: Vec::new(),
        messages_to_send: Vec::new(),
        name: name.clone(),
        should_yield: false,
    };
    Some(Task { name, store_data, task_id })
}

/// `store` once its task has been sent `message`.
pub open spec fn message_received(store: StoreDataView, message: Message) -> StoreDataView {
    StoreDataView { messages: store.messages.push(message), ..store }
}

/// `store` once the messages that its task sent have been collected.
pub open spec fn messages_drained(store: StoreDataView) -> StoreDataView {
    StoreDataView { messages_to_send: Seq::empty(), ..store }
}

/// `store` once its task is, or is no longer, asked to give control back.
pub open spec fn yield_set(store: StoreDataView, should_yield: bool) -> StoreDataView {
    StoreDataView { should_yield, ..store }
}

impl Task {
    /// The ID and the name that the host functions see belong to the name of the task.
    pub open spec fn wf(&self) -> bool {
        &&& fits_task_id(self.name@)
        &&& self.task_id@ == task_id_bytes(self.name@)
        &&& self.store_data@.name == self.name@
    }

    /// Two states of one task: neither its name nor its ID ever changes.
    pub open spec fn same_task(&self, other: &Task) -> bool {
        &&& self.name == other.name
        &&& self.task_id == other.task_id
        &&& self.store_data.name == other.store_data.name
    }

    /// Whatever is done with a well-formed task, it stays well-formed.
    pub proof fn law_stays_well_formed(&self, other: &Task)
        requires
            other.wf(),
            self.same_task(other),
        ensures
            self.wf(),
    {
    }

    /// A well-formed task has the ID that its name stands for, and goes by its name everywhere;
    /// two states of one task have the same name and the same ID.
    pub proof fn law_identity(&self, other: &Task)
        ensures
            self.wf() <==> encode_utf8(self.name@).len() <= 32 && self.task_id@ == task_id_bytes(
                self.name@,
            ) && self.store_data.name@ == self.name@,
            self.same_task(other) ==> self.name@ == other.name@ && self.task_id == other.task_id
                && self.store_data.name@ == other.store_data.name@,
    {
    }

    /// Sends `msg` to the task.
    pub fn send_message(&mut self, msg: Message)
        ensures
            final(self).same_task(old(self)),
            final(self).store_data@ == message_received(old(self).store_data@, msg),
    {
        self.store_data.messages.push(msg);
    }

    /// Collects the messages that the task sent since they were last collected.
    pub fn drain_messages_to_send(&mut self) -> (messages: Vec<Message>)
        ensures
            messages@ == old(self).store_data@.messages_to_send,
            final(self).same_task(old(self)),
            final(self).store_data@ == messages_drained(old(self).store_data@),
    {
        let mut messages: Vec<Message> = Vec::new();
        messages.append(&mut self.store_data.messages_to_send);
        messages
    }

    /// Asks the task to give control back, or takes the request back.
    pub fn set_yield(&mut self, should_yield: bool)
        ensures
            final(self).same_task(old(self)),
            final(self).store_data@ == yield_set(old(self).store_data@, should_yield),
    {
        self.store_data.should_yield = should_yield;
    }
}

/// `to` once everything that the task of `from` sent has been passed on to its task.
pub open spec fn messages_delivered(from: StoreDataView, to: StoreDataView) -> StoreDataView {
    StoreDataView { messages: to.messages + from.messages_to_send, ..to }
}

/// Passes everything that `from` sent on to `to`, in the order in which it was sent.
pub fn deliver_messages(from: &mut Task, to: &mut Task)
    ensures
        final(from).same_task(old(from)),
        final(from).store_data@ == messages_drained(old(from).store_data@),
        final(to).same_task(old(to)),
        final(to).store_data@ == messages_delivered(old(from).store_data@, old(to).store_data@),
{
    let messages = from.drain_messages_to_send();
    let count: usize = messages.len();
    let mut i: usize = 0;
    while i < count
        invariant
            i <= count,
            count == messages@.len(),
            to.same_task(old(to)),
            to.store_data@ == (StoreDataView {
                messages: old(to).store_data@.messages + messages@.take(i as int),
                ..old(to).store_data@
            }),
        decreases count - i,
    {
        to.send_message(messages[i]);
        assert(messages@.take(i + 1) =~= messages@.take(i as int).push(messages@[i as int]));
        i += 1;
        assert(to.store_data@.messages =~= old(to).store_data@.messages + messages@.take(i as int));
    }
    assert(messages@.take(count as int) =~= messages@);
}

/// A message that a task is sent comes behind those that it was sent before, and leaves everything
/// else as it was.
pub proof fn law_receiving_leaves_the_rest(store: StoreDataView, message: Message)
    ensures
        message_received(store, message).messages == store.messages + seq![message],
        message_received(store, message).messages_to_send == store.messages_to_send,
        message_received(store, message).name == store.name,
        message_received(store, message).should_yield == store.should_yield,
{
    assert(store.messages.push(message) =~= store.messages + seq![message]);
}

/// Collecting what a task sent leaves none of it behind, and leaves everything else as it was.
pub proof fn law_draining_leaves_the_rest(store: StoreDataView)
    ensures
        messages_drained(store).messages_to_send.len() == 0,
        messages_drained(store).messages == store.messages,
        messages_drained(store).name == store.name,
        messages_drained(store).should_yield == store.should_yield,
{
}

/// What one task sent is passed on whole and in order, behind what the other task has received, and
/// nothing else of that task changes.
pub proof fn law_delivery_is_complete(from: StoreDataView, to: StoreDataView, i: int)
    ensures
        ({
            let delivered = messages_delivered(from, to);
            let received: int = to.messages.len() as int;
            &&& delivered.messages.len() == received + from.messages_to_send.len()
            &&& 0 <= i < received ==> delivered.messages[i] == to.messages[i]
            &&& 0 <= i < from.messages_to_send.len() ==> delivered.messages[received + i]
                == from.messages_to_send[i]
            &&& delivered.messages_to_send == to.messages_to_send
            &&& delivered.name == to.name
            &&& delivered.should_yield == to.should_yield
        }),
{
}

/// Asking a task to give control back, or taking the request back, changes nothing but the request.
pub proof fn law_asking_leaves_the_rest(store: StoreDataView, should_yield: bool)
    ensures
        yield_set(store, should_yield).should_yield == should_yield,
        yield_set(store, should_yield).messages == store.messages,
        yield_set(store, should_yield).messages_to_send == store.messages_to_send,
        yield_set(store, should_yield).name == store.name,
{
}

/// The functions of a task that the host calls.
#[derive(Clone, Copy, Debug, PartialEq, Eq, Structural)]
pub enum TaskFunction {
    /// Services the task.
    Service,
    /// Has the task answer a call.
    Call,
    /// Allocates memory of the task.
    AllocateMemory,
    /// Frees memory of the task.
    FreeMemory,
}

/// Whether a function can be called again: after a call that failed, only the one that frees
/// memory can.
pub open spec fn callable_again(which: TaskFunction, succeeded: bool) -> bool {
    succeeded || which is FreeMemory
}

/// A call that succeeded can be repeated, whatever it was of; after one that failed only memory can
/// still be freed.
pub proof fn law_what_can_be_called_again(which: TaskFunction)
    ensures
        callable_again(which, true),
        callable_again(which, false) <==> which == TaskFunction::FreeMemory,
{
}

/// A function of a task, of which there is one: whoever calls it takes it, and puts it back.
pub struct Slot<F> {
    function: Option<F>,
}

impl<F> View for Slot<F> {
    type V = Option<F>;

    closed spec fn view(&self) -> Option<F> {
        self.function
    }
}

impl<F> Slot<F> {
    /// A slot with `function` in it.
    pub fn new(function: F) -> (slot: Self)
        ensures
            slot@ == Some(function),
    {
        Slot { function: Some(function) }
    }

    /// Takes the function, which is there unless someone else has it.
    pub fn take(&mut self) -> (function: Option<F>)
        ensures
            function == old(self)@,
            final(self)@ is None,
    {
        self.function.take()
    }

    /// Ends a call of the function `which`: puts it back if it can be called again.
    pub fn finish(&mut self, which: TaskFunction, function: F, succeeded: bool)
        ensures
            final(self)@ == if callable_again(which, succeeded) {
                Some(function)
            } else {
                old(self)@
            },
    {
        let again = match which {
            TaskFunction::FreeMemory => true,
            _ => succeeded,
        };
        if again {
            self.function = Some(function);
        }
    }
}

/// Schedules a task: takes back the request to give control back, and takes the function that
/// services the task. There is no function where the task is being serviced already.
pub fn run_task<F>(task: &mut Task, service: &mut Slot<F>) -> (function: Option<F>)
    ensures
        function == old(service)@,
        final(service)@ is None,
        final(task).same_task(old(task)),
        final(task).store_data@ == yield_set(old(task).store_data@, false),
{
    task.set_yield(false);
    service.take()
}

/// Takes the end of the time slice of a task: it is asked to give control back.
pub fn end_time_slice(task: &mut Task)
    ensures
        final(task).same_task(old(task)),
        final(task).store_data@ == yield_set(old(task).store_data@, true),
{
    task.set_yield(true);
}

/// Takes apart the word in which a task says where an answer lies: the pointer is the lower half,
/// the length the upper half.
pub fn unpack_ptr_and_len(val: u64) -> (unpacked: (u32, u32))
    ensures
        unpacked == (word_ptr(val), word_len(val)),
{
    assert(val & 0xffff_ffff == val % 0x1_0000_0000 && val >> 32 == val / 0x1_0000_0000 && val
        / 0x1_0000_0000 <= 0xffff_ffff && !0u32 as u64 == 0xffff_ffff) by (bit_vector);
    let ptr = (val & (!0u32 as u64)) as u32;
    let len = (val >> 32) as u32;
    (ptr, len)
}

} // verus!
