use std::collections::VecDeque;

use coreplay::executor::unpack_ptr_and_len;
use coreplay::messaging::Message;
use coreplay::service::{MainLoop, Service};
use coreplay::task::{
    pack_ptr_and_len, react, work, Call, CallResult, IMessage, Messages, NextInput, Reaction,
    RelayChainContext, REPORT_INTERVAL,
};

#[test]
fn dispatch_gives_the_number_back() {
    assert_eq!(Call::DoSomething(10).dispatch(), CallResult::DoSomethingR(10));
    assert_eq!(
        Call::DoSomething(u32::MAX).dispatch(),
        CallResult::DoSomethingR(u32::MAX)
    );
}

#[test]
fn the_length_is_packed_above_the_pointer() {
    assert_eq!(pack_ptr_and_len(0x1122_3344, 6), 0x0000_0006_1122_3344);
    assert_eq!(unpack_ptr_and_len(0x0000_0006_1122_3344), (0x1122_3344, 6));
}

#[test]
fn unpacking_inverts_packing() {
    for (ptr, len) in [(0, 0), (u32::MAX, 0), (0, u32::MAX), (u32::MAX, u32::MAX), (8, 9)] {
        assert_eq!(unpack_ptr_and_len(pack_ptr_and_len(ptr, len)), (ptr, len));
    }
}

#[test]
fn packing_inverts_unpacking() {
    for word in [0, 1, u64::MAX, 0xdead_beef_0bad_cafe, 1 << 32] {
        let (ptr, len) = unpack_ptr_and_len(word);
        assert_eq!(pack_ptr_and_len(ptr, len), word);
    }
}

#[test]
fn contexts_come_before_messages() {
    let mut messages = Messages {
        relay_chain_contexts: VecDeque::from(vec![RelayChainContext {}, RelayChainContext {}]),
    };
    assert!(matches!(messages.next(), NextInput::Ready(IMessage::Context(_))));
    assert_eq!(messages.relay_chain_contexts.len(), 1);
    assert!(matches!(messages.next(), NextInput::Ready(IMessage::Context(_))));
    assert!(matches!(messages.next(), NextInput::PollHost));
    assert!(matches!(messages.next(), NextInput::PollHost));
}

#[test]
fn there_are_no_contexts_at_first() {
    let mut messages = Messages::default();
    assert_eq!(messages.relay_chain_contexts.len(), 0);
    assert!(matches!(messages.next(), NextInput::PollHost));
}

#[test]
fn ping_and_pong_answer_each_other() {
    let Reaction::Send(answer) = react(IMessage::Extern(Message::Ping)) else {
        panic!("a ping is answered")
    };
    assert!(matches!(answer, Message::Pong));
    let Reaction::Send(answer) = react(IMessage::Extern(answer)) else {
        panic!("a pong is answered")
    };
    assert!(matches!(answer, Message::Ping));
}

#[test]
fn a_call_message_leads_to_a_call() {
    let reaction = react(IMessage::Extern(Message::Call([5; 32])));
    assert!(matches!(
        reaction,
        Reaction::CallTask(id, Call::DoSomething(10)) if id == [5; 32]
    ));
}

#[test]
fn a_context_needs_no_reaction() {
    let reaction = react(IMessage::Context(RelayChainContext {}));
    assert!(matches!(reaction, Reaction::Nothing));
}

#[test]
fn the_main_loop_is_started_once() {
    let mut service = Service::new();
    let mut started = 0;
    for _ in 0..5 {
        if service.begin() == MainLoop::Start {
            started += 1;
        }
        service.maybe_yield(1);
        service.end();
    }
    assert_eq!(started, 1);
}

#[test]
fn a_cycle_starts_without_a_yield() {
    let mut service = Service::new();
    assert_eq!(service.begin(), MainLoop::Start);
    assert!(!service.maybe_yield(0));
    assert!(!service.yielded);
    assert!(service.maybe_yield(1));
    assert!(service.yielded);
    assert!(!service.maybe_yield(2));
    assert!(service.yielded);
    service.end();
    assert!(service.yielded && service.started);
    assert_eq!(service.begin(), MainLoop::Resume);
    assert!(!service.yielded);
    service.end();
    assert!(!service.yielded);
}

#[test]
fn work_reports_now_and_then() {
    let mut counter = 0;
    assert_eq!(work(&mut counter), None);
    assert_eq!(counter, 1);
    counter = REPORT_INTERVAL - 1;
    assert_eq!(work(&mut counter), Some(100_000_000));
    assert_eq!(work(&mut counter), None);
    counter = 2 * REPORT_INTERVAL - 1;
    assert_eq!(work(&mut counter), Some(200_000_000));
}
