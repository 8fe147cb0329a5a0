use coreplay::messaging::{self, Message, MESSAGE_BUFFER_LEN, RESULT_BUFFER_LEN};
use coreplay::scale::{DecodeError, Scale};
use coreplay::service::{
    Event, HostCall, LongWork, Phase, Service, Step, TaskFailure, TaskState, WorkPhase,
};
use coreplay::task::{Call, CallResult, RelayChainContext, REPORT_INTERVAL};
use coreplay::text::{counter_line, push_decimal, report};

fn no_message() -> Event {
    Event::Message { buffer: vec![0; MESSAGE_BUFFER_LEN], len: 0 }
}

fn message(message: Message) -> Event {
    let encoded = messaging::send_message(message);
    let mut buffer = vec![0; MESSAGE_BUFFER_LEN];
    buffer[..encoded.len()].copy_from_slice(&encoded);
    Event::Message { buffer, len: encoded.len() as u32 }
}

fn answer(bytes: &[u8]) -> Event {
    let mut buffer = vec![0; RESULT_BUFFER_LEN];
    buffer[..bytes.len()].copy_from_slice(bytes);
    Event::CallResult { buffer, len: bytes.len() as u32 }
}

fn id_text(byte: u8) -> String {
    format!("{:?}", [byte; 32])
}

#[test]
fn a_task_without_messages_pauses_and_resumes() {
    let mut task = TaskState::new();
    for _ in 0..3 {
        assert!(matches!(task.advance(Event::Service), Ok(Step::Call(HostCall::NextMessage))));
        assert!(matches!(task.advance(no_message()), Ok(Step::Pending)));
        assert!(matches!(task.phase, Phase::Paused));
        assert!(task.service.started);
    }
}

#[test]
fn a_ping_is_answered_within_the_cycle() {
    let mut task = TaskState::new();
    task.advance(Event::Service).unwrap();
    let step = task.advance(message(Message::Ping)).unwrap();
    assert!(matches!(step, Step::Call(HostCall::SendMessage(bytes)) if bytes == [1]));
    assert!(matches!(task.advance(Event::Done), Ok(Step::Call(HostCall::NextMessage))));
    let step = task.advance(message(Message::Pong)).unwrap();
    assert!(matches!(step, Step::Call(HostCall::SendMessage(bytes)) if bytes == [0]));
}

#[test]
fn a_call_is_made_and_reported() {
    let mut task = TaskState::new();
    task.advance(Event::Service).unwrap();
    let step = task.advance(message(Message::Call([7; 32]))).unwrap();
    let Step::Call(HostCall::CallTask { task: target, call }) = step else {
        panic!("a task is called")
    };
    assert_eq!(target, [7; 32]);
    assert_eq!(call, Scale::encode(&Call::DoSomething(10)));
    let step = task.advance(answer(&[0, 0, 10, 0, 0, 0])).unwrap();
    let Step::Call(HostCall::Print(line)) = step else {
        panic!("a line is printed")
    };
    assert_eq!(line, format!("Task {} returned: DoSomethingR(10)", id_text(7)));
    assert!(matches!(task.advance(Event::Done), Ok(Step::Call(HostCall::NextMessage))));
}

#[test]
fn a_failed_call_is_reported() {
    let mut task = TaskState::new();
    task.advance(Event::Service).unwrap();
    task.advance(message(Message::Call([255; 32]))).unwrap();
    let step = task.advance(answer(&[0, 0, 10, 0, 0])).unwrap();
    let Step::Call(HostCall::Print(line)) = step else {
        panic!("a line is printed")
    };
    assert_eq!(
        line,
        format!("Calling task {} returned an error: ResultDecoding", id_text(255))
    );
}

#[test]
fn contexts_are_taken_off_before_the_host_is_polled() {
    let mut task = TaskState::new();
    task.advance(Event::Service).unwrap();
    task.messages.relay_chain_contexts.push_back(RelayChainContext {});
    task.advance(message(Message::Ping)).unwrap();
    assert_eq!(task.messages.relay_chain_contexts.len(), 1);
    assert!(matches!(task.advance(Event::Done), Ok(Step::Call(HostCall::NextMessage))));
    assert_eq!(task.messages.relay_chain_contexts.len(), 0);
}

#[test]
fn the_same_answers_lead_to_the_same_calls() {
    let run = || {
        let mut task = TaskState::new();
        let mut steps = Vec::new();
        for event in [
            Event::Service,
            message(Message::Call([1; 32])),
            answer(&[0, 0, 1, 1, 0, 0]),
            Event::Done,
            message(Message::Pong),
            Event::Done,
            no_message(),
            Event::Service,
            Event::Message { buffer: vec![9], len: 1 },
        ] {
            steps.push(format!("{:?}", task.advance(event)));
        }
        (steps, format!("{:?} {:?}", task.service, task.phase))
    };
    assert_eq!(run(), run());
    assert_eq!(run().0.len(), 9);
}

#[test]
fn a_cycle_takes_every_message() {
    let mut task = TaskState::new();
    let mut calls = Vec::new();
    let mut events = vec![
        Event::Service,
        message(Message::Ping),
        Event::Done,
        message(Message::Call([2; 32])),
        answer(&[0, 0, 10, 0, 0, 0]),
        Event::Done,
        message(Message::Pong),
        Event::Done,
        no_message(),
    ]
    .into_iter();
    while let Step::Call(call) = task.advance(events.next().unwrap()).unwrap() {
        calls.push(format!("{call:?}"));
    }
    assert!(events.next().is_none());
    let report = format!("Task {} returned: DoSomethingR(10)", id_text(2));
    let expected = [
        HostCall::NextMessage,
        HostCall::SendMessage(vec![1]),
        HostCall::NextMessage,
        HostCall::CallTask { task: [2; 32], call: vec![0, 10, 0, 0, 0] },
        HostCall::Print(report),
        HostCall::NextMessage,
        HostCall::SendMessage(vec![0]),
        HostCall::NextMessage,
    ];
    assert_eq!(calls, expected.map(|call| format!("{call:?}")));
    assert!(matches!(task.phase, Phase::Paused));
    assert!(task.service.started);
}

#[test]
fn the_main_loop_starts_without_contexts_once() {
    let mut task = TaskState::new();
    task.messages.relay_chain_contexts.push_back(RelayChainContext {});
    task.advance(Event::Service).unwrap();
    assert_eq!(task.messages.relay_chain_contexts.len(), 0);
    task.advance(no_message()).unwrap();
    task.messages.relay_chain_contexts.push_back(RelayChainContext {});
    for _ in 0..2 {
        task.advance(Event::Service).unwrap();
        assert_eq!(task.messages.relay_chain_contexts.len(), 1);
        task.advance(no_message()).unwrap();
        assert!(task.service.started);
    }
}

#[test]
fn a_failure_in_the_first_cycle_lasts() {
    let mut task = TaskState::new();
    task.advance(Event::Service).unwrap();
    let failed = task.advance(Event::Message { buffer: vec![3], len: 1 });
    assert_eq!(
        failed.unwrap_err(),
        TaskFailure::MessageDecoding(DecodeError::UnknownVariant)
    );
    assert_eq!(task.advance(Event::Service).unwrap_err(), TaskFailure::FailedBefore);
    assert_eq!(task.advance(no_message()).unwrap_err(), TaskFailure::OutOfTurn);
    assert_eq!(task.advance(Event::Service).unwrap_err(), TaskFailure::FailedBefore);
}

#[test]
fn a_later_failure_lasts() {
    let mut task = TaskState::new();
    task.advance(Event::Service).unwrap();
    task.advance(no_message()).unwrap();
    task.advance(Event::Service).unwrap();
    let failed = task.advance(Event::Message { buffer: vec![0], len: 2 });
    assert_eq!(failed.unwrap_err(), TaskFailure::BufferTooSmall);
    assert_eq!(task.advance(Event::Service).unwrap_err(), TaskFailure::FailedBefore);
    assert_eq!(task.advance(Event::Service).unwrap_err(), TaskFailure::FailedBefore);
}

#[test]
fn an_answer_that_is_too_long_fails() {
    let mut task = TaskState::new();
    task.advance(Event::Service).unwrap();
    task.advance(message(Message::Call([1; 32]))).unwrap();
    let failed = task.advance(Event::CallResult { buffer: vec![0; 4], len: 5 });
    assert_eq!(failed.unwrap_err(), TaskFailure::BufferTooSmall);
    assert!(matches!(task.phase, Phase::Failed));
}

#[test]
fn what_a_task_does_not_wait_for_changes_nothing() {
    let mut task = TaskState::new();
    assert_eq!(task.advance(Event::Done).unwrap_err(), TaskFailure::OutOfTurn);
    assert!(matches!(task.phase, Phase::Paused));
    task.advance(Event::Service).unwrap();
    assert_eq!(task.advance(Event::Service).unwrap_err(), TaskFailure::OutOfTurn);
    assert!(matches!(task.phase, Phase::Polling));
}

#[test]
fn long_work_yields_and_goes_on() {
    let mut service = Service::new();
    service.begin();
    let mut work = LongWork::never_return();
    let step = work.advance(&mut service, Event::Service).unwrap();
    assert!(matches!(step, Step::Call(HostCall::Print(line)) if line == "Init `never_return`"));
    let step = work.advance(&mut service, Event::Done).unwrap();
    assert!(matches!(step, Step::Call(HostCall::ShouldYield)));
    let step = work.advance(&mut service, Event::Signal(0)).unwrap();
    assert!(matches!(step, Step::Call(HostCall::ShouldYield)));
    assert_eq!(work.counter, 1);
    assert!(!service.yielded);
    assert!(matches!(work.advance(&mut service, Event::Signal(1)), Ok(Step::Pending)));
    assert_eq!(work, LongWork { phase: WorkPhase::Yielded, counter: 1 });
    assert!(service.yielded);
    let step = work.advance(&mut service, Event::Service).unwrap();
    assert!(matches!(step, Step::Call(HostCall::ShouldYield)));
    assert_eq!(work.counter, 2);
    assert_eq!(
        work.advance(&mut service, Event::Service).unwrap_err(),
        TaskFailure::OutOfTurn
    );
}

#[test]
fn long_work_prints_its_first_line_once_and_keeps_its_counter() {
    let mut service = Service::new();
    let mut work = LongWork::never_return();
    let mut first_lines = 0;
    let mut yields = 0;
    let mut events = vec![Event::Done, Event::Service, Event::Done, Event::Signal(0)];
    for _ in 0..3 {
        events.extend([Event::Signal(2), Event::Signal(1), Event::Done, Event::Service]);
    }
    for event in events {
        let before = work;
        let yielding = matches!(event, Event::Signal(1));
        let result = work.advance(&mut service, event);
        if matches!(&result, Ok(Step::Call(HostCall::Print(line))) if line.starts_with("Init")) {
            first_lines += 1;
        }
        assert_eq!(matches!(result, Ok(Step::Pending)), yielding);
        if yielding {
            yields += 1;
            assert_eq!(work.counter, before.counter);
        }
    }
    assert_eq!((first_lines, yields), (1, 3));
    assert_eq!(work.counter, 7);
}

#[test]
fn long_work_reports_its_progress() {
    let mut service = Service::new();
    let mut work = LongWork { phase: WorkPhase::Asking, counter: REPORT_INTERVAL - 1 };
    let step = work.advance(&mut service, Event::Signal(0)).unwrap();
    assert!(matches!(step, Step::Call(HostCall::Print(line)) if line == "Counter 100000000"));
    assert_eq!(work.phase, WorkPhase::Reporting);
    let step = work.advance(&mut service, Event::Done).unwrap();
    assert!(matches!(step, Step::Call(HostCall::ShouldYield)));
}

#[test]
fn the_same_signals_lead_to_the_same_work() {
    let run = || {
        let mut service = Service::new();
        let mut work = LongWork::never_return();
        let mut steps = Vec::new();
        for event in [Event::Service, Event::Done, Event::Signal(0), Event::Signal(1)] {
            steps.push(format!("{:?}", work.advance(&mut service, event)));
        }
        (steps, work)
    };
    assert_eq!(run(), run());
}

#[test]
fn numbers_are_printed_in_decimal() {
    for n in [0, 7, 10, 99, 100, 1_234_567_890, u64::MAX] {
        let mut text = String::from("n=");
        push_decimal(&mut text, n);
        assert_eq!(text, format!("n={n}"));
        assert_eq!(counter_line(n), format!("Counter {n}"));
    }
}

#[test]
fn reports_read_like_their_values() {
    let mut id = [0u8; 32];
    id[..6].copy_from_slice(b"task_b");
    let result = Ok(CallResult::DoSomethingR(u32::MAX));
    assert_eq!(
        report(&id, &result),
        format!("Task {id:?} returned: {:?}", CallResult::DoSomethingR(u32::MAX))
    );
    let error = messaging::CallError::ResultDecoding;
    assert_eq!(
        report(&id, &Err(error)),
        format!("Calling task {id:?} returned an error: {error:?}")
    );
}
