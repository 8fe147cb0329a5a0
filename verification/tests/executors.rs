use coreplay::executor::{
    create_task, deliver_messages, end_time_slice, run_task, Slot, Task, TaskFunction,
    TIME_SLICE_MS,
};
use coreplay::host;
use coreplay::messaging::Message;
use coreplay::service::Service;

fn task(name: &str) -> Task {
    create_task(name.to_string()).unwrap()
}

#[test]
fn a_task_starts_out_empty() {
    let task_a = task("task_a");
    assert_eq!(task_a.name, "task_a");
    assert_eq!(task_a.store_data.name, "task_a");
    assert_eq!(task_a.store_data.messages.len(), 0);
    assert_eq!(task_a.store_data.messages_to_send.len(), 0);
    assert!(!task_a.store_data.should_yield);
}

#[test]
fn an_id_is_the_name_and_zeros() {
    let task_b = task("task_b");
    let mut id = [0u8; 32];
    id[..6].copy_from_slice(b"task_b");
    assert_eq!(task_b.task_id, id);
    assert_eq!(task("").task_id, [0; 32]);
}

#[test]
fn a_name_has_to_fit_an_id() {
    assert_eq!(task(&"x".repeat(32)).task_id, [b'x'; 32]);
    assert!(create_task("x".repeat(33)).is_none());
    assert!(create_task("\u{e9}".repeat(16)).is_some());
    assert!(create_task("\u{e9}".repeat(17)).is_none());
}

#[test]
fn ids_are_distinct() {
    assert_ne!(task("task_a").task_id, task("task_b").task_id);
    assert_ne!(task("task").task_id, task("task_a").task_id);
    assert_eq!(task("task").task_id, task("task\0").task_id);
    assert_eq!(task("").task_id, task("\0\0").task_id);
    assert_ne!(task("task\0").task_id, task("task\0a").task_id);
}

#[test]
fn a_task_keeps_its_name_and_id() {
    let mut task_a = task("task_a");
    let id = task_a.task_id;
    let mut service = Slot::new(());
    task_a.send_message(Message::Ping);
    task_a.set_yield(true);
    task_a.drain_messages_to_send();
    run_task(&mut task_a, &mut service);
    assert_eq!(task_a.task_id, id);
    assert_eq!(task_a.name, "task_a");
    assert_eq!(task_a.store_data.name, "task_a");
    assert_eq!(task_a.store_data.messages.len(), 1);
}

#[test]
fn a_task_yields_when_it_is_asked_to() {
    let mut task_a = task("task_a");
    let mut service = Service::new();
    service.begin();
    assert!(!service.maybe_yield(host::should_yield(&task_a.store_data)));
    task_a.set_yield(true);
    assert!(service.maybe_yield(host::should_yield(&task_a.store_data)));
    assert!(service.yielded);
}

#[test]
fn messages_are_drained_in_order() {
    let mut sender = task("sender");
    let memory = [9u8, 0, 1];
    host::send_message(&mut sender.store_data, &memory, 1, 1).unwrap();
    host::send_message(&mut sender.store_data, &memory, 2, 1).unwrap();
    let messages = sender.drain_messages_to_send();
    assert!(matches!(messages[..], [Message::Ping, Message::Pong]));
    assert_eq!(sender.drain_messages_to_send().len(), 0);
}

#[test]
fn messages_are_passed_on() {
    let mut sender = task("sender");
    let mut receiver = task("receiver");
    receiver.send_message(Message::Call([1; 32]));
    let memory = [9u8, 0, 1];
    host::send_message(&mut sender.store_data, &memory, 1, 1).unwrap();
    host::send_message(&mut sender.store_data, &memory, 2, 1).unwrap();
    deliver_messages(&mut sender, &mut receiver);
    assert_eq!(sender.store_data.messages_to_send.len(), 0);
    assert!(matches!(
        receiver.store_data.messages[..],
        [Message::Call(_), Message::Ping, Message::Pong]
    ));
    deliver_messages(&mut sender, &mut receiver);
    assert_eq!(receiver.store_data.messages.len(), 3);
}

#[test]
fn a_task_is_run_by_one_at_a_time() {
    let mut scheduled = task("scheduled");
    scheduled.set_yield(true);
    let mut service = Slot::new("service");
    assert_eq!(run_task(&mut scheduled, &mut service), Some("service"));
    assert!(!scheduled.store_data.should_yield);
    assert_eq!(run_task(&mut scheduled, &mut service), None);
    service.finish(TaskFunction::Service, "service", true);
    assert_eq!(service.take(), Some("service"));
    assert_eq!(service.take(), None);
    assert_eq!(TIME_SLICE_MS, 100);
}

#[test]
fn only_freeing_can_be_repeated_after_a_failure() {
    for which in [
        TaskFunction::Service,
        TaskFunction::Call,
        TaskFunction::AllocateMemory,
        TaskFunction::FreeMemory,
    ] {
        let mut slot = Slot::new(7);
        let function = slot.take().unwrap();
        slot.finish(which, function, true);
        let function = slot.take().unwrap();
        slot.finish(which, function, false);
        let left = slot.take();
        assert_eq!(left, if which == TaskFunction::FreeMemory { Some(7) } else { None });
    }
}

#[test]
fn the_signal_stands_from_the_end_of_the_slice_until_the_next_run() {
    let mut task_a = task("task_a");
    let mut task_b = task("task_b");
    let mut service = Slot::new(());
    let memory = &mut [0u8; 2048][..];
    run_task(&mut task_a, &mut service);
    task_a.send_message(Message::Pong);
    assert_eq!(host::should_yield(&task_a.store_data), 0);
    end_time_slice(&mut task_a);
    assert_eq!(host::should_yield(&task_a.store_data), 1);
    task_a.send_message(Message::Ping);
    host::next_message(&mut task_a.store_data, memory, 8).unwrap();
    host::send_message(&mut task_a.store_data, memory, 8, 1).unwrap();
    host::send_message(&mut task_b.store_data, memory, 8, 1).unwrap();
    deliver_messages(&mut task_a, &mut task_b);
    deliver_messages(&mut task_b, &mut task_a);
    assert_eq!(host::should_yield(&task_a.store_data), 1);
    assert_eq!(host::should_yield(&task_b.store_data), 0);
    assert_eq!(task_a.name, "task_a");
    assert_eq!(task_a.store_data.messages.len(), 2);
    run_task(&mut task_a, &mut service);
    assert_eq!(host::should_yield(&task_a.store_data), 0);
}
