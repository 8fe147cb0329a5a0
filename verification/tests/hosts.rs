use coreplay::executor::{create_task, Task};
use coreplay::host::{
    call_task, call_task_result, next_message, print, send_message, should_yield, HostError,
    StoreData, TaskRequest,
};
use coreplay::memory::{fits, read_memory, write_memory};
use coreplay::messaging::{self, Message, MESSAGE_BUFFER_LEN};
use coreplay::scale::DecodeError;

fn task(name: &str) -> Task {
    create_task(name.to_string()).unwrap()
}

fn store() -> StoreData {
    task("store").store_data
}

#[test]
fn a_write_is_read_back_and_touches_nothing_else() {
    let mut memory = vec![9u8; 16];
    write_memory(&mut memory, 4, &[1, 2, 3]);
    assert_eq!(read_memory(&memory, 4, 3), vec![1, 2, 3]);
    assert_eq!(read_memory(&memory, 0, 4), vec![9; 4]);
    assert_eq!(read_memory(&memory, 7, 9), vec![9; 9]);
    assert_eq!(memory.len(), 16);
}

#[test]
fn bounds_are_exact() {
    let memory = [0u8; 16];
    assert!(fits(&memory, 0, 16));
    assert!(fits(&memory, 16, 0));
    assert!(fits(&memory, 15, 1));
    assert!(!fits(&memory, 15, 2));
    assert!(!fits(&memory, 17, 0));
    assert!(!fits(&memory, u32::MAX, usize::MAX));
    assert_eq!(read_memory(&memory, 16, 0), Vec::<u8>::new());
}

#[test]
fn the_last_message_is_handed_out_first() {
    let mut receiver = task("receiver");
    receiver.send_message(Message::Ping);
    receiver.send_message(Message::Call([7; 32]));
    let mut memory = vec![0u8; 64];

    let delivery = next_message(&mut receiver.store_data, &mut memory, 8).unwrap();
    assert_eq!(delivery.len, 33);
    assert!(matches!(delivery.message, Some(Message::Call(id)) if id == [7; 32]));
    assert_eq!(memory[8], 2);
    assert_eq!(&memory[9..41], &[7; 32]);
    assert_eq!(memory[41], 0);

    let delivery = next_message(&mut receiver.store_data, &mut memory, 8).unwrap();
    assert_eq!(delivery.len, 1);
    assert!(matches!(delivery.message, Some(Message::Ping)));
    assert_eq!(memory[8], 0);

    let delivery = next_message(&mut receiver.store_data, &mut memory, 8).unwrap();
    assert_eq!(delivery.len, 0);
    assert!(delivery.message.is_none());
}

#[test]
fn a_refused_poll_keeps_the_message() {
    let mut receiver = task("receiver");
    receiver.send_message(Message::Call([7; 32]));
    let mut memory = vec![0u8; 40];
    assert_eq!(
        next_message(&mut receiver.store_data, &mut memory, 0).unwrap_err(),
        HostError::InvalidArgument
    );
    assert_eq!(
        next_message(&mut receiver.store_data, &mut memory, 8).unwrap_err(),
        HostError::OutOfBounds
    );
    assert_eq!(receiver.store_data.messages.len(), 1);
    assert_eq!(memory, vec![0; 40]);
    assert!(next_message(&mut receiver.store_data, &mut memory, 7).is_ok());
}

#[test]
fn a_message_reaches_the_task() {
    let mut receiver = task("receiver");
    receiver.send_message(Message::Call([3; 32]));
    let mut memory = vec![0xeeu8; 2048];
    let delivery = next_message(&mut receiver.store_data, &mut memory, 100).unwrap();
    let buffer = &memory[100..100 + MESSAGE_BUFFER_LEN];
    let message = messaging::next_message(buffer, delivery.len).unwrap();
    assert!(matches!(message, Some(Message::Call(id)) if id == [3; 32]));
}

#[test]
fn a_message_reaches_the_host() {
    let mut sender = store();
    let encoded = messaging::send_message(Message::Call([4; 32]));
    let mut memory = vec![0u8; 64];
    write_memory(&mut memory, 10, &encoded);
    let message = send_message(&mut sender, &memory, 10, encoded.len() as u32).unwrap();
    assert!(matches!(message, Message::Call(id) if id == [4; 32]));
    assert_eq!(sender.messages_to_send.len(), 1);
    assert_eq!(sender.messages.len(), 0);
    assert!(matches!(sender.messages_to_send[0], Message::Call(id) if id == [4; 32]));
}

#[test]
fn what_cannot_be_sent_is_refused() {
    let mut sender = store();
    let memory = [0u8, 3, 2, 0];
    assert_eq!(
        send_message(&mut sender, &memory, 0, 1).unwrap_err(),
        HostError::InvalidArgument
    );
    assert_eq!(
        send_message(&mut sender, &memory, 1, 0).unwrap_err(),
        HostError::InvalidArgument
    );
    assert_eq!(
        send_message(&mut sender, &memory, 3, 2).unwrap_err(),
        HostError::OutOfBounds
    );
    assert_eq!(
        send_message(&mut sender, &memory, 1, 1).unwrap_err(),
        HostError::MessageDecoding(DecodeError::UnknownVariant)
    );
    assert_eq!(
        send_message(&mut sender, &memory, 2, 2).unwrap_err(),
        HostError::MessageDecoding(DecodeError::NotEnoughData)
    );
    assert_eq!(sender.messages_to_send.len(), 0);
    assert!(matches!(send_message(&mut sender, &memory, 3, 1), Ok(Message::Ping)));
}

#[test]
fn text_is_printed_as_it_is() {
    let text = "Counter 100000000 \u{2714} \u{1f3c1}";
    let mut memory = vec![0u8; 64];
    write_memory(&mut memory, 1, text.as_bytes());
    assert_eq!(print(&memory, 1, text.len() as u32).unwrap(), text);
}

#[test]
fn what_cannot_be_printed_is_refused() {
    let memory = [b'a', b'b', 0xff, 0xe2];
    assert_eq!(print(&memory, 0, 1).unwrap_err(), HostError::InvalidArgument);
    assert_eq!(print(&memory, 1, 0).unwrap_err(), HostError::InvalidArgument);
    assert_eq!(print(&memory, 1, 4).unwrap_err(), HostError::OutOfBounds);
    assert_eq!(print(&memory, 2, 1).unwrap_err(), HostError::InvalidUtf8);
    assert_eq!(print(&memory, 3, 1).unwrap_err(), HostError::InvalidUtf8);
    assert_eq!(print(&memory, 1, 1).unwrap(), "b");
}

#[test]
fn the_yield_signal_follows_the_request() {
    let mut scheduled = task("scheduled");
    assert_eq!(should_yield(&scheduled.store_data), 0);
    scheduled.set_yield(true);
    assert_eq!(should_yield(&scheduled.store_data), 1);
    scheduled.set_yield(false);
    assert_eq!(should_yield(&scheduled.store_data), 0);
}

#[test]
fn a_call_of_a_task_becomes_a_request() {
    let mut memory = vec![0u8; 80];
    write_memory(&mut memory, 1, &[6; 32]);
    write_memory(&mut memory, 40, &[0, 10, 0, 0, 0]);
    let TaskRequest::Call { target, call } = call_task(&memory, 1, 40, 5, 60).unwrap();
    assert_eq!(target, [6; 32]);
    assert_eq!(call, vec![0, 10, 0, 0, 0]);
}

#[test]
fn what_is_no_call_of_a_task_is_refused() {
    let memory = vec![0u8; 80];
    for (target, call_ptr, call_len, result_ptr) in
        [(0, 40, 5, 60), (1, 0, 5, 60), (1, 40, 0, 60), (1, 40, 5, 0)]
    {
        assert_eq!(
            call_task(&memory, target, call_ptr, call_len, result_ptr).unwrap_err(),
            HostError::InvalidArgument
        );
    }
    assert_eq!(call_task(&memory, 49, 40, 5, 60).unwrap_err(), HostError::OutOfBounds);
    assert_eq!(call_task(&memory, 1, 76, 5, 60).unwrap_err(), HostError::OutOfBounds);
    assert!(call_task(&memory, 48, 75, 5, 60).is_ok());
}

#[test]
fn the_result_of_a_call_is_written() {
    let mut memory = vec![0u8; 8];
    assert_eq!(call_task_result(&mut memory, 2, &[1, 2, 3]), Ok(3));
    assert_eq!(memory, vec![0, 0, 1, 2, 3, 0, 0, 0]);
    assert_eq!(
        call_task_result(&mut memory, 6, &[1, 2, 3]),
        Err(HostError::OutOfBounds)
    );
    assert_eq!(memory, vec![0, 0, 1, 2, 3, 0, 0, 0]);
}
