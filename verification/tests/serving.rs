use coreplay::executor::{create_task, Task};
use coreplay::host::{self, TaskRequest};
use coreplay::memory::write_memory;
use coreplay::messaging::{self, RESULT_BUFFER_LEN};
use coreplay::serving::{accept_request, ServeAction, ServeEvent, ServeFailure, Serving};
use coreplay::task::{call, pack_ptr_and_len, Call, CallResult};

fn task(name: &str) -> Task {
    create_task(name.to_string()).unwrap()
}

fn accept(bytes: Vec<u8>) -> Serving {
    let task_b = task("task_b");
    let request = TaskRequest::Call { target: task_b.task_id, call: bytes };
    accept_request(request, &task_b).unwrap().1
}

#[test]
fn only_the_target_takes_a_request_on() {
    let task_b = task("task_b");
    let request = TaskRequest::Call { target: task("task_a").task_id, call: vec![1] };
    assert!(accept_request(request, &task_b).is_none());
    let mut almost = task_b.task_id;
    almost[31] = 1;
    let request = TaskRequest::Call { target: almost, call: vec![1] };
    assert!(accept_request(request, &task_b).is_none());
    let request = TaskRequest::Call { target: task_b.task_id, call: vec![1, 2] };
    let (action, serving) = accept_request(request, &task_b).unwrap();
    assert!(matches!(action, ServeAction::Allocate { len: 2 }));
    assert!(matches!(serving, Serving::Allocating(call) if call == [1, 2]));
}

#[test]
fn a_call_is_placed_inside_of_the_memory() {
    let mut memory = vec![0u8; 4];
    let (result, serving) = accept(vec![1, 2]).advance(ServeEvent::Allocated(3), &mut memory);
    assert_eq!(result.unwrap_err(), ServeFailure::OutOfBounds);
    assert!(matches!(serving, Serving::Failed));
    assert_eq!(memory, vec![0; 4]);
    let (result, _) = accept(vec![1, 2]).advance(ServeEvent::Allocated(2), &mut memory);
    assert!(matches!(result, Ok(ServeAction::Call { ptr: 2, len: 2 })));
    assert_eq!(memory, vec![0, 0, 1, 2]);
}

#[test]
fn an_answer_is_read_inside_of_the_memory() {
    for (packed, inside) in [(pack_ptr_and_len(3, 2), false), (pack_ptr_and_len(1, 3), true)] {
        let mut memory = vec![5u8; 4];
        let (_, serving) = accept(vec![1]).advance(ServeEvent::Allocated(1), &mut memory);
        let (result, serving) = serving.advance(ServeEvent::Returned(packed), &mut memory);
        assert!(matches!(result, Ok(ServeAction::Free { ptr: 1, len: 1 })));
        let (result, serving) = serving.advance(ServeEvent::Freed, &mut memory);
        if inside {
            assert!(matches!(result, Ok(ServeAction::Free { ptr: 1, len: 3 })));
            assert!(matches!(serving, Serving::FreeingAnswer(answer) if answer == [1, 5, 5]));
        } else {
            assert_eq!(result.unwrap_err(), ServeFailure::OutOfBounds);
            assert!(matches!(serving, Serving::Failed));
        }
    }
}

#[test]
fn what_is_out_of_turn_fails_for_good() {
    let mut memory = vec![0u8; 8];
    let (result, serving) = accept(vec![1]).advance(ServeEvent::Freed, &mut memory);
    assert_eq!(result.unwrap_err(), ServeFailure::OutOfTurn);
    let (result, serving) = serving.advance(ServeEvent::Allocated(0), &mut memory);
    assert_eq!(result.unwrap_err(), ServeFailure::OutOfTurn);
    assert!(matches!(serving, Serving::Failed));
    assert_eq!(memory, vec![0; 8]);
}

#[test]
fn both_blocks_are_freed_once() {
    let mut memory = vec![0u8; 16];
    let mut serving = accept(vec![7, 8, 9]);
    let mut freed = Vec::new();
    let mut answers = Vec::new();
    for event in [
        ServeEvent::Allocated(4),
        ServeEvent::Returned(pack_ptr_and_len(10, 2)),
        ServeEvent::Freed,
        ServeEvent::Freed,
        ServeEvent::Freed,
        ServeEvent::Allocated(4),
    ] {
        if matches!(event, ServeEvent::Returned(_)) {
            write_memory(&mut memory, 10, &[42, 43]);
        }
        let (result, next) = serving.advance(event, &mut memory);
        serving = next;
        match result {
            Ok(ServeAction::Free { ptr, len }) => freed.push((ptr, len)),
            Ok(ServeAction::Answer(answer)) => answers.push(answer),
            _ => {}
        }
    }
    assert_eq!(freed, vec![(4, 3), (10, 2)]);
    assert_eq!(answers, vec![vec![42, 43]]);
    assert_eq!(memory[4..7], [7, 8, 9]);
}

#[test]
fn a_call_comes_back_with_its_answer() {
    let task_b = task("task_b");
    let mut calling = vec![0u8; 8192];
    let mut called = vec![0u8; 128];

    // The calling task passes its call, and the host makes a request of it.
    let encoded = messaging::call_task_message(&Call::DoSomething(10));
    write_memory(&mut calling, 16, &task_b.task_id);
    write_memory(&mut calling, 48, &encoded);
    let request = host::call_task(&calling, 16, 48, encoded.len() as u32, 1024).unwrap();

    // The called task answers.
    let (mut action, mut serving) = accept_request(request, &task_b).unwrap();
    let answer = loop {
        let event = match action {
            ServeAction::Allocate { .. } => ServeEvent::Allocated(32),
            ServeAction::Call { ptr, len } => {
                let start = ptr as usize;
                let answer = call(&called[start..start + len as usize]).unwrap();
                write_memory(&mut called, 64, &answer);
                ServeEvent::Returned(pack_ptr_and_len(64, answer.len() as u32))
            }
            ServeAction::Free { .. } => ServeEvent::Freed,
            ServeAction::Answer(answer) => break answer,
        };
        let (result, next) = serving.advance(event, &mut called);
        action = result.unwrap();
        serving = next;
    };

    // The calling task gets the answer.
    let len = host::call_task_result(&mut calling, 1024, &answer).unwrap();
    let buffer = &calling[1024..1024 + RESULT_BUFFER_LEN];
    assert_eq!(
        messaging::call_task::<CallResult>(buffer, len),
        Ok(CallResult::DoSomethingR(10))
    );
}
