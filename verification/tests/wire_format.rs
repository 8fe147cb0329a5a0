use coreplay::messaging::{
    call_task, call_task_message, next_message, send_message, CallError, Message,
    MESSAGE_BUFFER_LEN, RESULT_BUFFER_LEN,
};
use coreplay::scale::{DecodeError, Scale};
use coreplay::task::{call, Call, CallResult};
use parity_scale_codec::{Decode, Encode};

fn some_id() -> [u8; 32] {
    let mut id = [0u8; 32];
    for (i, byte) in id.iter_mut().enumerate() {
        *byte = 100 + i as u8;
    }
    id
}

#[test]
fn messages_have_their_index_in_front() {
    assert_eq!(send_message(Message::Ping), vec![0]);
    assert_eq!(send_message(Message::Pong), vec![1]);
    let encoded = send_message(Message::Call(some_id()));
    assert_eq!(encoded.len(), 33);
    assert_eq!(encoded[0], 2);
    assert_eq!(&encoded[1..], &some_id()[..]);
    assert_eq!(encoded, (2u8, some_id()).encode());
}

#[test]
fn calls_are_an_index_and_a_little_endian_number() {
    let encoded = call_task_message(&Call::DoSomething(0x0403_0201));
    assert_eq!(encoded, vec![0, 1, 2, 3, 4]);
    assert_eq!(encoded, (0u8, 0x0403_0201u32).encode());
    assert_eq!(
        CallResult::DoSomethingR(0xfffe_0000).encode_bytes(),
        vec![0, 0, 0, 0xfe, 0xff]
    );
}

trait EncodeBytes {
    fn encode_bytes(&self) -> Vec<u8>;
}

impl<T: Scale> EncodeBytes for T {
    fn encode_bytes(&self) -> Vec<u8> {
        Scale::encode(self)
    }
}

#[test]
fn results_agree_with_the_codec() {
    let ok: Result<CallResult, CallError> = Ok(CallResult::DoSomethingR(258));
    let err: Result<CallResult, CallError> = Err(CallError::ResultDecoding);
    assert_eq!(ok.encode_bytes(), vec![0, 0, 2, 1, 0, 0]);
    assert_eq!(err.encode_bytes(), vec![1, 0]);
    let same_ok: Result<(u8, u32), u8> = Ok((0, 258));
    let same_err: Result<(u8, u32), u8> = Err(0);
    assert_eq!(ok.encode_bytes(), Encode::encode(&same_ok));
    assert_eq!(err.encode_bytes(), Encode::encode(&same_err));
    let read_back: Result<(u8, u32), u8> = Decode::decode(&mut &ok.encode_bytes()[..]).unwrap();
    assert_eq!(read_back, same_ok);
}

#[test]
fn decoding_inverts_encoding_and_leaves_the_rest() {
    let mut bytes = send_message(Message::Call(some_id()));
    bytes.extend_from_slice(&[9, 8, 7]);
    let (message, rest) = <Message as Scale>::decode(&bytes).unwrap();
    assert!(matches!(message, Message::Call(id) if id == some_id()));
    assert_eq!(rest, &[9, 8, 7]);

    let (value, rest) = <Call as Scale>::decode(&[0, 1, 2, 3, 4, 5]).unwrap();
    assert_eq!(value, Call::DoSomething(0x0403_0201));
    assert_eq!(rest, &[5]);

    let (value, rest) = <CallError as Scale>::decode(&[0, 1]).unwrap();
    assert_eq!(value, CallError::ResultDecoding);
    assert_eq!(rest, &[1]);
}

#[test]
fn what_is_no_message_is_reported() {
    assert_eq!(<Message as Scale>::decode(&[]).unwrap_err(), DecodeError::NotEnoughData);
    assert_eq!(<Message as Scale>::decode(&[3]).unwrap_err(), DecodeError::UnknownVariant);
    assert_eq!(
        <Message as Scale>::decode(&[2; 32]).unwrap_err(),
        DecodeError::NotEnoughData
    );
    assert!(<Message as Scale>::decode(&[2; 33]).is_ok());
}

#[test]
fn what_is_no_call_is_reported() {
    assert_eq!(call(&[]).unwrap_err(), DecodeError::NotEnoughData);
    assert_eq!(call(&[1, 0, 0, 0, 0]).unwrap_err(), DecodeError::UnknownVariant);
    assert_eq!(call(&[0, 0, 0, 0]).unwrap_err(), DecodeError::NotEnoughData);
    assert_eq!(
        <CallError as Scale>::decode(&[1]).unwrap_err(),
        DecodeError::UnknownVariant
    );
    assert_eq!(
        <CallError as Scale>::decode(&[]).unwrap_err(),
        DecodeError::NotEnoughData
    );
    let decoded = <Result<CallResult, CallError> as Scale>::decode(&[2]);
    assert_eq!(decoded.unwrap_err(), DecodeError::UnknownVariant);
    let decoded = <Result<CallResult, CallError> as Scale>::decode(&[]);
    assert_eq!(decoded.unwrap_err(), DecodeError::NotEnoughData);
    let decoded = <Result<CallResult, CallError> as Scale>::decode(&[0, 0, 1]);
    assert_eq!(decoded.unwrap_err(), DecodeError::NotEnoughData);
}

#[test]
fn equal_encodings_mean_equal_values() {
    let values = [
        send_message(Message::Ping),
        send_message(Message::Pong),
        send_message(Message::Call([0; 32])),
        send_message(Message::Call(some_id())),
    ];
    for (i, a) in values.iter().enumerate() {
        for (j, b) in values.iter().enumerate() {
            assert_eq!(a == b, i == j);
        }
    }
}

#[test]
fn every_message_fits_its_buffer() {
    for message in [Message::Ping, Message::Pong, Message::Call([255; 32])] {
        let len = send_message(message).len();
        assert!(0 < len && len <= MESSAGE_BUFFER_LEN);
    }
    assert_eq!(MESSAGE_BUFFER_LEN, 1024);
    assert_eq!(RESULT_BUFFER_LEN, 4096);
}

#[test]
fn no_message_is_no_message() {
    let buffer = vec![0u8; MESSAGE_BUFFER_LEN];
    assert!(matches!(next_message(&buffer, 0), Ok(None)));
}

#[test]
fn a_polled_message_is_decoded() {
    let mut buffer = vec![0u8; MESSAGE_BUFFER_LEN];
    buffer[0] = 1;
    assert!(matches!(next_message(&buffer, 1), Ok(Some(Message::Pong))));
    buffer[0] = 2;
    buffer[1..33].copy_from_slice(&some_id());
    assert!(matches!(next_message(&buffer, 33), Ok(Some(Message::Call(id))) if id == some_id()));
    assert!(matches!(next_message(&buffer, 32), Err(DecodeError::NotEnoughData)));
    buffer[0] = 77;
    assert!(matches!(next_message(&buffer, 33), Err(DecodeError::UnknownVariant)));
}

#[test]
fn the_answer_to_a_call_is_decoded() {
    let mut buffer = vec![0u8; RESULT_BUFFER_LEN];
    buffer[2] = 10;
    assert_eq!(
        call_task::<CallResult>(&buffer, 6),
        Ok(CallResult::DoSomethingR(10))
    );
    assert_eq!(
        call_task::<CallResult>(&buffer, 5),
        Err(CallError::ResultDecoding)
    );
    assert_eq!(
        call_task::<CallResult>(&buffer, 0),
        Err(CallError::ResultDecoding)
    );
    buffer[0] = 1;
    assert_eq!(
        call_task::<CallResult>(&buffer, 2),
        Err(CallError::ResultDecoding)
    );
    buffer[0] = 2;
    assert_eq!(
        call_task::<CallResult>(&buffer, 6),
        Err(CallError::ResultDecoding)
    );
}

#[test]
fn a_call_is_answered_as_a_success() {
    assert_eq!(call(&[0, 10, 0, 0, 0]).unwrap(), vec![0, 0, 10, 0, 0, 0]);
    assert_eq!(
        call(&[0, 0xff, 0xff, 0xff, 0xff, 42]).unwrap(),
        vec![0, 0, 0xff, 0xff, 0xff, 0xff]
    );
}

#[test]
fn numbers_and_ids_are_encoded_by_the_codec() {
    assert_eq!(0xabu8.encode_bytes(), vec![0xab]);
    assert_eq!(0x0403_0201u32.encode_bytes(), vec![1, 2, 3, 4]);
    assert_eq!(some_id().encode_bytes(), some_id().to_vec());
    let (value, rest) = <u8 as Scale>::decode(&[5, 6]).unwrap();
    assert_eq!((value, rest), (5, &[6u8][..]));
    let (value, rest) = <u32 as Scale>::decode(&[10, 0, 0, 0, 6]).unwrap();
    assert_eq!((value, rest), (10, &[6u8][..]));
    let (value, rest) = <[u8; 32] as Scale>::decode(&[3; 33]).unwrap();
    assert_eq!((value, rest), ([3; 32], &[3u8][..]));
    assert_eq!(<u8 as Scale>::decode(&[]).unwrap_err(), DecodeError::NotEnoughData);
    assert_eq!(<u32 as Scale>::decode(&[1, 2, 3]).unwrap_err(), DecodeError::NotEnoughData);
    assert_eq!(<[u8; 32] as Scale>::decode(&[3; 31]).unwrap_err(), DecodeError::NotEnoughData);
}

#[test]
fn a_short_answer_is_not_completed_from_the_buffer() {
    assert_eq!(call_task_message(&1u8), vec![1]);
    let mut buffer = vec![0u8; RESULT_BUFFER_LEN];
    buffer[1] = 10;
    assert_eq!(call_task::<u32>(&buffer, 4), Err(CallError::ResultDecoding));
    assert_eq!(call_task::<u32>(&buffer, 5), Ok(10));
}
