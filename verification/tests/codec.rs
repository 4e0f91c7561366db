use ypf_ruta::address::NodeAddr;
use ypf_ruta::codec::{
    deserialize_message, deserialize_operation, read_bytes, serialize_ack_message,
    serialize_charge_operation, serialize_coordinator_message, serialize_election_message,
    serialize_election_ok_message, serialize_limit_account_operation, serialize_log_message,
    serialize_message, serialize_request_message, serialize_socket_addr, WireMessage,
    WireOperation, NO_LIMIT,
};
use ypf_ruta::errors::{AppError, DecodeError};
use ypf_ruta::record::{deserialize_operation_record, serialize_operation_record, OperationRecord};

fn charge() -> WireOperation {
    WireOperation::Charge {
        account_id: 348,
        card_id: 34821,
        amount: 80500.53f32.to_bits(),
        from_offline_station: true,
    }
}

#[test]
fn test_serialize_charge_operation() {
    // The fields of the charge follow its type byte (0x00).
    let op_srl = serialize_charge_operation(348, 34821, 80500.53f32.to_bits(), true);
    let expected = [
        0x00, 0x00, 0x00, 0x00, 0x00, 0x00, 0x01, 0x5C, // 348
        0x00, 0x00, 0x00, 0x00, 0x00, 0x00, 0x88, 0x05, // 34821
        0x47, 0x9d, 0x3a, 0x44, // 80500.53 in IEEE 754 single precision
        0x01,
    ];
    assert_eq!(op_srl[0], 0x00);
    assert_eq!(op_srl[1..], expected);
}

#[test]
fn charge_operation_starts_with_its_type_byte() {
    let op_srl = serialize_charge_operation(348, 34821, 80500.53f32.to_bits(), true);
    assert_eq!(
        op_srl,
        vec![
            0x00, 0, 0, 0, 0, 0, 0, 0x01, 0x5C, 0, 0, 0, 0, 0, 0, 0x88, 0x05, 0x47, 0x9d, 0x3a,
            0x44, 0x01
        ]
    );
    assert_eq!(op_srl.len(), 22);
}

#[test]
fn limit_without_value_is_written_as_minus_one() {
    let srl = serialize_limit_account_operation(7, None);
    assert_eq!(srl, vec![0x02, 0, 0, 0, 0, 0, 0, 0, 7, 0xBF, 0x80, 0x00, 0x00]);
    assert_eq!(NO_LIMIT, (-1.0f32).to_bits());
}

#[test]
fn ack_message_is_type_then_big_endian_id() {
    assert_eq!(serialize_ack_message(0x01020304), vec![0x02, 0x01, 0x02, 0x03, 0x04]);
}

#[test]
fn request_message_puts_the_operation_last() {
    let addr = NodeAddr::v4(127, 0, 0, 1, 12345);
    let srl = serialize_request_message(1, addr, charge());
    let mut expected = vec![0x00, 0, 0, 0, 1, 127, 0, 0, 1, 0x30, 0x39];
    expected.extend(serialize_charge_operation(348, 34821, 80500.53f32.to_bits(), true));
    assert_eq!(srl, expected);
}

#[test]
fn election_messages_have_their_own_type_bytes() {
    let addr = NodeAddr::v4(10, 0, 0, 2, 5001);
    assert_eq!(
        serialize_election_message(7, addr),
        vec![0x03, 0, 0, 0, 0, 0, 0, 0, 7, 10, 0, 0, 2, 0x13, 0x89]
    );
    assert_eq!(serialize_election_ok_message(0x0102), vec![0x04, 0, 0, 0, 0, 0, 0, 0x01, 0x02]);
    assert_eq!(
        serialize_coordinator_message(9, addr),
        vec![0x05, 0, 0, 0, 0, 0, 0, 0, 9, 10, 0, 0, 2, 0x13, 0x89]
    );
}

#[test]
fn election_messages_round_trip() {
    let addr = NodeAddr::v4(10, 0, 0, 2, 5001);
    for msg in [
        WireMessage::Election { candidate_id: 7, candidate_addr: addr },
        WireMessage::ElectionOk { responder_id: 8 },
        WireMessage::Coordinator { leader_id: 9, leader_addr: addr },
    ] {
        assert_eq!(deserialize_message(&serialize_message(msg)), Ok(msg));
    }
}

#[test]
fn short_election_message_is_refused() {
    assert_eq!(
        deserialize_message(&[3u8, 0, 0, 0, 0, 0, 0, 0, 7, 10, 0, 0, 2, 0x13]),
        Err(AppError::InvalidProtocol { reason: DecodeError::NotEnoughBytes })
    );
}

#[test]
fn empty_payloads_are_refused() {
    assert_eq!(
        deserialize_message(&[]),
        Err(AppError::InvalidData { reason: DecodeError::NotEnoughBytes })
    );
    assert_eq!(
        deserialize_operation(&[]),
        Err(AppError::InvalidProtocol { reason: DecodeError::NotEnoughBytes })
    );
}

#[test]
fn request_message_round_trips() {
    let addr = NodeAddr::v4(127, 0, 0, 1, 12345);
    let msg = WireMessage::Request { op_id: 9, addr, op: charge() };
    let srl = serialize_message(msg);
    assert_eq!(deserialize_message(&srl), Ok(msg));
}

#[test]
fn log_message_round_trips() {
    let op = WireOperation::LimitCard { account_id: 1, card_id: 2, new_limit: Some(50.0f32.to_bits()) };
    let msg = WireMessage::Log { op_id: 3, op };
    let srl = serialize_log_message(3, op);
    assert_eq!(srl, serialize_message(msg));
    assert_eq!(deserialize_message(&srl), Ok(msg));
}

#[test]
fn limit_of_minus_one_reads_back_as_no_limit() {
    let op = WireOperation::LimitAccount { account_id: 5, new_limit: None };
    let srl = serialize_message(WireMessage::Log { op_id: 1, op });
    assert_eq!(deserialize_message(&srl), Ok(WireMessage::Log { op_id: 1, op }));
}

#[test]
fn read_bytes_copies_an_exact_range() {
    let payload = [1u8, 2, 3, 4, 5];
    assert_eq!(read_bytes(&payload, 1, 4, 3), Ok(vec![2, 3, 4]));
}

#[test]
fn read_bytes_refuses_a_short_or_wrong_range() {
    let payload = [1u8, 2, 3];
    let err = Err(AppError::InvalidData { reason: DecodeError::NotEnoughBytes });
    assert_eq!(read_bytes(&payload, 1, 5, 4), err);
    assert_eq!(read_bytes(&payload, 0, 2, 3), err);
    assert_eq!(read_bytes(&payload, 2, 1, 0), err);
}

#[test]
fn unknown_message_type_is_refused() {
    assert_eq!(
        deserialize_message(&[9u8, 0, 0, 0, 1]),
        Err(AppError::InvalidData { reason: DecodeError::UnknownMessageType { tag: 9 } })
    );
}

#[test]
fn short_ack_is_refused() {
    assert_eq!(
        deserialize_message(&[2u8, 0, 0]),
        Err(AppError::InvalidProtocol { reason: DecodeError::NotEnoughBytes })
    );
}

#[test]
fn unknown_operation_type_is_refused() {
    assert_eq!(
        deserialize_operation(&[7u8, 1, 2]),
        Err(AppError::InvalidProtocol { reason: DecodeError::UnknownOperationType { tag: 7 } })
    );
}

#[test]
fn operation_of_wrong_length_is_refused() {
    assert_eq!(
        deserialize_operation(&[0u8, 1, 2, 3]),
        Err(AppError::InvalidProtocol { reason: DecodeError::WrongLength { tag: 0, len: 3 } })
    );
}

#[test]
fn bad_offline_flag_is_refused() {
    let mut srl = serialize_charge_operation(1, 2, 3, false);
    let last = srl.len() - 1;
    srl[last] = 7;
    assert_eq!(
        deserialize_operation(&srl),
        Err(AppError::InvalidProtocol { reason: DecodeError::InvalidOfflineFlag { value: 7 } })
    );
}

#[test]
fn ipv6_address_cannot_be_written() {
    let addr = NodeAddr { ip: ypf_ruta::address::IpAddress::V6(0, 0, 0, 0, 0, 0, 0, 1), port: 1 };
    assert_eq!(
        serialize_socket_addr(addr),
        Err(AppError::InvalidProtocol { reason: DecodeError::NotIpv4 })
    );
}

#[test]
fn test_serialize_operation() {
    let op = OperationRecord { id: 126, account_id: 348, card_id: 34821, amount: 80500.53f32.to_bits() };

    let op_srl: Vec<u8> = serialize_operation_record(op);
    let expected = [
        0x00, 0x00, 0x00, 0x7E, // 126
        0x00, 0x00, 0x00, 0x00, 0x00, 0x00, 0x01, 0x5C, // 348
        0x00, 0x00, 0x00, 0x00, 0x00, 0x00, 0x88, 0x05, // 34821
        0x47, 0x9d, 0x3a, 0x44, // 80500.53 in IEEE 754 single precision
    ];
    assert_eq!(op_srl, expected);
}

#[test]
fn deserialize_opeartion() {
    let op_srl = [
        0x00, 0x00, 0x00, 0x7E, // 126
        0x00, 0x00, 0x00, 0x00, 0x00, 0x00, 0x01, 0x5C, // 348
        0x00, 0x00, 0x00, 0x00, 0x00, 0x00, 0x88, 0x05, // 34821
        0x47, 0x9d, 0x3a, 0x44, // 80500.53 in IEEE 754 single precision
    ];
    let expected = OperationRecord { id: 126, account_id: 348, card_id: 34821, amount: 80500.53f32.to_bits() };
    let op = deserialize_operation_record(&op_srl[..]).unwrap();
    assert_eq!(op, expected);
    assert_eq!(f32::from_bits(op.amount), 80500.53f32);
}

#[test]
fn short_record_is_refused() {
    assert_eq!(
        deserialize_operation_record(&[0u8; 23]),
        Err(AppError::InvalidData { reason: DecodeError::NotEnoughBytes })
    );
}
