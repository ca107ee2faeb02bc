use netbench::{
    association_wire_bytes, decode_association, decode_new_test, encode_association,
    encode_new_test, frame_message, new_test_wire_bytes, parse_header, Direction, EndCondition,
    MessageType, NBError, NewTestMessage, Protocol, TCPTestInfo, TestAssociationMessage,
    TestDuration, CONTROL_MSG_SIZE,
};

fn sample_code() -> [u8; 32] {
    let mut code = [0u8; 32];
    let mut i = 0usize;
    while i < 32 {
        code[i] = i as u8;
        i += 1;
    }
    code
}

fn sample_message() -> NewTestMessage {
    NewTestMessage {
        direction: Direction::ClientToServer,
        protocol: Protocol::TCP(TCPTestInfo { recv_buf_size: 1, send_buf_size: 2 }),
        bw: 5,
        code: sample_code(),
        end_condition: EndCondition::Time(TestDuration { secs: 3, nanos: 0 }),
    }
}

#[test]
fn test_encode_new_test_exact_bytes() {
    let body = encode_new_test(&sample_message());
    let expected = r#"{"direction":"clientToServer","protocol":{"tcp":{"recvBufSize":1,"sendBufSize":2}},"bw":5,"code":[0,1,2,3,4,5,6,7,8,9,10,11,12,13,14,15,16,17,18,19,20,21,22,23,24,25,26,27,28,29,30,31],"endCondition":{"time":{"secs":3,"nanos":0}}}"#;
    assert_eq!(body, expected.as_bytes().to_vec());
}

#[test]
fn test_new_test_round_trip_all_variants() {
    let directions = [
        Direction::ClientToServer,
        Direction::ServerToClient,
        Direction::Bidirectional,
    ];
    let protocols = [
        Protocol::TCP(TCPTestInfo { recv_buf_size: 131072, send_buf_size: u64::MAX }),
        Protocol::UDP,
        Protocol::DCCP,
        Protocol::SCTP,
    ];
    let ends = [
        EndCondition::Time(TestDuration { secs: 10, nanos: 999_999_999 }),
        EndCondition::Bytes(u64::MAX),
        EndCondition::Bytes(0),
    ];
    for direction in directions {
        for protocol in protocols {
            for end_condition in ends {
                let m = NewTestMessage {
                    direction,
                    protocol,
                    bw: 123_456_789,
                    code: sample_code(),
                    end_condition,
                };
                let body = encode_new_test(&m);
                let back = decode_new_test(&body).expect("canonical body must decode");
                assert_eq!(back, m);
            }
        }
    }
}

#[test]
fn test_association_round_trip() {
    let a = TestAssociationMessage { code: sample_code() };
    let body = encode_association(&a);
    let expected = r#"{"code":[0,1,2,3,4,5,6,7,8,9,10,11,12,13,14,15,16,17,18,19,20,21,22,23,24,25,26,27,28,29,30,31]}"#;
    assert_eq!(body, expected.as_bytes().to_vec());
    let back = decode_association(&body).expect("canonical body must decode");
    assert_eq!(back.code, a.code);
}

#[test]
fn test_decode_rejects_malformed() {
    assert!(decode_new_test(b"{}").is_none());
    assert!(decode_new_test(b"").is_none());
    assert!(decode_association(b"{\"code\":[1]}").is_none());
    // a field out of range: code element above 255
    assert!(decode_association(
        br#"{"code":[999,1,2,3,4,5,6,7,8,9,10,11,12,13,14,15,16,17,18,19,20,21,22,23,24,25,26,27,28,29,30,31]}"#
    )
    .is_none());
    // trailing bytes after a valid body are rejected
    let mut body = encode_association(&TestAssociationMessage { code: sample_code() });
    body.push(b' ');
    assert!(decode_association(&body).is_none());
}

#[test]
fn test_framing_layout() {
    let body: Vec<u8> = vec![97, 98, 99];
    let framed = frame_message(0x4142, &body);
    assert_eq!(framed, vec![0x41, 0x42, 0, 0, 0, 3, 97, 98, 99]);
    assert_eq!(framed.len(), body.len() + CONTROL_MSG_SIZE);
}

#[test]
fn test_wire_bytes_have_header_and_length() {
    let m = sample_message();
    let body = encode_new_test(&m);
    let wire = new_test_wire_bytes(&m);
    assert_eq!(wire.len(), body.len() + 6);
    assert_eq!(&wire[0..2], &[0x00, 0x00]);
    let len = u32::from_be_bytes([wire[2], wire[3], wire[4], wire[5]]) as usize;
    assert_eq!(len, body.len());
    assert_eq!(&wire[6..], &body[..]);
    match parse_header(&wire[0..6]) {
        Ok(MessageType::NewTest(l)) => assert_eq!(l, body.len()),
        other => panic!("unexpected header: {other:?}"),
    }

    let a = TestAssociationMessage { code: sample_code() };
    let wire = association_wire_bytes(&a);
    assert_eq!(&wire[0..2], &[0x00, 0x03]);
    match parse_header(&wire[0..6]) {
        Ok(MessageType::TestAssociation(l)) => {
            assert_eq!(l, encode_association(&a).len())
        },
        other => panic!("unexpected header: {other:?}"),
    }
}

#[test]
fn test_parse_header_ids() {
    assert!(matches!(
        parse_header(&[0, 0, 0, 0, 0, 5]),
        Ok(MessageType::NewTest(5))
    ));
    assert!(matches!(
        parse_header(&[0, 1, 0, 0, 0, 0]),
        Ok(MessageType::CancelTest(0))
    ));
    assert!(matches!(
        parse_header(&[0, 2, 0, 0, 1, 0]),
        Ok(MessageType::MsgError(256))
    ));
    assert!(matches!(
        parse_header(&[0, 3, 0, 0, 0, 7]),
        Ok(MessageType::TestAssociation(7))
    ));
    assert!(matches!(
        parse_header(&[0xFF, 0xFF, 0, 0, 0, 0]),
        Ok(MessageType::Close(0))
    ));
    assert!(matches!(
        parse_header(&[0, 4, 0, 0, 0, 0]),
        Err(NBError::InvalidMessageType(4))
    ));
    assert!(matches!(
        parse_header(&[0x12, 0x34, 0, 0, 0, 0]),
        Err(NBError::InvalidMessageType(0x1234))
    ));
}

#[test]
fn test_message_type_new() {
    assert!(matches!(MessageType::new(0, 9), Ok(MessageType::NewTest(9))));
    assert!(matches!(
        MessageType::new(0xFFFF, 1),
        Ok(MessageType::Close(1))
    ));
    assert!(matches!(
        MessageType::new(0x17, 1),
        Err(NBError::InvalidMessageType(0x17))
    ));
}

#[test]
fn test_generate_carries_parameters() {
    let m = NewTestMessage::generate(
        Direction::Bidirectional,
        Protocol::UDP,
        77,
        EndCondition::Bytes(9),
    );
    assert_eq!(m.direction, Direction::Bidirectional);
    assert_eq!(m.protocol, Protocol::UDP);
    assert_eq!(m.bw, 77);
    assert_eq!(m.end_condition, EndCondition::Bytes(9));
    let a = m.association();
    assert_eq!(a.code, m.code);
}
