use mcexport::protocol::exchange::{
    execute_ping, retrieve_status, HandshakeInfo, PingProgress, Response, StatusProgress, Step,
};
use mcexport::protocol::packet::{
    HandshakePacket, InboundPacket, OutboundPacket, Packet, PingPacket, PongPacket, StatusRequestPacket,
    StatusResponsePacket,
};
use mcexport::protocol::reader::Reader;
use mcexport::protocol::state::State;
use mcexport::protocol::{fixed, packet, varint, Error, Field, IoError};

fn varint_of(value: usize) -> Vec<u8> {
    let mut buffer: Vec<u8> = Vec::new();
    varint::write_varint(&mut buffer, value);
    buffer
}

#[test]
fn packet_ids_valid() {
    assert_eq!(HandshakePacket::get_packet_id(), 0x00);
    assert_eq!(StatusRequestPacket::get_packet_id(), 0x00);
    assert_eq!(StatusResponsePacket::get_packet_id(), 0x00);
    assert_eq!(PingPacket::get_packet_id(), 0x01);
    assert_eq!(PongPacket::get_packet_id(), 0x01);
}

#[test]
fn serialize_handshake() {
    let packet = HandshakePacket::new(13, "test".to_string(), 5);
    let mut packet_buffer: Vec<u8> = Vec::new();
    packet.write_to_buffer(&mut packet_buffer);
    let mut buffer = Reader::new(&packet_buffer);

    let version = buffer.read_varint().unwrap();
    assert_eq!(version as isize, packet.protocol_version);

    let server_address = buffer.read_string().unwrap();
    assert_eq!(server_address, packet.server_address);

    let server_port = buffer.read_exact(2).unwrap();
    assert_eq!(u16::from_be_bytes([server_port[0], server_port[1]]), packet.server_port);

    let state = buffer.read_varint().unwrap();
    assert_eq!(state, usize::from(packet.next_state));

    assert_eq!(buffer.remaining(), 0, "There are remaining bytes in the buffer");
}

#[test]
fn serialize_status_request() {
    let packet = StatusRequestPacket::new();
    let mut packet_buffer: Vec<u8> = Vec::new();
    packet.write_to_buffer(&mut packet_buffer);

    assert_eq!(packet_buffer.len(), 0, "There are remaining bytes in the buffer");
}

#[test]
fn deserialize_status_response() {
    let body = "{\"some\": \"values\"}";

    let mut buffer: Vec<u8> = Vec::new();
    packet::write_string(&mut buffer, body);
    let mut read_buffer = Reader::new(&buffer);
    let packet = StatusResponsePacket::new_from_buffer(&mut read_buffer).unwrap();
    assert_eq!(packet.body, body);

    assert_eq!(read_buffer.remaining(), 0, "There are remaining bytes in the buffer");
}

#[test]
fn serialize_ping() {
    let packet = PingPacket::new(17);
    let mut packet_buffer: Vec<u8> = Vec::new();
    packet.write_to_buffer(&mut packet_buffer);
    let mut buffer = Reader::new(&packet_buffer);

    let payload = buffer.read_u64().unwrap();
    assert_eq!(payload, packet.payload);

    assert_eq!(buffer.remaining(), 0, "There are remaining bytes in the buffer");
}

#[test]
fn deserialize_pong() {
    let payload = 11u64;

    let mut buffer: Vec<u8> = Vec::new();
    fixed::write_u64(&mut buffer, payload);
    let mut read_buffer = Reader::new(&buffer);
    let packet = PongPacket::new_from_buffer(&mut read_buffer).unwrap();
    assert_eq!(packet.payload, payload);

    assert_eq!(read_buffer.remaining(), 0, "There are remaining bytes in the buffer");
}

#[test]
fn write_packet() {
    let packet = PingPacket::new(17);
    let mut writer: Vec<u8> = Vec::new();
    packet::write_packet(&mut writer, packet);
    let mut buffer = Reader::new(&writer);

    let length = buffer.read_varint().unwrap();
    assert_eq!(length, 9);

    let packet_id = buffer.read_varint().unwrap();
    assert_eq!(packet_id, 0x01);

    let payload = buffer.read_u64().unwrap();
    assert_eq!(payload, 17);

    assert_eq!(buffer.remaining(), 0, "There are remaining bytes in the buffer");
}

#[test]
fn read_packet() {
    let mut writer: Vec<u8> = Vec::new();
    varint::write_varint(&mut writer, 9);
    varint::write_varint(&mut writer, 0x01);
    fixed::write_u64(&mut writer, 11);
    let mut buffer = Reader::new(&writer);

    let packet = buffer.read_packet::<PongPacket>().unwrap();
    assert_eq!(packet.payload, 11);

    assert_eq!(buffer.remaining(), 0, "There are remaining bytes in the buffer");
}

#[test]
#[should_panic]
fn fail_read_packet_illegal_packet_id() {
    let mut writer: Vec<u8> = Vec::new();
    varint::write_varint(&mut writer, 9);
    varint::write_varint(&mut writer, 0x00);
    fixed::write_u64(&mut writer, 11);
    let mut buffer = Reader::new(&writer);

    buffer.read_packet::<PongPacket>().unwrap();
}

#[test]
#[should_panic]
fn fail_read_packet_illegal_packet_length() {
    let mut writer: Vec<u8> = Vec::new();
    varint::write_varint(&mut writer, 0);
    let mut buffer = Reader::new(&writer);

    buffer.read_packet::<PongPacket>().unwrap();
}

#[test]
fn write_varint() {
    let writer = varint_of(0usize);
    let mut buffer = Reader::new(&writer);
    let first_byte = buffer.read_u8().unwrap();
    assert_eq!(first_byte, 0b0000_0000);
    assert_eq!(buffer.remaining(), 0, "There are remaining bytes in the buffer");

    let writer = varint_of(65usize);
    let mut buffer = Reader::new(&writer);
    let first_byte = buffer.read_u8().unwrap();
    assert_eq!(first_byte, 0b0100_0001);
    assert_eq!(buffer.remaining(), 0, "There are remaining bytes in the buffer");

    let writer = varint_of(129usize);
    let mut buffer = Reader::new(&writer);
    let first_byte = buffer.read_u8().unwrap();
    let second_byte = buffer.read_u8().unwrap();
    assert_eq!(first_byte, 0b1000_0001);
    assert_eq!(second_byte, 0b0000_0001);
    assert_eq!(buffer.remaining(), 0, "There are remaining bytes in the buffer");
}

#[test]
fn read_varint() {
    let writer = vec![0b0000_0000u8];
    let mut buffer = Reader::new(&writer);
    let number = buffer.read_varint().unwrap();
    assert_eq!(number, 0usize);
    assert_eq!(buffer.remaining(), 0, "There are remaining bytes in the buffer");

    let writer = vec![0b0100_0001u8];
    let mut buffer = Reader::new(&writer);
    let number = buffer.read_varint().unwrap();
    assert_eq!(number, 65usize);
    assert_eq!(buffer.remaining(), 0, "There are remaining bytes in the buffer");

    let writer = vec![0b1000_0001u8, 0b0000_0001u8];
    let mut buffer = Reader::new(&writer);
    let number = buffer.read_varint().unwrap();
    assert_eq!(number, 129usize);
    assert_eq!(buffer.remaining(), 0, "There are remaining bytes in the buffer");
}

#[test]
#[should_panic]
fn fail_read_varint_invalid() {
    let writer = vec![
        0b1000_0000u8,
        0b1000_0000u8,
        0b1000_0000u8,
        0b1000_0000u8,
        0b1000_0000u8,
        0b1000_0000u8,
    ];
    let mut buffer = Reader::new(&writer);
    buffer.read_varint().unwrap();
}

#[test]
fn write_string() {
    let text = "test";

    let mut writer: Vec<u8> = Vec::new();
    packet::write_string(&mut writer, text);
    let mut buffer = Reader::new(&writer);

    let length = buffer.read_varint().unwrap();
    assert_eq!(length, text.len());

    let content = buffer.read_exact(length).unwrap();
    assert_eq!(String::from_utf8(content).unwrap(), text);

    assert_eq!(buffer.remaining(), 0, "There are remaining bytes in the buffer");
}

#[test]
fn read_string() {
    let text = "other";

    let mut writer: Vec<u8> = Vec::new();
    varint::write_varint(&mut writer, text.len());
    writer.extend_from_slice(text.as_bytes());
    let mut buffer = Reader::new(&writer);

    let content = buffer.read_string().unwrap();
    assert_eq!(content, text);

    assert_eq!(buffer.remaining(), 0, "There are remaining bytes in the buffer");
}

#[test]
#[should_panic]
fn fail_read_string_illegal_encoding() {
    let mut writer: Vec<u8> = Vec::new();
    varint::write_varint(&mut writer, 4);
    writer.extend_from_slice(&[0u8, 159u8, 146u8, 150u8]);
    let mut buffer = Reader::new(&writer);
    buffer.read_string().unwrap();
}

#[test]
fn varint_of_largest_numbers() {
    assert_eq!(varint_of(0xFFFF_FFFF), vec![0xFF, 0xFF, 0xFF, 0xFF, 0x0F]);
    assert_eq!(varint_of(127), vec![0x7F]);
    assert_eq!(varint_of(128), vec![0x80, 0x01]);
    assert_eq!(varint_of(25565), vec![0xDD, 0xC7, 0x01]);
    // only the low 32 bits are written
    assert_eq!(varint_of(-1isize as usize), vec![0xFF, 0xFF, 0xFF, 0xFF, 0x0F]);
}

#[test]
fn varint_round_trip() {
    for value in [0usize, 1, 127, 128, 16_383, 16_384, 2_097_151, 2_097_152, 0x7FFF_FFFF, 0xFFFF_FFFF] {
        let mut bytes = varint_of(value);
        assert!(bytes.len() >= 1 && bytes.len() <= 5);
        bytes.push(0xAB);
        let mut reader = Reader::new(&bytes);
        assert_eq!(reader.read_varint().unwrap(), value);
        assert_eq!(reader.remaining(), 1);
    }
}

#[test]
fn varint_ends_with_sixth_byte() {
    let bytes = vec![0x80u8, 0x80, 0x80, 0x80, 0x80, 0x00, 0x00];
    let mut reader = Reader::new(&bytes);
    assert!(matches!(reader.read_varint(), Err(Error::InvalidVarInt)));
    assert_eq!(reader.remaining(), 1);

    let bytes = vec![0x80u8, 0x80, 0x80, 0x80, 0x80];
    let mut reader = Reader::new(&bytes);
    assert!(matches!(
        reader.read_varint(),
        Err(Error::Io(IoError::UnexpectedEof { field: Field::Number, missing: 1 }))
    ));
}

#[test]
fn text_round_trip() {
    for text in ["", "a", "Grüße", "日本語", "🦀 crab"] {
        let mut bytes: Vec<u8> = Vec::new();
        packet::write_string(&mut bytes, text);
        assert_eq!(bytes.len(), text.len() + 1);
        let mut reader = Reader::new(&bytes);
        assert_eq!(reader.read_string().unwrap(), text);
        assert_eq!(reader.remaining(), 0);
    }
}

#[test]
fn fixed_width_bytes() {
    let mut bytes: Vec<u8> = Vec::new();
    fixed::write_u16(&mut bytes, 0x1234);
    fixed::write_u64(&mut bytes, 0x0102_0304_0506_0708);
    assert_eq!(bytes, vec![0x12, 0x34, 1, 2, 3, 4, 5, 6, 7, 8]);
    let mut reader = Reader::new(&bytes);
    reader.read_exact(2).unwrap();
    assert_eq!(reader.read_u64().unwrap(), 0x0102_0304_0506_0708);
}

#[test]
fn ping_frame_bytes_and_round_trip() {
    let mut bytes: Vec<u8> = Vec::new();
    packet::write_packet(&mut bytes, PingPacket::new(17));
    assert_eq!(bytes, vec![9, 1, 0, 0, 0, 0, 0, 0, 0, 17]);
    bytes.push(0xFF);
    let mut reader = Reader::new(&bytes);
    assert_eq!(reader.read_packet::<PongPacket>().unwrap().payload, 17);
    assert_eq!(reader.remaining(), 1);
}

#[test]
fn packet_errors() {
    let bytes = vec![9u8, 0x05, 0, 0];
    assert!(matches!(
        Reader::new(&bytes).read_packet::<PongPacket>(),
        Err(Error::IllegalPacketId { expected: 1, actual: 5 })
    ));
    let bytes = vec![0u8];
    assert!(matches!(Reader::new(&bytes).read_packet::<PongPacket>(), Err(Error::IllegalPacketLength)));
    // the packet says that it is over before its payload is
    let bytes = vec![4u8, 0x01, 1, 2, 3, 4, 5, 6, 7, 8];
    assert!(matches!(
        Reader::new(&bytes).read_packet::<PongPacket>(),
        Err(Error::Io(IoError::FrameEnd(Field::Number)))
    ));
    // the same for a text
    let bytes = vec![3u8, 0x00, 5, b'a', b'b', b'c', b'd', b'e'];
    assert!(matches!(
        Reader::new(&bytes).read_packet::<StatusResponsePacket>(),
        Err(Error::Io(IoError::FrameEnd(Field::Bytes)))
    ));
    let bytes = vec![6u8, 0x00, 4, 0, 159, 146, 150];
    assert!(matches!(Reader::new(&bytes).read_packet::<StatusResponsePacket>(), Err(Error::InvalidEncoding)));
}

#[test]
fn data_of_packet_stays_within_its_length() {
    let bytes = vec![4u8, 0x01, 1, 2, 3, 4, 5, 6, 7, 8];
    let mut reader = Reader::new(&bytes);
    assert!(reader.read_packet::<PongPacket>().is_err());
    assert_eq!(reader.remaining(), 5);
}

#[test]
fn length_of_packet_counts_its_id() {
    // only seven bytes are left for the payload
    let bytes = vec![8u8, 1, 0, 0, 0, 0, 0, 0, 0, 11];
    let mut reader = Reader::new(&bytes);
    assert!(matches!(
        reader.read_packet::<PongPacket>(),
        Err(Error::Io(IoError::FrameEnd(Field::Number)))
    ));
    assert_eq!(reader.remaining(), 1);

    // the text goes one byte beyond the packet
    let bytes = vec![4u8, 0, 3, b'a', b'b', b'c'];
    let mut reader = Reader::new(&bytes);
    assert!(matches!(
        reader.read_packet::<StatusResponsePacket>(),
        Err(Error::Io(IoError::FrameEnd(Field::Bytes)))
    ));
    assert_eq!(reader.remaining(), 1);

    // the ID itself goes beyond the packet
    let bytes = vec![1u8, 0x80, 0x00, 0, 0, 0, 0, 0, 0, 0, 11];
    let mut reader = Reader::new(&bytes);
    assert!(matches!(
        reader.read_packet::<StatusResponsePacket>(),
        Err(Error::Io(IoError::FrameEnd(Field::Number)))
    ));
    assert_eq!(reader.remaining(), 9);
}

#[test]
fn missing_bytes_are_counted() {
    let mut whole: Vec<u8> = Vec::new();
    packet::write_packet(&mut whole, PingPacket::new(17));
    for received in 0..whole.len() {
        let outcome = Reader::new(&whole[..received]).read_packet::<PongPacket>();
        // the length and the ID are read byte by byte, then the whole payload is missing
        let expected = if received < 2 { 1 } else { 10 - received };
        match outcome {
            Err(Error::Io(IoError::UnexpectedEof { field: Field::Number, missing })) => assert_eq!(missing, expected),
            other => panic!("unexpected outcome: {:?}", other),
        }
    }
}

#[test]
fn status_request_bytes() {
    let info = HandshakeInfo::new(-1, "ab".to_string(), 25565);
    match retrieve_status(&info, &StatusProgress::Start) {
        Step::Write(bytes) => assert_eq!(
            bytes,
            vec![
                12, 0x00, 0xFF, 0xFF, 0xFF, 0xFF, 0x0F, 2, b'a', b'b', 0x63, 0xDD, 1, // handshake
                1, 0x00, // status request
            ]
        ),
        other => panic!("unexpected step: {:?}", other),
    }
}

#[test]
fn status_is_what_the_server_sent() {
    let info = HandshakeInfo::new(769, "localhost".to_string(), 25565);
    let response = vec![5u8, 0x00, 3, b'{', b' ', b'}'];
    for received in 0..response.len() {
        let progress = StatusProgress::Sent(Response::Received(response[..received].to_vec()));
        match retrieve_status(&info, &progress) {
            Step::Read(missing) => assert_eq!(missing, if received < 3 { 1 } else { 6 - received }),
            other => panic!("unexpected step: {:?}", other),
        }
    }
    let mut longer = response.clone();
    longer.extend_from_slice(&[1, 2, 3]);
    for bytes in [response, longer] {
        match retrieve_status(&info, &StatusProgress::Sent(Response::Received(bytes))) {
            Step::Done(Ok(body)) => assert_eq!(body, "{ }"),
            other => panic!("unexpected step: {:?}", other),
        }
    }
}

#[test]
fn status_of_closed_and_broken_stream() {
    let info = HandshakeInfo::new(769, "localhost".to_string(), 25565);
    let message = |response: Response| match retrieve_status(&info, &StatusProgress::Sent(response)) {
        Step::Done(Err(error)) => error.message(),
        other => panic!("unexpected step: {:?}", other),
    };
    assert_eq!(
        message(Response::Closed(vec![5])),
        "error reading or writing data: unexpected end of file"
    );
    assert_eq!(message(Response::Closed(vec![5, 0, 3, b'{'])), "error reading or writing data: early eof");
    assert_eq!(
        message(Response::Broken("connection reset".to_string())),
        "error reading or writing data: connection reset"
    );
    match retrieve_status(&info, &StatusProgress::Sent(Response::Closed(vec![3, 0, 1, b'x']))) {
        Step::Done(Ok(body)) => assert_eq!(body, "x"),
        other => panic!("unexpected step: {:?}", other),
    }
}

#[test]
fn ping_is_valid_iff_payload_returned() {
    let sent = match execute_ping(&PingProgress::Start(Ok(1_700_000_000))) {
        Step::Write(bytes) => bytes,
        other => panic!("unexpected step: {:?}", other),
    };
    assert_eq!(sent, vec![9, 1, 0, 0, 0, 0, 0x65, 0x53, 0xF1, 0x00]);
    for (payload, valid) in [(1_700_000_000u64, true), (1_700_000_001u64, false)] {
        match execute_ping(&PingProgress::Sent { payload, response: Response::Received(sent.clone()) }) {
            Step::Done(Ok(result)) => assert_eq!(result, valid),
            other => panic!("unexpected step: {:?}", other),
        }
    }
    match execute_ping(&PingProgress::Sent { payload: 0, response: Response::Received(vec![9, 1, 0]) }) {
        Step::Read(missing) => assert_eq!(missing, 7),
        other => panic!("unexpected step: {:?}", other),
    }
}

#[test]
fn ping_without_clock() {
    match execute_ping(&PingProgress::Start(Err("second time provided was later than self".to_string()))) {
        Step::Done(Err(error)) => assert_eq!(
            error.message(),
            "unix epoch could not be calculated: second time provided was later than self"
        ),
        other => panic!("unexpected step: {:?}", other),
    }
}

#[test]
fn protocol_error_messages() {
    assert_eq!(Error::IllegalPacketLength.message(), "illegal packet length");
    assert_eq!(Error::InvalidVarInt.message(), "invalid VarInt data");
    assert_eq!(
        Error::IllegalPacketId { expected: 1, actual: 42 }.message(),
        "illegal packet ID: 42 (expected 1)"
    );
    assert_eq!(
        Error::InvalidEncoding.message(),
        "invalid ServerListPing response body (invalid encoding)"
    );
    assert_eq!(
        Error::Io(IoError::FrameEnd(Field::Number)).message(),
        "error reading or writing data: unexpected end of file"
    );
    assert_eq!(usize::from(State::Status), 1);
}
