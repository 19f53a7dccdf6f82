use tlspuffin::error::Error;
use tlspuffin::io::{Channel, MemoryStream, Message, MessageResult, OpaqueMessage, Stream, WouldBlock};
use tlspuffin::trace::{HandshakeType, TlsMessageType};

fn record(typ: u8, version: u16, payload: &[u8]) -> OpaqueMessage {
    OpaqueMessage::new(typ, version, payload.to_vec())
}

fn outbound_of(stream: &mut MemoryStream) -> Vec<u8> {
    // what is left in the outbound channel, found by taking until nothing comes
    let mut all = Vec::new();
    while let Ok(Some(MessageResult(_, opaque))) = stream.take_message_from_outbound() {
        all.extend(opaque.encode());
    }
    all
}

#[test]
fn encode_writes_header_and_payload() {
    let bytes = record(0x16, 0x0303, &[1, 2, 3]).encode();
    assert_eq!(bytes, vec![0x16, 0x03, 0x03, 0x00, 0x03, 1, 2, 3]);
    let long = record(0x17, 0x0301, &vec![7u8; 300]).encode();
    assert_eq!(&long[..5], &[0x17, 0x03, 0x01, 0x01, 0x2c]);
    assert_eq!(long.len(), 305);
}

#[test]
fn encode_keeps_unknown_numbers() {
    let bytes = record(0x99, 0x1234, &[]).encode();
    assert_eq!(bytes, vec![0x99, 0x12, 0x34, 0x00, 0x00]);
}

#[test]
fn take_from_empty_outbound_is_none() {
    let mut stream = MemoryStream::new();
    assert!(matches!(stream.take_message_from_outbound(), Ok(None)));
}

#[test]
fn take_yields_records_in_order_then_none() {
    let mut stream = MemoryStream::new();
    let first = record(0x16, 0x0303, &[0x0e, 0, 0, 0]);
    let second = record(0x17, 0x0303, &[9, 9]);
    let third = record(0x14, 0x0303, &[1]);
    let mut bytes = first.encode();
    bytes.extend(second.encode());
    bytes.extend(third.encode());
    assert_eq!(stream.write(&bytes), bytes.len());

    for expected in [&first, &second, &third] {
        match stream.take_message_from_outbound() {
            Ok(Some(MessageResult(_, opaque))) => {
                assert_eq!(opaque.typ, expected.typ);
                assert_eq!(opaque.version, expected.version);
                assert_eq!(opaque.payload, expected.payload);
            }
            other => panic!("no record: {:?}", other),
        }
    }
    assert!(matches!(stream.take_message_from_outbound(), Ok(None)));
    assert!(matches!(stream.take_message_from_outbound(), Ok(None)));
}

#[test]
fn take_leaves_trailing_bytes_in_place() {
    let mut stream = MemoryStream::new();
    let first = record(0x17, 0x0303, &[1, 2, 3]);
    let mut bytes = first.encode();
    // the beginning of a second record
    bytes.extend([0x17, 0x03, 0x03, 0x00, 0x04, 0xaa]);
    stream.write(&bytes);
    assert!(matches!(stream.take_message_from_outbound(), Ok(Some(_))));
    assert!(matches!(stream.take_message_from_outbound(), Ok(None)));
    // the rest of the second record arrives
    stream.write(&[0xbb, 0xcc, 0xdd]);
    match stream.take_message_from_outbound() {
        Ok(Some(MessageResult(_, opaque))) => assert_eq!(opaque.payload, vec![0xaa, 0xbb, 0xcc, 0xdd]),
        other => panic!("no record: {:?}", other),
    }
}

#[test]
fn take_of_partial_header_is_none() {
    for n in 1..5 {
        let mut stream = MemoryStream::new();
        // even a header that begins with an unknown content type is partial while it is short
        stream.write(&[0x99, 0x03, 0x03, 0x00][..n]);
        assert!(matches!(stream.take_message_from_outbound(), Ok(None)));
    }
}

fn take_of(bytes: &[u8]) -> Result<Option<MessageResult>, Error> {
    let mut stream = MemoryStream::new();
    stream.write(bytes);
    stream.take_message_from_outbound()
}

#[test]
fn take_refuses_unknown_content_types() {
    assert!(matches!(take_of(&[0x13, 0x03, 0x03, 0x00, 0x01, 0x00]), Err(Error::Stream)));
    assert!(matches!(take_of(&[0x19, 0x03, 0x03, 0x00, 0x01, 0x00]), Err(Error::Stream)));
    assert!(matches!(take_of(&[0x18, 0x03, 0x03, 0x00, 0x01, 0x00]), Ok(Some(_))));
    assert!(matches!(take_of(&[0x14, 0x03, 0x03, 0x00, 0x01, 0x01]), Ok(Some(_))));
}

#[test]
fn take_refuses_unknown_versions() {
    assert!(matches!(take_of(&[0x17, 0x04, 0x03, 0x00, 0x01, 0x00]), Err(Error::Stream)));
    assert!(matches!(take_of(&[0x17, 0x02, 0x01, 0x00, 0x01, 0x00]), Err(Error::Stream)));
    assert!(matches!(take_of(&[0x17, 0xfe, 0xfe, 0x00, 0x01, 0x00]), Err(Error::Stream)));
    assert!(matches!(take_of(&[0x17, 0x03, 0xff, 0x00, 0x01, 0x00]), Ok(Some(_))));
    assert!(matches!(take_of(&[0x17, 0x02, 0x00, 0x00, 0x01, 0x00]), Ok(Some(_))));
    assert!(matches!(take_of(&[0x17, 0xfe, 0xff, 0x00, 0x01, 0x00]), Ok(Some(_))));
    assert!(matches!(take_of(&[0x17, 0xfe, 0xfd, 0x00, 0x01, 0x00]), Ok(Some(_))));
    assert!(matches!(take_of(&[0x17, 0xfe, 0xfc, 0x00, 0x01, 0x00]), Ok(Some(_))));
}

#[test]
fn take_refuses_empty_payload_unless_application_data() {
    assert!(matches!(take_of(&[0x16, 0x03, 0x03, 0x00, 0x00]), Err(Error::Stream)));
    assert!(matches!(take_of(&[0x15, 0x03, 0x03, 0x00, 0x00]), Err(Error::Stream)));
    match take_of(&[0x17, 0x03, 0x03, 0x00, 0x00]) {
        Ok(Some(MessageResult(_, opaque))) => assert!(opaque.payload.is_empty()),
        other => panic!("no record: {:?}", other),
    }
}

#[test]
fn take_refuses_oversized_payload() {
    // 18432 = 0x4800 is refused on sight of the header
    assert!(matches!(take_of(&[0x17, 0x03, 0x03, 0x48, 0x00]), Err(Error::Stream)));
    // 18431 = 0x47ff is accepted, and partial until all of it is there
    assert!(matches!(take_of(&[0x17, 0x03, 0x03, 0x47, 0xff]), Ok(None)));
    let mut bytes = vec![0x17, 0x03, 0x03, 0x47, 0xff];
    bytes.extend(vec![0u8; 18431]);
    match take_of(&bytes) {
        Ok(Some(MessageResult(_, opaque))) => assert_eq!(opaque.payload.len(), 18431),
        other => panic!("no record: {:?}", other),
    }
}

#[test]
fn failed_take_leaves_the_channel_as_it_is() {
    let mut stream = MemoryStream::new();
    stream.write(&[0x13, 0x03, 0x03, 0x00, 0x01, 0x00]);
    assert!(matches!(stream.take_message_from_outbound(), Err(Error::Stream)));
    assert!(matches!(stream.take_message_from_outbound(), Err(Error::Stream)));
}

#[test]
fn take_parses_what_it_understands() {
    match take_of(&record(0x16, 0x0303, &[0x0e, 0, 0, 0]).encode()) {
        Ok(Some(MessageResult(Some(message), _))) => {
            assert_eq!(
                message.message_type,
                TlsMessageType::Handshake(Some(HandshakeType::ServerHelloDone))
            );
            assert_eq!(message.version, 0x0303);
            assert_eq!(message.payload, vec![0x0e, 0, 0, 0]);
        }
        other => panic!("not parsed: {:?}", other),
    }
    match take_of(&record(0x16, 0x0303, &[0x00, 0, 0, 0]).encode()) {
        Ok(Some(MessageResult(Some(message), _))) => assert_eq!(
            message.message_type,
            TlsMessageType::Handshake(Some(HandshakeType::HelloRequest))
        ),
        other => panic!("not parsed: {:?}", other),
    }
    match take_of(&record(0x14, 0x0303, &[0x01]).encode()) {
        Ok(Some(MessageResult(Some(message), _))) => {
            assert_eq!(message.message_type, TlsMessageType::ChangeCipherSpec)
        }
        other => panic!("not parsed: {:?}", other),
    }
    match take_of(&record(0x15, 0x0303, &[0x02, 0x28]).encode()) {
        Ok(Some(MessageResult(Some(message), _))) => {
            assert_eq!(message.message_type, TlsMessageType::Alert)
        }
        other => panic!("not parsed: {:?}", other),
    }
    match take_of(&record(0x17, 0x0303, &[1, 2, 3]).encode()) {
        Ok(Some(MessageResult(Some(message), _))) => {
            assert_eq!(message.message_type, TlsMessageType::ApplicationData)
        }
        other => panic!("not parsed: {:?}", other),
    }
}

#[test]
fn take_hands_over_the_record_alone_where_parsing_fails() {
    // a handshake record whose payload is no handshake message
    match take_of(&record(0x16, 0x0303, &[0xff, 0xff]).encode()) {
        Ok(Some(MessageResult(None, opaque))) => assert_eq!(opaque.payload, vec![0xff, 0xff]),
        other => panic!("unexpected: {:?}", other),
    }
    // heartbeat records are framed but not understood
    match take_of(&record(0x18, 0x0303, &[0x01]).encode()) {
        Ok(Some(MessageResult(None, opaque))) => assert_eq!(opaque.typ, 0x18),
        other => panic!("unexpected: {:?}", other),
    }
}

#[test]
fn from_parsed_follows_the_content_type() {
    let handshake = record(0x16, 0x0303, &[1]);
    assert!(Message::from_parsed(&handshake, None).is_none());
    assert!(Message::from_parsed(&handshake, Some(None)).is_none());
    let message = Message::from_parsed(&handshake, Some(Some(2))).unwrap();
    assert_eq!(message.message_type, TlsMessageType::Handshake(Some(HandshakeType::ServerHello)));
    let message = Message::from_parsed(&handshake, Some(Some(0x63))).unwrap();
    assert_eq!(
        message.message_type,
        TlsMessageType::Handshake(Some(HandshakeType::Unknown(0x63)))
    );
    let heartbeat = record(0x18, 0x0303, &[1]);
    assert!(Message::from_parsed(&heartbeat, Some(None)).is_none());
    let data = record(0x17, 0x0301, &[1]);
    let message = Message::from_parsed(&data, Some(None)).unwrap();
    assert_eq!(message.message_type, TlsMessageType::ApplicationData);
    assert_eq!(message.version, 0x0301);
}

#[test]
fn message_goes_back_to_its_record() {
    let sent = record(0x16, 0x0303, &[0x0e, 0, 0, 0]);
    let message = sent.parse().unwrap();
    let opaque = message.to_opaque();
    assert_eq!(opaque.encode(), sent.encode());
}

#[test]
fn add_to_inbound_appends_the_wire_bytes() {
    let mut stream = MemoryStream::new();
    stream.add_to_inbound(&record(0x16, 0x0303, &[1, 2]));
    stream.add_to_inbound(&record(0x17, 0x0303, &[3]));
    let mut buf = [0u8; 32];
    assert_eq!(stream.read(&mut buf), Ok(13));
    assert_eq!(
        &buf[..13],
        &[0x16, 0x03, 0x03, 0x00, 0x02, 1, 2, 0x17, 0x03, 0x03, 0x00, 0x01, 3]
    );
    assert_eq!(&buf[13..], &[0u8; 19]);
}

#[test]
fn read_on_empty_inbound_would_block() {
    let mut stream = MemoryStream::new();
    let mut buf = [0u8; 4];
    assert_eq!(stream.read(&mut buf), Err(WouldBlock));
    stream.add_to_inbound(&record(0x17, 0x0303, &[]));
    assert_eq!(stream.read(&mut buf), Ok(4));
    assert_eq!(buf, [0x17, 0x03, 0x03, 0x00]);
    assert_eq!(stream.read(&mut buf), Ok(1));
    assert_eq!(buf, [0x00, 0x03, 0x03, 0x00]);
    assert_eq!(stream.read(&mut buf), Err(WouldBlock));
}

#[test]
fn read_into_empty_buffer_would_block() {
    let mut stream = MemoryStream::new();
    stream.add_to_inbound(&record(0x17, 0x0303, &[1]));
    let mut none: [u8; 0] = [];
    assert_eq!(stream.read(&mut none), Err(WouldBlock));
    let mut buf = [0u8; 8];
    assert_eq!(stream.read(&mut buf), Ok(6));
}

#[test]
fn write_fills_outbound_only() {
    let mut stream = MemoryStream::new();
    assert_eq!(stream.write(&[0x17, 0x03, 0x03, 0x00, 0x01, 0x05]), 6);
    stream.flush();
    let mut buf = [0u8; 4];
    assert_eq!(stream.read(&mut buf), Err(WouldBlock));
    assert_eq!(outbound_of(&mut stream), vec![0x17, 0x03, 0x03, 0x00, 0x01, 0x05]);
}

#[test]
fn stream_trait_reaches_the_memory_stream() {
    fn through<S: Stream>(stream: &mut S, message: &OpaqueMessage) -> Result<Option<MessageResult>, Error> {
        stream.add_to_inbound(message);
        stream.take_message_from_outbound()
    }
    let mut stream = MemoryStream::new();
    stream.write(&record(0x17, 0x0303, &[1]).encode());
    assert!(matches!(through(&mut stream, &record(0x17, 0x0303, &[2])), Ok(Some(_))));
    let mut buf = [0u8; 8];
    assert_eq!(stream.read(&mut buf), Ok(6));
}

#[test]
fn channel_reads_in_order() {
    let mut channel = Channel::new();
    assert_eq!(channel.len(), 0);
    channel.extend(&[1, 2, 3]);
    channel.extend(&[4]);
    assert_eq!(channel.len(), 4);
    let mut buf = [0u8; 3];
    assert_eq!(channel.read(&mut buf), 3);
    assert_eq!(buf, [1, 2, 3]);
    assert_eq!(channel.contents(), vec![4]);
    channel.consume(1);
    assert_eq!(channel.len(), 0);
    channel.extend(&[5]);
    assert_eq!(channel.contents(), vec![5]);
    // more than there is
    channel.extend(&[6, 7]);
    channel.consume(10);
    assert_eq!(channel.len(), 0);
    channel.extend(&[8]);
    assert_eq!(channel.contents(), vec![8]);
}

#[test]
fn feed_and_take_move_raw_bytes() {
    let mut stream = MemoryStream::new();
    stream.feed(&[1, 2]);
    stream.feed(&[3]);
    assert_eq!(stream.take_inbound(), vec![1, 2, 3]);
    assert_eq!(stream.take_inbound(), Vec::<u8>::new());
    stream.write(&[9, 8]);
    stream.write(&[7]);
    assert_eq!(stream.take_outbound(), vec![9, 8, 7]);
    assert_eq!(stream.take_outbound(), Vec::<u8>::new());
    let mut buf = [0u8; 2];
    assert_eq!(stream.read(&mut buf), Err(WouldBlock));
}

#[test]
fn encode_writes_the_low_bits_of_a_long_length() {
    let bytes = record(0x17, 0x0303, &vec![1u8; 65536 + 3]).encode();
    assert_eq!(&bytes[..5], &[0x17, 0x03, 0x03, 0x00, 0x03]);
    assert_eq!(bytes.len(), 5 + 65536 + 3);
    let bytes = record(0x17, 0x0303, &vec![1u8; 65535]).encode();
    assert_eq!(&bytes[..5], &[0x17, 0x03, 0x03, 0xff, 0xff]);
}
