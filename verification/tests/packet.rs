use spwnmsg_core::content::PacketMessageContent;
use spwnmsg_core::endian::{id_from_bytes, id_to_bytes};
use spwnmsg_core::error::PacketError;
use spwnmsg_core::layout::{
    CONTENT_CAPACITY, CONTENT_OFFSET, FIRST_ID_OFFSET, FRAME_SIZE, PROTOCOL_VERSION,
    SECOND_ID_OFFSET, THIRD_ID_OFFSET,
};
use spwnmsg_core::opcode::Opcode;
use spwnmsg_core::packet::Packet;

const ALL_OPCODES: [Opcode; 7] = [
    Opcode::Ping,
    Opcode::Okay,
    Opcode::MemberJoin,
    Opcode::MemberLeave,
    Opcode::Message,
    Opcode::Login,
    Opcode::LoginOk,
];

fn message_frame() -> Packet {
    let mut packet = Packet::new([0; 1024]);
    packet.set_version(PROTOCOL_VERSION);
    packet.set_op(Opcode::Message);
    packet
}

#[test]
fn packet_packet() {
    let mut packet = Packet::new([0; 1024]);

    packet.set_op(Opcode::Message);
    packet.set_content("uuw".parse().unwrap()).unwrap();
}

#[test]
fn layout_has_the_wire_values() {
    assert_eq!(FRAME_SIZE, 1024);
    assert_eq!(PROTOCOL_VERSION, 1);
    assert_eq!(FIRST_ID_OFFSET, 3);
    assert_eq!(SECOND_ID_OFFSET, 11);
    assert_eq!(THIRD_ID_OFFSET, 19);
    assert_eq!(CONTENT_OFFSET, 27);
    assert_eq!(CONTENT_CAPACITY, 994);
}

#[test]
fn opcode_bytes_are_zero_to_six() {
    for (value, op) in ALL_OPCODES.iter().enumerate() {
        assert_eq!(op.to_byte() as usize, value);
        assert_eq!(Opcode::from_byte(value as u8), Ok(*op));
    }
}

#[test]
fn every_opcode_is_read_back_from_a_frame() {
    for op in ALL_OPCODES {
        for fill in [0u8, 0x5a, 0xff] {
            let mut raw = [fill; 1024];
            raw[1] = op.to_byte();
            assert_eq!(Packet::new(raw).op(), Ok(op));

            let mut packet = Packet::new([fill; 1024]);
            packet.set_op(op);
            assert_eq!(packet.op(), Ok(op));
            assert_eq!(packet.0[1], op.to_byte());
        }
    }
}

#[test]
fn every_other_byte_is_an_unknown_opcode() {
    for value in 7..=255u8 {
        let mut raw = [0u8; 1024];
        raw[1] = value;
        assert_eq!(Packet::new(raw).op(), Err(PacketError::UnknownOpcode { value }));
        assert_eq!(Opcode::from_byte(value), Err(PacketError::UnknownOpcode { value }));
    }
}

#[test]
fn set_op_touches_the_opcode_byte_only() {
    let mut raw = [0u8; 1024];
    for (i, byte) in raw.iter_mut().enumerate() {
        *byte = (i % 251) as u8;
    }
    let mut packet = Packet::new(raw);
    packet.set_op(Opcode::LoginOk);
    let mut expected = raw;
    expected[1] = 6;
    assert_eq!(packet.0, expected);
}

#[test]
fn version_is_the_first_byte() {
    let mut packet = Packet::new([9; 1024]);
    assert_eq!(packet.version(), 9);
    packet.set_version(1);
    assert_eq!(packet.version(), 1);
    assert_eq!(packet.0[0], 1);
    assert_eq!(packet.0[1], 9);
}

#[test]
fn new_keeps_the_bytes() {
    let mut raw = [0u8; 1024];
    raw[0] = 1;
    raw[1023] = 77;
    let packet = Packet::new(raw);
    assert_eq!(packet.0, raw);
    let back: [u8; 1024] = packet.into();
    assert_eq!(back, raw);
}

#[test]
fn identifier_bytes_are_little_endian() {
    assert_eq!(id_to_bytes(0x0102030405060708), [8, 7, 6, 5, 4, 3, 2, 1]);
    assert_eq!(id_from_bytes([8, 7, 6, 5, 4, 3, 2, 1]), 0x0102030405060708);
    assert_eq!(id_to_bytes(0), [0; 8]);
    assert_eq!(id_to_bytes(u64::MAX), [0xff; 8]);
    assert_eq!(id_from_bytes([0xff; 8]), u64::MAX);
    assert_eq!(id_to_bytes(1), [1, 0, 0, 0, 0, 0, 0, 0]);
    assert_eq!(id_to_bytes(1 << 63), [0, 0, 0, 0, 0, 0, 0, 0x80]);
    for id in [0u64, 1, 255, 256, 0xdead_beef, 0x8000_0000_0000_0001, u64::MAX - 1] {
        assert_eq!(id_to_bytes(id), id.to_le_bytes());
        assert_eq!(id_from_bytes(id_to_bytes(id)), id);
    }
}

#[test]
fn identifier_is_written_where_asked() {
    let mut packet = Packet::new([0xaa; 1024]);
    packet.set_identifier(0x0102030405060708, 11);
    let mut expected = [0xaau8; 1024];
    expected[11..19].copy_from_slice(&[8, 7, 6, 5, 4, 3, 2, 1]);
    assert_eq!(packet.0, expected);
    assert_eq!(packet.identifier(11), 0x0102030405060708);
    assert_eq!(packet.snowflake(11), [8, 7, 6, 5, 4, 3, 2, 1]);
}

#[test]
fn snowflake_bytes_are_written_where_asked() {
    let mut packet = Packet::new([0; 1024]);
    packet.set_snowflake([1, 2, 3, 4, 5, 6, 7, 8], 3);
    assert_eq!(&packet.0[..12], &[0, 0, 0, 1, 2, 3, 4, 5, 6, 7, 8, 0]);
    assert_eq!(packet.snowflake(3), [1, 2, 3, 4, 5, 6, 7, 8]);
    assert_eq!(packet.snowflake(4), [2, 3, 4, 5, 6, 7, 8, 0]);
    assert_eq!(u64::from_le_bytes(packet.snowflake(3)), 0x0807060504030201);
}

#[test]
fn identifier_fits_at_both_ends_of_the_frame() {
    let mut packet = Packet::new([0; 1024]);
    packet.set_identifier(u64::MAX, 1016);
    assert_eq!(&packet.0[1016..], &[0xff; 8]);
    assert_eq!(packet.0[1015], 0);
    assert_eq!(packet.identifier(1016), u64::MAX);
    packet.set_identifier(0x1122334455667788, 0);
    assert_eq!(packet.identifier(0), 0x1122334455667788);
    assert_eq!(packet.version(), 0x88);
}

#[test]
fn encode_pads_with_zeros() {
    let content = PacketMessageContent::encode("hello").unwrap();
    let bytes = content.as_bytes();
    assert_eq!(bytes.len(), 994);
    assert_eq!(&bytes[..5], b"hello");
    assert!(bytes[5..].iter().all(|b| *b == 0));
}

#[test]
fn encode_takes_the_empty_text() {
    let content = PacketMessageContent::encode("").unwrap();
    assert_eq!(content.as_bytes(), &[0u8; 994]);
}

#[test]
fn encode_counts_bytes_not_characters() {
    // 497 characters of two bytes each: exactly the capacity.
    let full = "é".repeat(497);
    assert_eq!(full.len(), 994);
    let content = PacketMessageContent::encode(&full).unwrap();
    assert_eq!(&content.as_bytes()[..], full.as_bytes());

    // 332 characters of three bytes each: 996 bytes, though far fewer characters.
    let long = "€".repeat(332);
    assert_eq!(
        PacketMessageContent::encode(&long).err(),
        Some(PacketError::ContentTooLong { len: 996 })
    );
}

#[test]
fn encode_refuses_what_does_not_fit() {
    let fits = "a".repeat(994);
    assert!(PacketMessageContent::encode(&fits).is_ok());
    let too_long = "a".repeat(995);
    assert_eq!(
        PacketMessageContent::encode(&too_long).err(),
        Some(PacketError::ContentTooLong { len: 995 })
    );
    assert_eq!(
        too_long.parse::<PacketMessageContent>().err(),
        Some(PacketError::ContentTooLong { len: 995 })
    );
    let huge = "b".repeat(5000);
    assert_eq!(
        PacketMessageContent::encode(&huge).err(),
        Some(PacketError::ContentTooLong { len: 5000 })
    );
}

#[test]
fn parse_is_encode() {
    let parsed: PacketMessageContent = "uwu".parse().unwrap();
    let encoded = PacketMessageContent::encode("uwu").unwrap();
    assert_eq!(parsed.as_bytes(), encoded.as_bytes());
}

#[test]
fn text_round_trips() {
    let samples = [
        String::new(),
        "hello".to_string(),
        "uwu".to_string(),
        "zero \0 inside".to_string(),
        "grüße, 世界 🦀".to_string(),
        "a".repeat(994),
        "é".repeat(497),
    ];
    for text in samples {
        let mut packet = message_frame();
        packet.set_content(PacketMessageContent::encode(&text).unwrap()).unwrap();
        assert_eq!(packet.content(), Ok(text));
    }
}

#[test]
fn text_loses_only_the_nuls_at_its_end() {
    let mut packet = message_frame();
    packet.set_content(PacketMessageContent::encode("a\0b\0\0").unwrap()).unwrap();
    assert_eq!(packet.content(), Ok("a\0b".to_string()));
}

#[test]
fn set_content_overwrites_the_whole_payload() {
    let mut raw = [0xeeu8; 1024];
    raw[1] = 4;
    let mut packet = Packet::new(raw);
    packet.set_content(PacketMessageContent::encode("hi").unwrap()).unwrap();
    assert_eq!(&packet.0[..27], &raw[..27]);
    assert_eq!(&packet.0[27..29], b"hi");
    assert!(packet.0[29..].iter().all(|b| *b == 0));
    assert_eq!(packet.content(), Ok("hi".to_string()));
}

#[test]
fn longer_text_is_replaced_by_shorter() {
    let mut packet = message_frame();
    packet.set_content(PacketMessageContent::encode(&"x".repeat(900)).unwrap()).unwrap();
    packet.set_content(PacketMessageContent::encode("short").unwrap()).unwrap();
    assert_eq!(packet.content(), Ok("short".to_string()));
}

#[test]
fn set_content_needs_a_message_frame() {
    for op in ALL_OPCODES {
        if op == Opcode::Message {
            continue;
        }
        let mut raw = [0x11u8; 1024];
        raw[1] = op.to_byte();
        let mut packet = Packet::new(raw);
        let res = packet.set_content(PacketMessageContent::encode("text").unwrap());
        assert_eq!(res, Err(PacketError::InvalidContentTarget { value: op.to_byte() }));
        assert_eq!(packet.0, raw);
    }
    let mut raw = [0u8; 1024];
    raw[1] = 200;
    let mut packet = Packet::new(raw);
    let res = packet.set_content(PacketMessageContent::encode("text").unwrap());
    assert_eq!(res, Err(PacketError::InvalidContentTarget { value: 200 }));
    assert_eq!(packet.0, raw);
}

#[test]
fn content_needs_a_message_frame() {
    let mut raw = [0u8; 1024];
    raw[27..32].copy_from_slice(b"hello");
    for value in [0u8, 1, 2, 3, 5, 6, 7, 255] {
        raw[1] = value;
        assert_eq!(
            Packet::new(raw).content(),
            Err(PacketError::InvalidContentTarget { value })
        );
    }
    raw[1] = 4;
    assert_eq!(Packet::new(raw).content(), Ok("hello".to_string()));
}

#[test]
fn content_that_is_not_utf8_is_malformed() {
    let mut raw = [0u8; 1024];
    raw[1] = 4;
    raw[27] = 0xff;
    assert_eq!(Packet::new(raw).content(), Err(PacketError::MalformedContent));

    // A two-byte character cut after its first byte.
    let mut raw = [0u8; 1024];
    raw[1] = 4;
    raw[27] = b'a';
    raw[28] = 0xc3;
    assert_eq!(Packet::new(raw).content(), Err(PacketError::MalformedContent));

    // The same bytes are fine once the character is whole.
    raw[29] = 0xa9;
    assert_eq!(Packet::new(raw).content(), Ok("aé".to_string()));
}

#[test]
fn content_reads_to_the_end_of_the_frame() {
    let mut raw = [0u8; 1024];
    raw[1] = 4;
    raw[1023] = b'z';
    let text = Packet::new(raw).content().unwrap();
    assert_eq!(text.len(), 997);
    assert!(text.ends_with('z'));
    assert!(text[..996].bytes().all(|b| b == 0));

    let raw_full = {
        let mut raw = [b'q'; 1024];
        raw[1] = 4;
        raw
    };
    assert_eq!(Packet::new(raw_full).content(), Ok("q".repeat(997)));
}

#[test]
fn empty_payload_is_the_empty_text() {
    let mut raw = [0u8; 1024];
    raw[1] = 4;
    assert_eq!(Packet::new(raw).content(), Ok(String::new()));
}

#[test]
fn message_frame_scenario() {
    let mut raw = [0u8; 1024];
    raw[0] = 1;
    raw[1] = 4;
    let user: u64 = 0x0102030405060708;
    let message: u64 = 0x0202030405060708;
    let session: u64 = 0x0302030405060708;
    raw[3..11].copy_from_slice(&user.to_le_bytes());
    raw[11..19].copy_from_slice(&message.to_le_bytes());
    raw[19..27].copy_from_slice(&session.to_le_bytes());
    raw[27..32].copy_from_slice(b"hello");

    let packet = Packet::new(raw);
    assert_eq!(packet.version(), 1);
    assert_eq!(packet.op(), Ok(Opcode::Message));
    assert_eq!(packet.identifier(3), user);
    assert_eq!(packet.identifier(11), message);
    assert_eq!(packet.identifier(19), session);
    assert_eq!(packet.content(), Ok("hello".to_string()));

    // The same frame, built through the codec.
    let mut built = Packet::new([0; 1024]);
    built.set_version(1);
    built.set_op(Opcode::Message);
    built.set_identifier(user, FIRST_ID_OFFSET);
    built.set_identifier(message, SECOND_ID_OFFSET);
    built.set_identifier(session, THIRD_ID_OFFSET);
    built.set_content(PacketMessageContent::encode("hello").unwrap()).unwrap();
    assert_eq!(built.0, raw);
    assert_eq!(built.identifier(3), user);
    assert_eq!(built.identifier(11), message);
    assert_eq!(built.identifier(19), session);
    assert_eq!(built.content(), Ok("hello".to_string()));
}

#[test]
fn content_target_error_names_the_frame_type() {
    let mut packet = Packet::new([0; 1024]);
    packet.set_op(Opcode::Ping);
    let e = packet.set_content(PacketMessageContent::encode("text").unwrap()).unwrap_err();
    assert_eq!(e, PacketError::InvalidContentTarget { value: 0 });
    let text = e.message();
    assert!(text
        .starts_with("Tried to put content into a packet of type Ping. Supported types are:"));
    assert!(text.ends_with("- Message"));
    assert_eq!(
        text,
        "Tried to put content into a packet of type Ping. Supported types are:
                - Message"
    );
    assert_eq!(
        text,
        "Tried to put content into a packet of type Ping. Supported types are:\n                - Message"
    );
}

#[test]
fn content_target_error_names_every_opcode() {
    let names = ["Ping", "Ok", "MemberJoin", "MemberLeave", "Message", "Login", "LoginOk"];
    for (op, name) in ALL_OPCODES.iter().zip(names) {
        assert_eq!(op.name(), name);
        let text = PacketError::InvalidContentTarget { value: op.to_byte() }.message();
        assert_eq!(
            text,
            format!(
                "Tried to put content into a packet of type {}. Supported types are:\n                - Message",
                name
            )
        );
    }
}

#[test]
fn content_target_error_gives_the_number_of_an_unknown_type() {
    for value in [7u8, 9, 10, 42, 99, 100, 101, 200, 255] {
        assert_eq!(
            PacketError::InvalidContentTarget { value }.message(),
            format!(
                "Tried to put content into a packet of type {}. Supported types are:\n                - Message",
                value
            )
        );
    }
}

#[test]
fn too_long_error_is_a_malformed_message_packet() {
    let e = "a".repeat(995).parse::<PacketMessageContent>().err().unwrap();
    assert_eq!(e, PacketError::ContentTooLong { len: 995 });
    assert_eq!(e.message(), "Malformed packet of type Message.");
}

#[test]
fn malformed_content_error_is_a_malformed_message_packet() {
    let mut raw = [0u8; 1024];
    raw[1] = 4;
    raw[27] = 0xff;
    let e = Packet::new(raw).content().unwrap_err();
    assert_eq!(e, PacketError::MalformedContent);
    assert_eq!(e.message(), "Malformed packet of type Message.");
}

#[test]
fn unknown_opcode_error_gives_the_byte() {
    for value in 7..=255u8 {
        let mut raw = [0u8; 1024];
        raw[1] = value;
        let e = Packet::new(raw).op().unwrap_err();
        assert_eq!(e.message(), format!("Opcode `{}` out of range", value));
    }
    // The text is the same for a byte that names an opcode, should a caller
    // make the error by hand.
    assert_eq!(PacketError::UnknownOpcode { value: 0 }.message(), "Opcode `0` out of range");
    assert_eq!(PacketError::UnknownOpcode { value: 4 }.message(), "Opcode `4` out of range");
}

#[test]
fn opcode_converts_to_and_from_its_byte() {
    for op in ALL_OPCODES {
        let value: u8 = op.into();
        assert_eq!(value, op.to_byte());
        assert_eq!(Opcode::try_from(value), Ok(op));
    }
    assert_eq!(u8::from(Opcode::Message), 4);
    assert_eq!(Opcode::try_from(4u8), Ok(Opcode::Message));
    assert_eq!(Opcode::try_from(7u8), Err(PacketError::UnknownOpcode { value: 7 }));
    assert_eq!(Opcode::try_from(255u8), Err(PacketError::UnknownOpcode { value: 255 }));
}

#[test]
fn payload_lengths_follow_the_layout() {
    assert_eq!(Opcode::Ping.payload_len(), 16);
    assert_eq!(Opcode::Okay.payload_len(), 0);
    assert_eq!(Opcode::MemberJoin.payload_len(), 16);
    assert_eq!(Opcode::MemberLeave.payload_len(), 16);
    assert_eq!(Opcode::Message.payload_len(), 1021);
    assert_eq!(Opcode::Login.payload_len(), 16);
    assert_eq!(Opcode::LoginOk.payload_len(), 8);
    // The text of a message frame ends where its payload ends.
    assert_eq!(3 + Opcode::Message.payload_len(), FRAME_SIZE);
    assert_eq!(CONTENT_OFFSET + CONTENT_CAPACITY + 3, FRAME_SIZE);
}
