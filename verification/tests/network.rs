use zxzedesk::network::{
    decode_header, decode_message, encode_header, encode_message, FrameError, MsgType, Receipt,
    HEADER_LEN,
};

const ALL: [(MsgType, u8); 9] = [
    (MsgType::Auth, 0x01),
    (MsgType::AuthOk, 0x02),
    (MsgType::AuthFail, 0x03),
    (MsgType::Frame, 0x10),
    (MsgType::MouseEvent, 0x20),
    (MsgType::KeyEvent, 0x21),
    (MsgType::Clipboard, 0x30),
    (MsgType::Audio, 0x40),
    (MsgType::Disconnect, 0xFF),
];

#[test]
fn msg_type_bytes_match_the_protocol() {
    for (t, b) in ALL {
        assert_eq!(t.to_byte(), b);
        assert_eq!(MsgType::try_from(b), Ok(t));
    }
}

#[test]
fn msg_type_rejects_unknown_bytes() {
    let known: Vec<u8> = ALL.iter().map(|(_, b)| *b).collect();
    for b in 0u8..=255 {
        if !known.contains(&b) {
            assert_eq!(MsgType::try_from(b), Err(()));
        }
    }
}

#[test]
fn header_is_big_endian_length_then_kind() {
    assert_eq!(encode_header(MsgType::Frame, 258), [0, 0, 1, 2, 0x10]);
    assert_eq!(encode_header(MsgType::Auth, 0), [0, 0, 0, 0, 0x01]);
    assert_eq!(encode_header(MsgType::KeyEvent, 0x0102_0304), [1, 2, 3, 4, 0x21]);
    assert_eq!(HEADER_LEN, 5);
}

#[test]
fn header_decodes_kind_and_length() {
    assert_eq!(decode_header(&[0, 0, 1, 2, 0x10]), Ok((MsgType::Frame, 258)));
    assert_eq!(decode_header(&[0xFF, 0xFF, 0xFF, 0xFF, 0xFF]), Ok((MsgType::Disconnect, u32::MAX)));
    assert_eq!(decode_header(&[0, 0, 0, 1, 0x99]), Err(FrameError::InvalidMessageType(0x99)));
}

#[test]
fn header_roundtrip_law_on_values() {
    for (t, _) in ALL {
        for len in [0usize, 1, 255, 256, 65_535, 1 << 24, u32::MAX as usize] {
            assert_eq!(decode_header(&encode_header(t, len)), Ok((t, len as u32)));
        }
    }
}

#[test]
fn invalid_type_error_text() {
    assert_eq!(FrameError::InvalidMessageType(7).description(), "Invalid message type");
}

#[test]
fn message_with_payload_is_header_then_payload() {
    assert_eq!(encode_message(MsgType::Auth, b"pw"), vec![0, 0, 0, 2, 0x01, b'p', b'w']);
}

#[test]
fn empty_payload_is_not_written() {
    assert_eq!(encode_message(MsgType::AuthOk, &[]), vec![0, 0, 0, 0, 0x02]);
}

#[test]
fn message_roundtrip_law_on_values() {
    let payload: Vec<u8> = (0..300u32).map(|i| (i % 251) as u8).collect();
    let mut wire = encode_message(MsgType::Frame, &payload);
    wire.extend_from_slice(&[9, 9, 9]);
    match decode_message(&wire) {
        Receipt::Message(t, p) => {
            assert_eq!(t, MsgType::Frame);
            assert_eq!(p, payload);
        }
        other => panic!("unexpected {:?}", other),
    }
    match decode_message(&encode_message(MsgType::AuthFail, &[])) {
        Receipt::Message(t, p) => {
            assert_eq!(t, MsgType::AuthFail);
            assert!(p.is_empty());
        }
        other => panic!("unexpected {:?}", other),
    }
}

#[test]
fn short_stream_reads_as_closed() {
    assert!(matches!(decode_message(&[]), Receipt::Closed));
    assert!(matches!(decode_message(&[0, 0, 0, 1]), Receipt::Closed));
}

#[test]
fn unknown_kind_is_rejected() {
    assert!(matches!(
        decode_message(&[0, 0, 0, 0, 0x77]),
        Receipt::Rejected(FrameError::InvalidMessageType(0x77))
    ));
}

#[test]
fn stream_ending_inside_payload_is_truncated() {
    assert!(matches!(decode_message(&[0, 0, 0, 3, 0x10, 1, 2]), Receipt::Truncated));
}
