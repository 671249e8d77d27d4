use actix_ws::{
    mask, parse_frame_bytes, CloseCode, CloseReason, Codec, Message, OpCode, ProtocolError, Role,
};

fn server() -> Codec {
    Codec::new(Role::Server)
}

fn client() -> Codec {
    Codec::new(Role::Client)
}

#[test]
fn mask_twice_restores() {
    let key = [1u8, 2, 3, 4];
    let orig: Vec<u8> = (0u8..=20).collect();
    let mut buf = orig.clone();
    mask(key, &mut buf);
    assert_ne!(buf, orig);
    assert_eq!(buf[0], 1);
    assert_eq!(buf[5], 5 ^ 2);
    mask(key, &mut buf);
    assert_eq!(buf, orig);
}

#[test]
fn server_encodes_unmasked_text() {
    let bytes = server().encode(&Message::Text("Hello".to_string()));
    assert_eq!(bytes, vec![0x81, 0x05, b'H', b'e', b'l', b'l', b'o']);
}

#[test]
fn client_masks_with_key() {
    let bytes = client().encode_with_key(&Message::Text("Hello".to_string()), [0x37, 0xfa, 0x21, 0x3d]);
    assert_eq!(bytes, vec![0x81, 0x85, 0x37, 0xfa, 0x21, 0x3d, 0x7f, 0x9f, 0x4d, 0x51, 0x58]);
}

#[test]
fn server_decodes_rfc_masked_hello() {
    let mut buf = vec![0x81, 0x85, 0x37, 0xfa, 0x21, 0x3d, 0x7f, 0x9f, 0x4d, 0x51, 0x58, 0x99];
    let msg = server().decode(&mut buf).unwrap().unwrap();
    assert_eq!(msg, Message::Text("Hello".to_string()));
    assert_eq!(buf, vec![0x99]);
}

#[test]
fn length_encodings_are_minimal() {
    let c = server();
    let b = c.encode(&Message::Binary(vec![0; 125]));
    assert_eq!(&b[..2], &[0x82, 125]);
    let b = c.encode(&Message::Binary(vec![0; 126]));
    assert_eq!(&b[..4], &[0x82, 126, 0, 126]);
    let b = c.encode(&Message::Binary(vec![0; 65535]));
    assert_eq!(&b[..4], &[0x82, 126, 0xff, 0xff]);
    let b = c.encode(&Message::Binary(vec![0; 65536]));
    assert_eq!(&b[..10], &[0x82, 127, 0, 0, 0, 0, 0, 1, 0, 0]);
    assert_eq!(b.len(), 10 + 65536);
}

#[test]
fn round_trip_client_to_server() {
    let msgs = vec![
        Message::Text("héllo wörld".to_string()),
        Message::Text(String::new()),
        Message::Binary(vec![1, 2, 3]),
        Message::Binary(vec![7; 300]),
        Message::Ping(b"ping".to_vec()),
        Message::Pong(vec![]),
        Message::Close(None),
        Message::Close(Some(CloseReason { code: CloseCode { code: 1000 }, description: None })),
        Message::Close(Some(CloseReason {
            code: CloseCode { code: 4000 },
            description: Some("bye".to_string()),
        })),
    ];
    for m in msgs {
        let mut bytes = client().encode(&m);
        let mut s = server();
        assert_eq!(s.decode(&mut bytes).unwrap(), Some(m.clone()));
        assert!(bytes.is_empty());
        let mut bytes = server().encode(&m);
        let mut c = client();
        assert_eq!(c.decode(&mut bytes).unwrap(), Some(m));
        assert!(bytes.is_empty());
    }
}

#[test]
fn round_trip_large_binary() {
    let m = Message::Binary((0..70000u32).map(|i| i as u8).collect());
    let mut bytes = client().encode(&m);
    let mut s = server().max_size(100_000);
    assert_eq!(s.decode(&mut bytes).unwrap(), Some(m));
}

#[test]
fn partial_input_needs_more() {
    let full = client().encode_with_key(&Message::Binary(vec![9; 200]), [5, 6, 7, 8]);
    let mut s = server();
    for cut in [0usize, 1, 2, 3, 5, 100, full.len() - 1] {
        let mut part = full[..cut].to_vec();
        assert_eq!(s.decode(&mut part), Ok(None));
        assert_eq!(part.len(), cut);
    }
    let mut all = full.clone();
    assert_eq!(s.decode(&mut all).unwrap(), Some(Message::Binary(vec![9; 200])));
}

#[test]
fn server_refuses_unmasked() {
    let mut buf = vec![0x82, 0x01, 0x00];
    assert_eq!(server().decode(&mut buf), Err(ProtocolError::UnmaskedFrame));
    let mut buf = vec![0x81, 0x00];
    assert_eq!(server().decode(&mut buf), Err(ProtocolError::UnmaskedFrame));
}

#[test]
fn client_refuses_masked() {
    let mut buf = vec![0x82, 0x81, 1, 2, 3, 4, 0];
    assert_eq!(client().decode(&mut buf), Err(ProtocolError::MaskedFrame));
}

#[test]
fn control_frame_declaring_126_is_refused() {
    for op in [0x88u8, 0x89, 0x8a] {
        let mut buf = vec![op, 0xfe, 0x00, 0x7e];
        assert_eq!(server().decode(&mut buf), Err(ProtocolError::InvalidLength(126)));
    }
}

#[test]
fn continuation_and_fragments_are_refused() {
    let mut buf = vec![0x80, 0x80, 0, 0, 0, 0];
    assert_eq!(server().decode(&mut buf), Err(ProtocolError::NoContinuation));
    let mut buf = vec![0x01, 0x80, 0, 0, 0, 0];
    assert_eq!(server().decode(&mut buf), Err(ProtocolError::NoContinuation));
    let mut buf = vec![0x02, 0x01, 0xaa];
    assert_eq!(client().decode(&mut buf), Err(ProtocolError::NoContinuation));
}

#[test]
fn overflow_before_payload() {
    let mut s = server().max_size(10);
    let mut buf = vec![0x82, 0x8b];
    assert_eq!(s.decode(&mut buf), Err(ProtocolError::Overflow));
    let mut buf = vec![0x82, 0xff, 0xff, 0xff, 0xff, 0xff, 0xff, 0xff, 0xff, 0xff];
    assert_eq!(server().decode(&mut buf), Err(ProtocolError::Overflow));
}

#[test]
fn text_must_be_utf8() {
    let mut buf = vec![0x81, 0x02, 0xc3, 0x28];
    assert_eq!(client().decode(&mut buf), Err(ProtocolError::BadEncoding));
}

#[test]
fn invalid_opcodes_and_reserved_bits() {
    for code in [3u8, 4, 5, 6, 7, 11, 12, 13, 14, 15] {
        let mut buf = vec![0x80 | code, 0x00];
        assert_eq!(client().decode(&mut buf), Err(ProtocolError::InvalidOpcode(code)));
    }
    let mut buf = vec![0xc1, 0x00];
    assert_eq!(client().decode(&mut buf), Err(ProtocolError::BadOpCode));
}

#[test]
fn close_payload_checks() {
    let mut buf = vec![0x88, 0x01, 0x03];
    assert_eq!(client().decode(&mut buf), Err(ProtocolError::InvalidLength(1)));
    let mut buf = vec![0x88, 0x02, 0x03, 0xed];
    assert_eq!(client().decode(&mut buf), Err(ProtocolError::InvalidCloseCode(1005)));
    let mut buf = vec![0x88, 0x03, 0x03, 0xe8, 0xff];
    assert_eq!(client().decode(&mut buf), Err(ProtocolError::BadEncoding));
    let mut buf = vec![0x88, 0x04, 0x03, 0xe9, b'o', b'k'];
    assert_eq!(
        client().decode(&mut buf),
        Ok(Some(Message::Close(Some(CloseReason {
            code: CloseCode { code: 1001 },
            description: Some("ok".to_string()),
        }))))
    );
}

#[test]
fn failed_codec_stays_failed() {
    let mut c = client();
    let mut buf = vec![0x83, 0x00];
    assert_eq!(c.decode(&mut buf), Err(ProtocolError::InvalidOpcode(3)));
    let mut good = vec![0x82, 0x01, 0x05];
    assert_eq!(c.decode(&mut good), Err(ProtocolError::InvalidOpcode(3)));
    assert_eq!(good.len(), 3);
}

#[test]
fn frame_parser_reports_consumed() {
    let buf = vec![0x89, 0x02, 1, 2, 0x81];
    let (frame, n) = parse_frame_bytes(&buf, Role::Client, 100).unwrap().unwrap();
    assert!(frame.finished);
    assert_eq!(frame.opcode, OpCode::Ping);
    assert_eq!(frame.payload, vec![1, 2]);
    assert_eq!(n, 4);
}

#[test]
fn close_code_validity() {
    for ok in [1000u16, 1003, 1007, 1014, 3000, 4999] {
        assert!(CloseCode { code: ok }.is_valid());
    }
    for bad in [999u16, 1004, 1005, 1006, 1015, 2999, 5000] {
        assert!(!CloseCode { code: bad }.is_valid());
    }
}

#[test]
fn opcode_codes() {
    assert_eq!(OpCode::from_code(9), Some(OpCode::Ping));
    assert_eq!(OpCode::from_code(3), None);
    assert_eq!(OpCode::Pong.code(), 10);
    assert!(OpCode::Close.is_control());
    assert!(!OpCode::Text.is_control());
}
