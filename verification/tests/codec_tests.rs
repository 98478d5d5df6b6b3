use vibetunnel_pty::codec::{decode_message, encode_message, MessageType};
use vibetunnel_pty::errors::VtError;
use vibetunnel_pty::forwarder::{
    kill_frame, resize_frame, stdin_frame, stdout_frame, take_frame, update_title_frame,
};

#[test]
fn test_message_type_values() {
    assert_eq!(MessageType::StdinData.code(), 0x01);
    assert_eq!(MessageType::ControlCmd.code(), 0x02);
    assert_eq!(MessageType::StatusUpdate.code(), 0x03);
    assert_eq!(MessageType::StdoutData.code(), 0x04);
    assert_eq!(MessageType::SessionInfo.code(), 0x05);
    assert_eq!(MessageType::Error.code(), 0x06);
}

#[test]
fn test_message_type_try_from_valid() {
    assert_eq!(MessageType::try_from(0x01).unwrap(), MessageType::StdinData);
    assert_eq!(MessageType::try_from(0x02).unwrap(), MessageType::ControlCmd);
    assert_eq!(MessageType::try_from(0x03).unwrap(), MessageType::StatusUpdate);
    assert_eq!(MessageType::try_from(0x04).unwrap(), MessageType::StdoutData);
    assert_eq!(MessageType::try_from(0x05).unwrap(), MessageType::SessionInfo);
    assert_eq!(MessageType::try_from(0x06).unwrap(), MessageType::Error);
}

#[test]
fn test_message_type_try_from_invalid() {
    assert!(MessageType::try_from(0x00).is_err());
    assert!(MessageType::try_from(0x07).is_err());
    assert!(MessageType::try_from(0xFF).is_err());
}

#[test]
fn test_encode_message_empty_payload() {
    let encoded = encode_message(MessageType::StdinData, &[]);
    assert_eq!(encoded.len(), 5);
    assert_eq!(encoded[0], 0x01);
    assert_eq!(&encoded[1..5], &[0x00, 0x00, 0x00, 0x00]);
}

#[test]
fn test_encode_message_with_payload() {
    let payload = b"Hello, World!";
    let encoded = encode_message(MessageType::StdoutData, payload);

    assert_eq!(encoded.len(), 5 + payload.len());
    assert_eq!(encoded[0], 0x04);

    let length = u32::from_be_bytes([encoded[1], encoded[2], encoded[3], encoded[4]]);
    assert_eq!(length as usize, payload.len());

    assert_eq!(&encoded[5..], payload);
}

#[test]
fn test_encode_decode_roundtrip() {
    let test_cases = vec![
        (MessageType::StdinData, b"test input".to_vec()),
        (MessageType::StdoutData, b"test output".to_vec()),
        (MessageType::Error, b"error message".to_vec()),
        (MessageType::SessionInfo, b"{}".to_vec()),
        (MessageType::ControlCmd, b"resize".to_vec()),
        (MessageType::StatusUpdate, b"connected".to_vec()),
    ];

    for (msg_type, payload) in test_cases {
        let encoded = encode_message(msg_type, &payload);
        let decoded = decode_message(&encoded).unwrap().unwrap();

        assert_eq!(decoded.0, msg_type);
        assert_eq!(decoded.1, payload);
        assert_eq!(decoded.2, encoded.len());
    }
}

#[test]
fn test_decode_message_insufficient_header() {
    assert!(decode_message(&[]).unwrap().is_none());
    assert!(decode_message(&[0x01]).unwrap().is_none());
    assert!(decode_message(&[0x01, 0x00]).unwrap().is_none());
    assert!(decode_message(&[0x01, 0x00, 0x00]).unwrap().is_none());
    assert!(decode_message(&[0x01, 0x00, 0x00, 0x00]).unwrap().is_none());
}

#[test]
fn test_decode_message_insufficient_payload() {
    let mut data = vec![0x01, 0x00, 0x00, 0x00, 0x0A];
    data.extend_from_slice(b"12345");

    assert!(decode_message(&data).unwrap().is_none());
}

#[test]
fn test_decode_message_exact_size() {
    let payload = b"exact";
    let encoded = encode_message(MessageType::StdoutData, payload);
    let decoded = decode_message(&encoded).unwrap().unwrap();

    assert_eq!(decoded.0, MessageType::StdoutData);
    assert_eq!(decoded.1, payload.to_vec());
    assert_eq!(decoded.2, encoded.len());
}

#[test]
fn test_decode_message_with_extra_data() {
    let payload = b"first message";
    let mut data = encode_message(MessageType::StdoutData, payload);
    data.extend_from_slice(b"extra data");

    let decoded = decode_message(&data).unwrap().unwrap();

    assert_eq!(decoded.0, MessageType::StdoutData);
    assert_eq!(decoded.1, payload.to_vec());
    assert_eq!(decoded.2, 5 + payload.len());
}

#[test]
fn test_decode_invalid_message_type() {
    let data = vec![0xFF, 0x00, 0x00, 0x00, 0x00];
    assert!(decode_message(&data).is_err());
}

#[test]
fn test_large_payload() {
    let large_payload = vec![0xAB; 65536];
    let encoded = encode_message(MessageType::StdoutData, &large_payload);

    assert_eq!(encoded.len(), 5 + large_payload.len());

    let decoded = decode_message(&encoded).unwrap().unwrap();
    assert_eq!(decoded.0, MessageType::StdoutData);
    assert_eq!(decoded.1, large_payload);
}

#[test]
fn test_zero_length_payload() {
    let encoded = vec![0x01, 0x00, 0x00, 0x00, 0x00];
    let decoded = decode_message(&encoded).unwrap().unwrap();

    assert_eq!(decoded.0, MessageType::StdinData);
    assert_eq!(decoded.1, Vec::<u8>::new());
    assert_eq!(decoded.2, 5);
}

#[test]
fn test_multiple_messages_in_buffer() {
    let msg1 = encode_message(MessageType::StdinData, b"first");
    let msg2 = encode_message(MessageType::StdoutData, b"second");
    let msg3 = encode_message(MessageType::Error, b"third");

    let mut buffer = Vec::new();
    buffer.extend_from_slice(&msg1);
    buffer.extend_from_slice(&msg2);
    buffer.extend_from_slice(&msg3);

    let (type1, payload1, consumed1) = decode_message(&buffer).unwrap().unwrap();
    assert_eq!(type1, MessageType::StdinData);
    assert_eq!(payload1, b"first");
    assert_eq!(consumed1, msg1.len());

    let (type2, payload2, consumed2) = decode_message(&buffer[consumed1..]).unwrap().unwrap();
    assert_eq!(type2, MessageType::StdoutData);
    assert_eq!(payload2, b"second");
    assert_eq!(consumed2, msg2.len());

    let (type3, payload3, consumed3) =
        decode_message(&buffer[consumed1 + consumed2..]).unwrap().unwrap();
    assert_eq!(type3, MessageType::Error);
    assert_eq!(payload3, b"third");
    assert_eq!(consumed3, msg3.len());
}

#[test]
fn test_buffer_creation() {
    let data = [0x48, 0x65, 0x6C, 0x6C, 0x6F];
    assert_eq!(data.len(), 5);
    assert_eq!(data[0], 0x48);
}

#[test]
fn frame_round_trip_exact() {
    let encoded = encode_message(MessageType::StdoutData, b"Protocol test data");
    let (t, payload, consumed) = decode_message(&encoded).unwrap().unwrap();
    assert_eq!(t, MessageType::StdoutData);
    assert_eq!(payload, b"Protocol test data");
    assert_eq!(consumed, 23);
}

#[test]
fn round_trip_all_types_and_boundary_lengths() {
    let types = [
        MessageType::StdinData,
        MessageType::ControlCmd,
        MessageType::StatusUpdate,
        MessageType::StdoutData,
        MessageType::SessionInfo,
        MessageType::Error,
    ];
    let lengths = [0usize, 1, 4095, 4096, 65535];
    for &t in &types {
        for &n in &lengths {
            let payload = vec![0x5A; n];
            let encoded = encode_message(t, &payload);
            assert_eq!(encoded.len(), 5 + n);
            let (dt, dp, dc) = decode_message(&encoded).unwrap().unwrap();
            assert_eq!(dt, t);
            assert_eq!(dp, payload);
            assert_eq!(dc, 5 + n);
        }
    }
}

#[test]
fn decode_never_returns_partial_payload() {
    let encoded = encode_message(MessageType::Error, b"truncation check");
    for cut in 0..encoded.len() {
        let r = decode_message(&encoded[..cut]).unwrap();
        assert!(r.is_none(), "truncated frame must ask for more bytes");
    }
    let full = decode_message(&encoded).unwrap().unwrap();
    assert_eq!(full.1, b"truncation check");
}

#[test]
fn take_frame_advances_buffer() {
    let mut buffer = Vec::new();
    buffer.extend_from_slice(&encode_message(MessageType::StdinData, b"first"));
    buffer.extend_from_slice(&encode_message(MessageType::StdoutData, b"second"));

    let first = take_frame(&mut buffer).unwrap().unwrap();
    assert_eq!(first.0, MessageType::StdinData);
    assert_eq!(first.1, b"first");

    let second = take_frame(&mut buffer).unwrap().unwrap();
    assert_eq!(second.0, MessageType::StdoutData);
    assert_eq!(second.1, b"second");

    assert!(take_frame(&mut buffer).unwrap().is_none());
    assert!(buffer.is_empty());
}

#[test]
fn take_frame_rejects_bad_type() {
    let mut buffer = vec![0x09, 0x00, 0x00, 0x00, 0x00];
    let r = take_frame(&mut buffer);
    assert_eq!(r, Err(VtError::BadMessageType(0x09)));
    assert_eq!(buffer.len(), 5);
}

#[test]
fn stdin_and_stdout_frames_carry_raw_bytes() {
    let f = stdin_frame(b"keys");
    assert_eq!(f[0], 0x01);
    assert_eq!(&f[5..], b"keys");
    let g = stdout_frame(b"echo");
    assert_eq!(g[0], 0x04);
    assert_eq!(&g[5..], b"echo");
}

#[test]
fn resize_frame_carries_json_command() {
    let f = resize_frame(120, 40);
    assert_eq!(f[0], 0x02);
    let payload = &f[5..];
    assert_eq!(payload, br#"{"cmd":"resize","cols":120,"rows":40}"#);
    let parsed: serde_json::Value = serde_json::from_slice(payload).unwrap();
    assert_eq!(parsed.get("cmd").unwrap().as_str().unwrap(), "resize");
    assert_eq!(parsed.get("cols").unwrap().as_u64().unwrap(), 120);
    assert_eq!(parsed.get("rows").unwrap().as_u64().unwrap(), 40);
}

#[test]
fn update_title_frame_escapes_json() {
    let f = update_title_frame("a \"quoted\"\\title\nwith\tcontrol\u{1}chars");
    assert_eq!(f[0], 0x02);
    let parsed: serde_json::Value = serde_json::from_slice(&f[5..]).unwrap();
    assert_eq!(parsed.get("cmd").unwrap().as_str().unwrap(), "update-title");
    assert_eq!(
        parsed.get("title").unwrap().as_str().unwrap(),
        "a \"quoted\"\\title\nwith\tcontrol\u{1}chars"
    );
}

#[test]
fn kill_frame_with_and_without_signal() {
    let f = kill_frame(&Some("SIGTERM".to_string()));
    assert_eq!(&f[5..], br#"{"cmd":"kill","signal":"SIGTERM"}"#);
    let g = kill_frame(&None);
    assert_eq!(&g[5..], br#"{"cmd":"kill"}"#);
}
