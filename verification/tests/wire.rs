use agent_shell_tools::wire::{decode, encode, ClientMessage, ServerMessage};

#[test]
fn roundtrip_exec_request() {
    let msg = ClientMessage::ExecRequest {
        argv: vec!["gh".into(), "run".into(), "view".into(), "123".into()],
        working_dir: "/workspace".into(),
    };
    let bytes = encode(&msg).unwrap();
    let decoded: ClientMessage = decode(&bytes).unwrap();
    assert_eq!(decoded, msg);
}

#[test]
fn roundtrip_exec_request_empty_working_dir() {
    let msg = ClientMessage::ExecRequest {
        argv: vec!["echo".into()],
        working_dir: String::new(),
    };
    let bytes = encode(&msg).unwrap();
    let decoded: ClientMessage = decode(&bytes).unwrap();
    assert_eq!(decoded, msg);
}

#[test]
fn roundtrip_term_signal() {
    let msg = ClientMessage::TermSignal { signo: 15 };
    let bytes = encode(&msg).unwrap();
    let decoded: ClientMessage = decode(&bytes).unwrap();
    assert_eq!(decoded, msg);
}

#[test]
fn roundtrip_filter_result_allowed() {
    let msg = ServerMessage::FilterResult { allowed: true, reason: String::new() };
    let bytes = encode(&msg).unwrap();
    let decoded: ServerMessage = decode(&bytes).unwrap();
    assert_eq!(decoded, msg);
}

#[test]
fn roundtrip_filter_result_denied() {
    let msg = ServerMessage::FilterResult {
        allowed: false,
        reason: "command not permitted".into(),
    };
    let bytes = encode(&msg).unwrap();
    let decoded: ServerMessage = decode(&bytes).unwrap();
    assert_eq!(decoded, msg);
}

#[test]
fn roundtrip_exit() {
    let msg = ServerMessage::Exit { code: 42 };
    let bytes = encode(&msg).unwrap();
    let decoded: ServerMessage = decode(&bytes).unwrap();
    assert_eq!(decoded, msg);
}

#[test]
fn decode_truncated_returns_error() {
    let bytes = encode(&ClientMessage::TermSignal { signo: 15 }).unwrap();
    let result = decode::<ClientMessage>(&bytes[..bytes.len() - 1]);
    assert!(result.is_err());
}

#[test]
fn decode_empty_returns_error() {
    let result = decode::<ClientMessage>(&[]);
    assert!(result.is_err());
}

#[test]
fn packets_are_exact() {
    let request = ClientMessage::ExecRequest {
        argv: vec!["gh".into(), "".into(), "é".into()],
        working_dir: "/w".into(),
    };
    assert_eq!(
        encode(&request).unwrap(),
        vec![0, 3, 2, b'g', b'h', 0, 2, 0xc3, 0xa9, 2, b'/', b'w'],
    );
    assert_eq!(encode(&ClientMessage::TermSignal { signo: 15 }).unwrap(), vec![1, 30]);
    assert_eq!(encode(&ClientMessage::TermSignal { signo: -1 }).unwrap(), vec![1, 1]);
    let denied = ServerMessage::FilterResult { allowed: false, reason: "no".into() };
    assert_eq!(encode(&denied).unwrap(), vec![0, 0, 2, b'n', b'o']);
    let allowed = ServerMessage::FilterResult { allowed: true, reason: String::new() };
    assert_eq!(encode(&allowed).unwrap(), vec![0, 1, 0]);
    assert_eq!(encode(&ServerMessage::Exit { code: 127 }).unwrap(), vec![1, 0xfe, 1]);
    assert_eq!(
        encode(&ServerMessage::Exit { code: i32::MIN }).unwrap(),
        vec![1, 0xff, 0xff, 0xff, 0xff, 0x0f],
    );
}

#[test]
fn long_strings_take_two_length_bytes() {
    let reason = "x".repeat(300);
    let bytes = encode(&ServerMessage::FilterResult { allowed: false, reason }).unwrap();
    assert_eq!(&bytes[..4], &[0, 0, 0xac, 2]);
    assert_eq!(bytes.len(), 304);
}

#[test]
fn trailing_bytes_are_ignored() {
    let msg = ServerMessage::Exit { code: -7 };
    let mut bytes = encode(&msg).unwrap();
    bytes.extend_from_slice(&[9, 9, 9]);
    assert_eq!(decode::<ServerMessage>(&bytes).unwrap(), msg);
}

#[test]
fn every_truncation_is_refused() {
    let msg = ClientMessage::ExecRequest {
        argv: vec!["echo".into(), "hello".into()],
        working_dir: "/tmp".into(),
    };
    let bytes = encode(&msg).unwrap();
    for n in 0..bytes.len() {
        assert!(decode::<ClientMessage>(&bytes[..n]).is_err());
    }
    let msg = ServerMessage::FilterResult { allowed: true, reason: "fine".into() };
    let bytes = encode(&msg).unwrap();
    for n in 0..bytes.len() {
        assert!(decode::<ServerMessage>(&bytes[..n]).is_err());
    }
}

#[test]
fn unknown_variants_are_refused() {
    for first in 2u8..128 {
        assert!(decode::<ClientMessage>(&[first, 0, 0, 0, 0]).is_err());
        assert!(decode::<ServerMessage>(&[first, 0, 0, 0, 0]).is_err());
    }
}

#[test]
fn the_first_byte_tells_the_variant() {
    assert_eq!(
        decode::<ClientMessage>(&[0, 0, 0]).unwrap(),
        ClientMessage::ExecRequest { argv: vec![], working_dir: String::new() },
    );
    assert_eq!(
        decode::<ClientMessage>(&[1, 4]).unwrap(),
        ClientMessage::TermSignal { signo: 2 },
    );
}

#[test]
fn bytes_that_are_not_utf8_are_refused() {
    assert!(decode::<ServerMessage>(&[0, 1, 1, 0xff]).is_err());
    assert!(decode::<ClientMessage>(&[0, 1, 1, 0xff, 0]).is_err());
}

#[test]
fn packets_agree_with_a_postcard_enum_by_hand() {
    // An enum is its variant's index, then the fields in order.
    let fields = (0u32, vec!["a", "bc"], "/d");
    let by_hand = postcard::to_allocvec(&fields).unwrap();
    let msg = ClientMessage::ExecRequest {
        argv: vec!["a".into(), "bc".into()],
        working_dir: "/d".into(),
    };
    assert_eq!(encode(&msg).unwrap(), by_hand);
}

#[test]
fn the_error_is_postcards_own() {
    let end = postcard::Error::DeserializeUnexpectedEnd;
    assert_eq!(decode::<ClientMessage>(&[]).unwrap_err().source, end);
    assert_eq!(decode::<ServerMessage>(&[1]).unwrap_err().source, end);
    let not_utf8 = decode::<ServerMessage>(&[0, 1, 1, 0xff]).unwrap_err().source;
    assert_eq!(not_utf8, postcard::Error::DeserializeBadUtf8);
}
