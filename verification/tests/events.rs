use event_loop_server::events::{parse_event, Event};

#[test]
fn ping_is_ping() {
    assert_eq!(parse_event(b"ping".to_vec()), Event::Ping(b"ping".to_vec()));
}

#[test]
fn ping_is_never_text() {
    assert_ne!(parse_event(b"ping".to_vec()), Event::Custom("ping".to_string()));
}

#[test]
fn empty_payload_is_empty_text() {
    assert_eq!(parse_event(Vec::new()), Event::Custom(String::new()));
}

#[test]
fn upper_case_ping_is_text() {
    assert_eq!(parse_event(b"PING".to_vec()), Event::Custom("PING".to_string()));
}

#[test]
fn ping_with_more_bytes_is_text() {
    assert_eq!(parse_event(b"ping\n".to_vec()), Event::Custom("ping\n".to_string()));
    assert_eq!(parse_event(b"pin".to_vec()), Event::Custom("pin".to_string()));
}

#[test]
fn invalid_utf8_is_unknown() {
    assert_eq!(parse_event(vec![0xFF, 0xFE]), Event::Unknown(vec![0xFF, 0xFE]));
}

#[test]
fn multi_byte_text_is_decoded() {
    let bytes = "héllo, wörld ✓".as_bytes().to_vec();
    assert_eq!(parse_event(bytes), Event::Custom("héllo, wörld ✓".to_string()));
}

#[test]
fn overlong_and_surrogate_encodings_are_unknown() {
    assert_eq!(parse_event(vec![0xC0, 0x80]), Event::Unknown(vec![0xC0, 0x80]));
    assert_eq!(parse_event(vec![0xED, 0xA0, 0x80]), Event::Unknown(vec![0xED, 0xA0, 0x80]));
}

#[test]
fn cut_off_sequence_is_unknown() {
    assert_eq!(parse_event(vec![b'a', 0xE2, 0x9C]), Event::Unknown(vec![b'a', 0xE2, 0x9C]));
}
