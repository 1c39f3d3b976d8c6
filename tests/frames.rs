use speech_wire::clock::{MAX_CLOCK_MILLIS, MIN_CLOCK_MILLIS};
use speech_wire::frame::{
    make_binary_message, make_binary_payload, make_text_message, transform_headers_to_string,
    EncodeError, Frame, Request, MAX_HEADER_LEN,
};

const STAMP: &str = "2024-01-01T00:00:00.000Z";
const STAMP_MILLIS: i64 = 1_704_067_200_000;

fn text_of(f: Frame) -> String {
    match f {
        Frame::Text(t) => t,
        Frame::Binary(_) => panic!("expected a text frame"),
    }
}

fn bytes_of(f: Frame) -> Vec<u8> {
    match f {
        Frame::Binary(b) => b,
        Frame::Text(_) => panic!("expected a binary frame"),
    }
}

fn config_update() -> Request {
    Request::ConfigUpdate {
        session_id: "abc123".to_string(),
        payload: "{\"lang\":\"en-US\"}".to_string(),
    }
}

fn header_len(b: &[u8]) -> usize {
    ((b[0] as usize) << 8) | b[1] as usize
}

#[test]
fn config_update_text_frame_example() {
    let frame = config_update().into_frame(STAMP).unwrap();
    assert_eq!(
        text_of(frame),
        "Path: speech.config\r\nX-RequestId: abc123\r\nX-Timestamp: 2024-01-01T00:00:00.000Z\r\nContent-Type: application/json\r\n\r\n{\"lang\":\"en-US\"}"
    );
}

#[test]
fn config_update_at_clock_value_example() {
    let frame = config_update().encode_at(STAMP_MILLIS).unwrap();
    assert_eq!(
        text_of(frame),
        "Path: speech.config\r\nX-RequestId: abc123\r\nX-Timestamp: 2024-01-01T00:00:00.000Z\r\nContent-Type: application/json\r\n\r\n{\"lang\":\"en-US\"}"
    );
}

#[test]
fn clock_value_is_rendered_with_milliseconds() {
    let frame = Request::AudioChunk { session_id: "s1".to_string(), payload: None }
        .encode_at(1_718_454_225_123)
        .unwrap();
    let b = bytes_of(frame);
    let h = header_len(&b);
    let headers = String::from_utf8(b[2..2 + h].to_vec()).unwrap();
    assert_eq!(headers, "Path: audio\r\nX-RequestId: s1\r\nX-Timestamp: 2024-06-15T12:23:45.123Z\r\n");
}

#[test]
fn context_update_uses_context_path() {
    let r = Request::ContextUpdate { session_id: "c".to_string(), payload: "{}".to_string() };
    assert_eq!(
        text_of(r.into_frame("T").unwrap()),
        "Path: speech.context\r\nX-RequestId: c\r\nX-Timestamp: T\r\nContent-Type: application/json\r\n\r\n{}"
    );
}

#[test]
fn audio_chunk_without_payload_has_empty_tail() {
    let frame = Request::AudioChunk { session_id: "s1".to_string(), payload: None }
        .into_frame(STAMP)
        .unwrap();
    let b = bytes_of(frame);
    let header = "Path: audio\r\nX-RequestId: s1\r\nX-Timestamp: 2024-01-01T00:00:00.000Z\r\n";
    let h = header.len();
    assert_eq!(header_len(&b), h);
    assert_eq!(b.len(), 2 + h + 0);
    assert_eq!(&b[2..2 + h], header.as_bytes());
    assert!(b[2 + h..].is_empty());
}

#[test]
fn audio_start_keeps_payload_bytes() {
    let payload = vec![7u8, 0, 255];
    let frame = Request::AudioStart {
        session_id: "s1".to_string(),
        content_type: "audio/wav".to_string(),
        payload: payload.clone(),
    }
    .into_frame(STAMP)
    .unwrap();
    let b = bytes_of(frame);
    let h = header_len(&b);
    assert_eq!(&b[2 + h..2 + h + 3], &payload[..]);
    assert_eq!(b.len(), 2 + h + 3);
    let headers = String::from_utf8(b[2..2 + h].to_vec()).unwrap();
    assert_eq!(
        headers,
        "Path: audio\r\nX-RequestId: s1\r\nX-Timestamp: 2024-01-01T00:00:00.000Z\r\nContent-Type: audio/wav\r\n"
    );
}

#[test]
fn encoding_twice_gives_identical_frames() {
    let requests = vec![
        config_update(),
        Request::ContextUpdate { session_id: "x".to_string(), payload: "[1,2]".to_string() },
        Request::AudioStart {
            session_id: "x".to_string(),
            content_type: "audio/wav".to_string(),
            payload: vec![1, 2, 3],
        },
        Request::AudioChunk { session_id: "x".to_string(), payload: Some(vec![9; 10]) },
    ];
    for r in requests {
        let a = r.clone().encode_at(STAMP_MILLIS).unwrap();
        let b = r.encode_at(STAMP_MILLIS).unwrap();
        assert_eq!(a, b);
    }
}

#[test]
fn binary_length_prefix_reads_back() {
    let payload = vec![5u8; 300];
    let b = bytes_of(
        Request::AudioChunk { session_id: "session".to_string(), payload: Some(payload.clone()) }
            .into_frame(STAMP)
            .unwrap(),
    );
    let h = header_len(&b);
    assert_eq!(h, "Path: audio\r\nX-RequestId: session\r\nX-Timestamp: 2024-01-01T00:00:00.000Z\r\n".len());
    assert_eq!(b.len() - 2 - h, payload.len());
    assert_eq!(&b[2 + h..], &payload[..]);
}

#[test]
fn text_frame_has_one_blank_line() {
    let t = text_of(config_update().into_frame(STAMP).unwrap());
    assert_eq!(t.matches("\r\n\r\n").count(), 1);
    let (head, body) = t.split_once("\r\n\r\n").unwrap();
    assert!(!head.is_empty());
    assert_eq!(body, "{\"lang\":\"en-US\"}");
}

#[test]
fn text_message_without_body_ends_at_blank_line() {
    let t = make_text_message("p", "id", STAMP, None, None).unwrap();
    assert_eq!(t, "Path: p\r\nX-RequestId: id\r\nX-Timestamp: 2024-01-01T00:00:00.000Z\r\n\r\n");
    assert!(t.ends_with("\r\n\r\n"));
    assert_eq!(t.matches("\r\n\r\n").count(), 1);
}

#[test]
fn headers_come_in_wire_order() {
    let t = text_of(config_update().into_frame(STAMP).unwrap());
    let path = t.find("Path:").unwrap();
    let id = t.find("X-RequestId:").unwrap();
    let ts = t.find("X-Timestamp:").unwrap();
    let ct = t.find("Content-Type:").unwrap();
    assert_eq!(path, 0);
    assert!(path < id && id < ts && ts < ct);
}

#[test]
fn header_pairs_render_in_order() {
    let headers = vec![
        ("B".to_string(), "2".to_string()),
        ("A".to_string(), "1".to_string()),
    ];
    assert_eq!(transform_headers_to_string(&headers), "B: 2\r\nA: 1\r\n");
    assert_eq!(transform_headers_to_string(&Vec::new()), "");
}

#[test]
fn binary_payload_layout() {
    let b = make_binary_payload("ab".to_string(), Some(vec![1, 2])).unwrap();
    assert_eq!(b, vec![0, 2, b'a', b'b', 1, 2]);
    let b = make_binary_payload(String::new(), None).unwrap();
    assert_eq!(b, vec![0, 0]);
}

#[test]
fn binary_payload_length_is_big_endian() {
    let header = "h".repeat(0x1234);
    let b = make_binary_payload(header, None).unwrap();
    assert_eq!(b[0], 0x12);
    assert_eq!(b[1], 0x34);
    assert_eq!(b.len(), 2 + 0x1234);
}

#[test]
fn largest_header_block_fits() {
    let b = make_binary_payload("x".repeat(MAX_HEADER_LEN), Some(vec![1])).unwrap();
    assert_eq!(b[0], 0xff);
    assert_eq!(b[1], 0xff);
    assert_eq!(b.len(), 2 + MAX_HEADER_LEN + 1);
}

#[test]
fn oversized_header_block_is_refused() {
    assert_eq!(
        make_binary_payload("x".repeat(MAX_HEADER_LEN + 1), None),
        Err(EncodeError::HeaderOverflow)
    );
    let r = Request::AudioChunk { session_id: "s".repeat(70_000), payload: None };
    assert_eq!(r.into_frame(STAMP), Err(EncodeError::HeaderOverflow));
}

#[test]
fn long_session_id_is_fine_in_text_frames() {
    let r = Request::ConfigUpdate { session_id: "s".repeat(70_000), payload: "{}".to_string() };
    assert!(r.into_frame(STAMP).is_ok());
}

#[test]
fn empty_session_id_is_refused() {
    let r = Request::AudioChunk { session_id: String::new(), payload: None };
    assert_eq!(r.into_frame(STAMP), Err(EncodeError::InvariantViolation));
    let r = Request::ConfigUpdate { session_id: String::new(), payload: "{}".to_string() };
    assert_eq!(r.into_frame(STAMP), Err(EncodeError::InvariantViolation));
}

#[test]
fn crlf_in_header_value_is_refused() {
    let r = Request::ContextUpdate { session_id: "a\r\nb".to_string(), payload: "{}".to_string() };
    assert_eq!(r.into_frame(STAMP), Err(EncodeError::InvariantViolation));
    let r = Request::AudioStart {
        session_id: "a".to_string(),
        content_type: "audio/wav\r\n".to_string(),
        payload: vec![],
    };
    assert_eq!(r.into_frame(STAMP), Err(EncodeError::InvariantViolation));
    let r = Request::AudioChunk { session_id: "a".to_string(), payload: None };
    assert_eq!(r.into_frame("2024\r\n"), Err(EncodeError::InvariantViolation));
    assert_eq!(
        make_binary_message("au\r\ndio", "a", STAMP, None, None),
        Err(EncodeError::InvariantViolation)
    );
}

#[test]
fn lone_line_break_in_header_value_is_framed() {
    let r = Request::ConfigUpdate { session_id: "a\nb".to_string(), payload: "{}".to_string() };
    assert_eq!(
        text_of(r.into_frame("T").unwrap()),
        "Path: speech.config\r\nX-RequestId: a\nb\r\nX-Timestamp: T\r\nContent-Type: application/json\r\n\r\n{}"
    );
    let r = Request::AudioStart {
        session_id: "a\r".to_string(),
        content_type: "audio/wav\n".to_string(),
        payload: vec![1],
    };
    let b = bytes_of(r.into_frame("T").unwrap());
    let header = "Path: audio\r\nX-RequestId: a\r\r\nX-Timestamp: T\r\nContent-Type: audio/wav\n\r\n";
    assert_eq!(header_len(&b), header.len());
    assert_eq!(&b[2..2 + header.len()], header.as_bytes());
    assert_eq!(&b[2 + header.len()..], &[1u8][..]);
}

#[test]
fn crlf_in_text_body_is_refused() {
    let r = Request::ConfigUpdate { session_id: "a".to_string(), payload: "{\r\n}".to_string() };
    assert_eq!(r.into_frame(STAMP), Err(EncodeError::InvariantViolation));
    let r = Request::ConfigUpdate { session_id: "a".to_string(), payload: "{\n\"k\": 1\n}".to_string() };
    assert!(r.into_frame(STAMP).is_ok());
}

#[test]
fn clock_out_of_range_is_refused() {
    assert_eq!(config_update().encode_at(i64::MAX), Err(EncodeError::ClockOutOfRange));
    assert_eq!(config_update().encode_at(MAX_CLOCK_MILLIS + 1), Err(EncodeError::ClockOutOfRange));
    assert_eq!(config_update().encode_at(MIN_CLOCK_MILLIS - 1), Err(EncodeError::ClockOutOfRange));
}

#[test]
fn clock_range_ends_are_framed() {
    let chunk = || Request::AudioChunk { session_id: "s1".to_string(), payload: None };
    let last = bytes_of(chunk().encode_at(MAX_CLOCK_MILLIS).unwrap());
    assert_eq!(
        &last[2..],
        b"Path: audio\r\nX-RequestId: s1\r\nX-Timestamp: 9999-12-31T23:59:59.999Z\r\n"
    );
    let first = bytes_of(chunk().encode_at(MIN_CLOCK_MILLIS).unwrap());
    assert_eq!(
        &first[2..],
        b"Path: audio\r\nX-RequestId: s1\r\nX-Timestamp: 0000-01-01T00:00:00.000Z\r\n"
    );
    let before_epoch = bytes_of(chunk().encode_at(-1).unwrap());
    assert_eq!(
        &before_epoch[2..],
        b"Path: audio\r\nX-RequestId: s1\r\nX-Timestamp: 1969-12-31T23:59:59.999Z\r\n"
    );
}

#[test]
fn binary_message_with_content_type() {
    let b = make_binary_message("audio", "id", "T", Some("audio/ogg".to_string()), Some(vec![42])).unwrap();
    let header: &[u8] = b"Path: audio\r\nX-RequestId: id\r\nX-Timestamp: T\r\nContent-Type: audio/ogg\r\n";
    assert_eq!(header.len(), 71);
    let mut expected = vec![0u8, 71];
    expected.extend_from_slice(header);
    expected.push(42);
    assert_eq!(b, expected);
}
