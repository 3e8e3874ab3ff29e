use kotlin_analyzer::codec::encode_frame;
use kotlin_analyzer::codec::read_message;
use kotlin_analyzer::codec::scan_frame;
use kotlin_analyzer::codec::FrameScan;
use kotlin_analyzer::codec::ReadOutcome;
use kotlin_analyzer::errors::ProtocolError;

#[test]
fn scan_finds_a_complete_frame() {
    let buf = b"Content-Length: 5\r\n\r\nhello".to_vec();
    match scan_frame(&buf) {
        FrameScan::Frame { body_start, body_len } => {
            assert_eq!(body_start, 21);
            assert_eq!(body_len, 5);
            assert_eq!(&buf[body_start..body_start + body_len], b"hello");
        }
        other => panic!("expected a frame, got {:?}", other),
    }
}

#[test]
fn scan_waits_for_more_bytes() {
    assert_eq!(scan_frame(&b"Content-Length: 5\r\n".to_vec()), FrameScan::NeedMore);
    assert_eq!(scan_frame(&b"Content-Length: 5\r\n\r\nhel".to_vec()), FrameScan::NeedMore);
    assert_eq!(scan_frame(&b"".to_vec()), FrameScan::NeedMore);
}

#[test]
fn scan_rejects_headers_without_length() {
    let buf = b"Content-Type: application/json\r\n\r\n{}".to_vec();
    assert_eq!(
        scan_frame(&buf),
        FrameScan::Malformed(ProtocolError::MissingContentLength)
    );
}

#[test]
fn scan_rejects_bad_length_value() {
    let buf = b"Content-Length: five\r\n\r\n".to_vec();
    assert!(matches!(
        scan_frame(&buf),
        FrameScan::Malformed(ProtocolError::InvalidJsonRpc(_))
    ));
}

#[test]
fn scan_ignores_unknown_headers_and_takes_last_length() {
    let buf = b"Content-Type: utf8\r\nContent-Length: 99\r\nContent-Length: 2\r\n\r\n{}x".to_vec();
    match scan_frame(&buf) {
        FrameScan::Frame { body_start, body_len } => {
            assert_eq!(body_len, 2);
            assert_eq!(&buf[body_start..body_start + body_len], b"{}");
        }
        other => panic!("expected a frame, got {:?}", other),
    }
}

#[test]
fn read_message_decodes_a_framed_response() {
    let body = br#"{"jsonrpc":"2.0","id":7,"result":{"ok":true}}"#;
    let mut buf = format!("Content-Length: {}\r\n\r\n", body.len()).into_bytes();
    buf.extend_from_slice(body);
    let extra = buf.len();
    buf.extend_from_slice(b"Content-Length:"); // start of the next frame
    match read_message(&buf) {
        ReadOutcome::Message { resp, consumed } => {
            assert_eq!(consumed, extra);
            assert_eq!(resp.id, Some(7));
            assert!(resp.result.is_some());
        }
        other => panic!("expected a message, got {:?}", other),
    }
}

#[test]
fn read_message_reports_corrupt_body() {
    let buf = b"Content-Length: 3\r\n\r\n{{{".to_vec();
    assert!(matches!(read_message(&buf), ReadOutcome::Corrupt(_)));
}

#[test]
fn encode_frame_exact_bytes() {
    let framed = encode_frame(b"hello");
    assert_eq!(framed, b"Content-Length: 5\r\n\r\nhello".to_vec());
    let empty = encode_frame(b"");
    assert_eq!(empty, b"Content-Length: 0\r\n\r\n".to_vec());
}

#[test]
fn encode_then_scan_round_trips() {
    let body = br#"{"jsonrpc":"2.0","id":1,"method":"ping"}"#;
    let framed = encode_frame(body);
    match scan_frame(&framed) {
        FrameScan::Frame { body_start, body_len } => {
            assert_eq!(&framed[body_start..body_start + body_len], &body[..]);
            assert_eq!(body_start + body_len, framed.len());
        }
        other => panic!("expected a frame, got {:?}", other),
    }
}
