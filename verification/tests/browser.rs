use ikaros_virtual::browser::{
    decode_length, native_response, read_message, request_event, write_message, FrameError,
    NativeRequest, RequestOutcome,
};

#[test]
fn native_messages_use_little_endian_framing() {
    let mut input = Vec::new();
    input.extend_from_slice(&3u32.to_le_bytes());
    input.extend_from_slice(b"owl");
    assert_eq!(
        read_message(&mut input.as_slice()).unwrap(),
        Some(b"owl".to_vec())
    );
}

#[test]
fn written_frames_read_back() {
    let mut stream = Vec::new();
    write_message(&mut stream, b"{\"accepted\":true}");
    write_message(&mut stream, b"");
    assert_eq!(&stream[..4], &17u32.to_le_bytes());
    let mut reader = stream.as_slice();
    assert_eq!(read_message(&mut reader), Ok(Some(b"{\"accepted\":true}".to_vec())));
    assert_eq!(read_message(&mut reader), Ok(Some(Vec::new())));
    assert_eq!(read_message(&mut reader), Ok(None));
}

#[test]
fn bad_frames_are_refused() {
    let mut short: &[u8] = &[1, 0];
    assert_eq!(read_message(&mut short), Ok(None));
    assert!(short.is_empty());
    let mut huge_input = Vec::new();
    huge_input.extend_from_slice(&(1_048_577u32).to_le_bytes());
    huge_input.extend_from_slice(b"xy");
    let mut huge = huge_input.as_slice();
    assert_eq!(read_message(&mut huge), Err(FrameError::TooLarge));
    assert_eq!(huge, b"xy");
    let mut cut_input = Vec::new();
    cut_input.extend_from_slice(&5u32.to_le_bytes());
    cut_input.extend_from_slice(b"ab");
    let mut cut = cut_input.as_slice();
    assert_eq!(read_message(&mut cut), Err(FrameError::Truncated));
    assert!(cut.is_empty());
    assert_eq!(decode_length(1_048_576u32.to_le_bytes()), Ok(1_048_576));
    assert_eq!(decode_length(1_048_577u32.to_le_bytes()), Err(FrameError::TooLarge));
}

#[test]
fn requests_become_browser_events_and_replies() {
    let event = request_event(NativeRequest::DownloadCompleted {
        path: "/tmp/a.zip".to_owned(),
    });
    assert_eq!(event.summary, "Browser download completed");
    assert_eq!(event.detail, "/tmp/a.zip");
    let event = request_event(NativeRequest::MediaChanged { playing: true });
    assert_eq!(event.detail, "playing");
    let reply = native_response(RequestOutcome::Recorded);
    assert!(reply.accepted);
    assert_eq!(reply.message, "recorded");
    let reply = native_response(RequestOutcome::Invalid);
    assert!(!reply.accepted);
    assert_eq!(reply.message, "invalid native message");
    assert_eq!(
        native_response(RequestOutcome::NotRecorded).message,
        "could not record event"
    );
}
