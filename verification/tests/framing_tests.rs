use ermis_call_node_wasm::framing::{
    encode_frame, FrameError, FrameReceiver, StreamOutcome, HEAD_LEN, MAX_FRAME_LEN,
};
use ermis_call_node_wasm::protocol::{classify_stream_kind, stream_header, StreamKind};

#[test]
fn encode_hello_world() {
    let v = encode_frame(b"hello world").unwrap();
    let mut expected = vec![0u8, 0, 0, 11];
    expected.extend_from_slice(b"hello world");
    assert_eq!(v, expected);
}

#[test]
fn encode_empty_payload() {
    assert_eq!(encode_frame(&[]).unwrap(), vec![0u8, 0, 0, 0]);
}

#[test]
fn encode_length_is_big_endian() {
    let payload = vec![7u8; 0x010203];
    let v = encode_frame(&payload).unwrap();
    assert_eq!(&v[..4], &[0x00, 0x01, 0x02, 0x03]);
    assert_eq!(v.len(), HEAD_LEN + payload.len());
    assert_eq!(&v[4..], &payload[..]);
}

#[test]
fn encode_limit() {
    let at_limit = vec![0u8; MAX_FRAME_LEN];
    let v = encode_frame(&at_limit).unwrap();
    assert_eq!(&v[..4], &[0x00, 0x80, 0x00, 0x00]);
    let over = vec![0u8; MAX_FRAME_LEN + 1];
    assert_eq!(encode_frame(&over), Err(FrameError::TooLarge));
}

#[test]
fn receiver_reads_whole_frames() {
    let mut stream = encode_frame(b"first").unwrap();
    stream.extend(encode_frame(b"second").unwrap());
    let mut rx = FrameReceiver::new();
    let step = rx.on_chunk(&stream);
    assert_eq!(step.frames, vec![b"first".to_vec(), b"second".to_vec()]);
    assert_eq!(step.outcome, StreamOutcome::Open);
    let end = rx.on_end();
    assert!(end.frames.is_empty());
    assert_eq!(end.outcome, StreamOutcome::Ended);
}

#[test]
fn receiver_ignores_chunk_boundaries() {
    let payloads: Vec<Vec<u8>> = vec![b"a".to_vec(), vec![], vec![9u8; 300], b"last".to_vec()];
    let mut stream = Vec::new();
    for p in &payloads {
        stream.extend(encode_frame(p).unwrap());
    }
    for chunk_len in 1..=stream.len() {
        let mut rx = FrameReceiver::new();
        let mut got = Vec::new();
        for chunk in stream.chunks(chunk_len) {
            let step = rx.on_chunk(chunk);
            assert_eq!(step.outcome, StreamOutcome::Open);
            got.extend(step.frames);
        }
        let end = rx.on_end();
        got.extend(end.frames);
        assert_eq!(end.outcome, StreamOutcome::Ended);
        assert_eq!(got, payloads);
    }
}

#[test]
fn receiver_waits_for_partial_frame() {
    let frame = encode_frame(b"payload").unwrap();
    let mut rx = FrameReceiver::new();
    let step = rx.on_chunk(&frame[..6]);
    assert!(step.frames.is_empty());
    assert_eq!(step.outcome, StreamOutcome::Open);
    let step = rx.on_chunk(&frame[6..]);
    assert_eq!(step.frames, vec![b"payload".to_vec()]);
}

#[test]
fn receiver_rejects_oversized_head() {
    let mut rx = FrameReceiver::new();
    let mut stream = encode_frame(b"ok").unwrap();
    stream.extend_from_slice(&[0x00, 0x80, 0x00, 0x01]);
    let step = rx.on_chunk(&stream);
    assert_eq!(step.frames, vec![b"ok".to_vec()]);
    assert_eq!(step.outcome, StreamOutcome::Failed(FrameError::TooLarge));
}

#[test]
fn receiver_end_inside_frame() {
    let frame = encode_frame(b"payload").unwrap();
    let mut rx = FrameReceiver::new();
    rx.on_chunk(&frame[..5]);
    let end = rx.on_end();
    assert!(end.frames.is_empty());
    assert_eq!(end.outcome, StreamOutcome::Failed(FrameError::BytesRemaining));
}

#[test]
fn receiver_end_inside_head() {
    let mut rx = FrameReceiver::new();
    rx.on_chunk(&[0, 0]);
    assert_eq!(rx.on_end().outcome, StreamOutcome::Failed(FrameError::BytesRemaining));
}

#[test]
fn receiver_end_after_bare_head() {
    let mut rx = FrameReceiver::new();
    rx.on_chunk(&[0, 0, 0, 5]);
    let end = rx.on_end();
    assert!(end.frames.is_empty());
    assert_eq!(end.outcome, StreamOutcome::Ended);
}

#[test]
fn receiver_end_with_oversized_head() {
    let mut rx = FrameReceiver::new();
    rx.on_chunk(&[0xff, 0xff, 0xff, 0xff]);
    assert_eq!(rx.on_end().outcome, StreamOutcome::Failed(FrameError::TooLarge));
}

#[test]
fn media_stream_round_trip() {
    let payloads: Vec<Vec<u8>> = vec![b"key frame".to_vec(), b"delta".to_vec()];
    let mut stream = vec![stream_header(StreamKind::Video)];
    for p in &payloads {
        stream.extend(encode_frame(p).unwrap());
    }
    assert_eq!(classify_stream_kind(stream[0]), Some(StreamKind::Video));
    let mut rx = FrameReceiver::new();
    let mut got = rx.on_chunk(&stream[1..]).frames;
    let end = rx.on_end();
    got.extend(end.frames);
    assert_eq!(got, payloads);
    assert_eq!(end.outcome, StreamOutcome::Ended);
}
