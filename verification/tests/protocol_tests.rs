use ermis_call_node_wasm::protocol::{
    alpn, classify_stream_kind, close_reason, stream_header, StreamKind, CLOSE_CODE,
    FRAME_CHANNEL_CAPACITY, GOP_NOTIFIER_CAPACITY, GOP_RESET_CODE, STREAM_KIND_AUDIO,
    STREAM_KIND_VIDEO,
};

#[test]
fn stream_header_bytes() {
    assert_eq!(stream_header(StreamKind::Audio), 0x01);
    assert_eq!(stream_header(StreamKind::Video), 0x02);
    assert_eq!(STREAM_KIND_AUDIO, 0x01);
    assert_eq!(STREAM_KIND_VIDEO, 0x02);
}

#[test]
fn classify_known_kinds() {
    assert_eq!(classify_stream_kind(0x01), Some(StreamKind::Audio));
    assert_eq!(classify_stream_kind(0x02), Some(StreamKind::Video));
}

#[test]
fn classify_unknown_kinds() {
    assert_eq!(classify_stream_kind(0x00), None);
    assert_eq!(classify_stream_kind(0x03), None);
    assert_eq!(classify_stream_kind(0xff), None);
}

#[test]
fn header_round_trip_for_every_kind() {
    for kind in [StreamKind::Audio, StreamKind::Video] {
        assert_eq!(classify_stream_kind(stream_header(kind)), Some(kind));
    }
    for b in 0u8..=255 {
        if let Some(kind) = classify_stream_kind(b) {
            assert_eq!(stream_header(kind), b);
        }
    }
}

#[test]
fn alpn_is_ermis_call() {
    assert_eq!(alpn(), b"ermis-call".to_vec());
}

#[test]
fn connection_constants() {
    assert_eq!(close_reason(), vec![0u8]);
    assert_eq!(CLOSE_CODE, 0);
    assert_eq!(GOP_RESET_CODE, 12);
    assert_eq!(FRAME_CHANNEL_CAPACITY, 60);
    assert_eq!(GOP_NOTIFIER_CAPACITY, 1);
}
