use ermis_call_node_wasm::audio::{AudioAction, AudioEvent, AudioFailure, AudioPhase, AudioStep, AudioTask};
use ermis_call_node_wasm::framing::{encode_frame, FrameError, FrameReceiver, StreamOutcome, MAX_FRAME_LEN};
use ermis_call_node_wasm::protocol::{classify_stream_kind, StreamKind};

fn written(step: &AudioStep) -> Vec<u8> {
    match &step.action {
        AudioAction::WriteBytes(b) => b.clone(),
        _ => panic!("expected a write"),
    }
}

#[test]
fn audio_sender_writes_audio_stream() {
    let mut task = AudioTask::new();
    let mut out = Vec::new();
    let s = task.step(AudioEvent::Opened);
    assert_eq!(written(&s), vec![0x01]);
    out.extend(written(&s));
    let s = task.step(AudioEvent::WriteSucceeded);
    assert!(matches!(s.action, AudioAction::AwaitFrame));
    for frame in [b"a1".to_vec(), b"a2".to_vec(), vec![]] {
        let s = task.step(AudioEvent::FrameReady(frame.clone()));
        assert_eq!(written(&s), encode_frame(&frame).unwrap());
        out.extend(written(&s));
        let s = task.step(AudioEvent::WriteSucceeded);
        assert!(matches!(s.action, AudioAction::AwaitFrame));
    }
    let s = task.step(AudioEvent::QueueClosed);
    assert!(matches!(s.action, AudioAction::Stop));
    assert_eq!(s.failure, None);
    assert_eq!(task.phase(), AudioPhase::Done);

    assert_eq!(classify_stream_kind(out[0]), Some(StreamKind::Audio));
    let mut rx = FrameReceiver::new();
    let mut got = rx.on_chunk(&out[1..]).frames;
    let end = rx.on_end();
    got.extend(end.frames);
    assert_eq!(end.outcome, StreamOutcome::Ended);
    assert_eq!(got, vec![b"a1".to_vec(), b"a2".to_vec(), vec![]]);
}

#[test]
fn audio_sender_stops_on_open_or_tag_failure() {
    let mut task = AudioTask::new();
    let s = task.step(AudioEvent::OpenFailed);
    assert!(matches!(s.action, AudioAction::Stop));
    assert_eq!(s.failure, Some(AudioFailure::OpenStream));

    let mut task = AudioTask::new();
    task.step(AudioEvent::Opened);
    let s = task.step(AudioEvent::WriteFailed);
    assert!(matches!(s.action, AudioAction::Stop));
    assert_eq!(s.failure, Some(AudioFailure::WriteTag));
}

#[test]
fn audio_sender_stops_on_frame_failure() {
    let mut task = AudioTask::new();
    task.step(AudioEvent::Opened);
    task.step(AudioEvent::WriteSucceeded);
    task.step(AudioEvent::FrameReady(vec![1]));
    let s = task.step(AudioEvent::WriteFailed);
    assert!(matches!(s.action, AudioAction::Stop));
    assert_eq!(s.failure, Some(AudioFailure::Frame(None)));
    let s = task.step(AudioEvent::FrameReady(vec![2]));
    assert!(matches!(s.action, AudioAction::Stop));
    assert_eq!(s.failure, None);
}

#[test]
fn audio_sender_stops_on_oversized_frame() {
    let mut task = AudioTask::new();
    task.step(AudioEvent::Opened);
    task.step(AudioEvent::WriteSucceeded);
    let s = task.step(AudioEvent::FrameReady(vec![0u8; MAX_FRAME_LEN + 1]));
    assert!(matches!(s.action, AudioAction::Stop));
    assert_eq!(s.failure, Some(AudioFailure::Frame(Some(FrameError::TooLarge))));
    assert_eq!(task.phase(), AudioPhase::Done);
}
