use ermis_call_node_wasm::framing::{encode_frame, FrameError, FrameReceiver, StreamOutcome, MAX_FRAME_LEN};
use ermis_call_node_wasm::protocol::{classify_stream_kind, StreamKind, GOP_RESET_CODE};
use ermis_call_node_wasm::video::{
    begin_gop, GopError, VideoAction, VideoEvent, VideoFailure, VideoPhase, VideoStep, VideoTask,
};

fn written(step: &VideoStep) -> Vec<u8> {
    match &step.action {
        VideoAction::WriteBytes(b) => b.clone(),
        _ => panic!("expected a write"),
    }
}

#[test]
fn gop_needs_a_connection() {
    assert_eq!(begin_gop(true), Ok(()));
    assert_eq!(begin_gop(false), Err(GopError::NoConnection));
}

#[test]
fn gop_sender_writes_media_stream_then_resets() {
    let mut task = VideoTask::new(b"key".to_vec());
    let mut out = Vec::new();
    let s = task.step(VideoEvent::Opened);
    assert_eq!(written(&s), vec![0x02]);
    out.extend(written(&s));
    let s = task.step(VideoEvent::WriteSucceeded);
    assert_eq!(written(&s), encode_frame(b"key").unwrap());
    out.extend(written(&s));
    let s = task.step(VideoEvent::WriteSucceeded);
    assert!(matches!(s.action, VideoAction::AwaitFirstFrame));
    let s = task.step(VideoEvent::FrameReady(b"first".to_vec()));
    out.extend(written(&s));
    let s = task.step(VideoEvent::WriteSucceeded);
    assert!(matches!(s.action, VideoAction::AwaitFrameOrGop));
    let s = task.step(VideoEvent::FrameReady(b"second".to_vec()));
    out.extend(written(&s));
    let s = task.step(VideoEvent::WriteSucceeded);
    assert!(matches!(s.action, VideoAction::AwaitFrameOrGop));
    assert_eq!(task.phase(), VideoPhase::Forwarding);
    let s = task.step(VideoEvent::NewGop);
    assert!(matches!(s.action, VideoAction::ResetStream(c) if c == GOP_RESET_CODE));
    assert_eq!(s.failure, None);
    let s = task.step(VideoEvent::ResetSucceeded);
    assert!(matches!(s.action, VideoAction::Stop));
    assert_eq!(task.phase(), VideoPhase::Done);

    assert_eq!(classify_stream_kind(out[0]), Some(StreamKind::Video));
    let mut rx = FrameReceiver::new();
    let mut got = rx.on_chunk(&out[1..]).frames;
    let end = rx.on_end();
    got.extend(end.frames);
    assert_eq!(end.outcome, StreamOutcome::Ended);
    assert_eq!(got, vec![b"key".to_vec(), b"first".to_vec(), b"second".to_vec()]);
}

#[test]
fn gop_sender_open_and_tag_failures() {
    let mut task = VideoTask::new(vec![1]);
    let s = task.step(VideoEvent::OpenFailed);
    assert!(matches!(s.action, VideoAction::Stop));
    assert_eq!(s.failure, Some(VideoFailure::OpenStream));

    let mut task = VideoTask::new(vec![1]);
    task.step(VideoEvent::Opened);
    let s = task.step(VideoEvent::WriteFailed);
    assert!(matches!(s.action, VideoAction::Stop));
    assert_eq!(s.failure, Some(VideoFailure::WriteTag));
}

#[test]
fn gop_sender_continues_after_frame_failures() {
    let mut task = VideoTask::new(vec![1]);
    task.step(VideoEvent::Opened);
    task.step(VideoEvent::WriteSucceeded);
    let s = task.step(VideoEvent::WriteFailed);
    assert!(matches!(s.action, VideoAction::AwaitFirstFrame));
    assert_eq!(s.failure, Some(VideoFailure::KeyFrame(None)));
    let s = task.step(VideoEvent::FrameReady(vec![0u8; MAX_FRAME_LEN + 1]));
    assert!(matches!(s.action, VideoAction::AwaitFrameOrGop));
    assert_eq!(s.failure, Some(VideoFailure::NextFrame(Some(FrameError::TooLarge))));
    task.step(VideoEvent::FrameReady(vec![2]));
    let s = task.step(VideoEvent::WriteFailed);
    assert!(matches!(s.action, VideoAction::AwaitFrameOrGop));
    assert_eq!(s.failure, Some(VideoFailure::Frame(None)));
}

#[test]
fn gop_sender_oversized_key_frame_is_skipped() {
    let mut task = VideoTask::new(vec![0u8; MAX_FRAME_LEN + 1]);
    task.step(VideoEvent::Opened);
    let s = task.step(VideoEvent::WriteSucceeded);
    assert!(matches!(s.action, VideoAction::AwaitFirstFrame));
    assert_eq!(s.failure, Some(VideoFailure::KeyFrame(Some(FrameError::TooLarge))));
}

#[test]
fn gop_sender_closed_queue_waits_for_gop() {
    let mut task = VideoTask::new(vec![1]);
    task.step(VideoEvent::Opened);
    task.step(VideoEvent::WriteSucceeded);
    task.step(VideoEvent::WriteSucceeded);
    let s = task.step(VideoEvent::QueueClosed);
    assert!(matches!(s.action, VideoAction::AwaitGop));
    let s = task.step(VideoEvent::NewGop);
    assert!(matches!(s.action, VideoAction::ResetStream(12)));
    let s = task.step(VideoEvent::ResetFailed);
    assert!(matches!(s.action, VideoAction::Stop));
    assert_eq!(s.failure, Some(VideoFailure::Reset));
}

#[test]
fn gop_sender_without_gop_signal() {
    let mut task = VideoTask::new(vec![1]);
    task.step(VideoEvent::Opened);
    task.step(VideoEvent::WriteSucceeded);
    task.step(VideoEvent::WriteSucceeded);
    task.step(VideoEvent::FrameReady(vec![3]));
    task.step(VideoEvent::WriteSucceeded);
    let s = task.step(VideoEvent::GopClosed);
    assert!(matches!(s.action, VideoAction::AwaitFrame));
    let s = task.step(VideoEvent::FrameReady(vec![4]));
    assert_eq!(written(&s), encode_frame(&[4]).unwrap());
    let s = task.step(VideoEvent::WriteSucceeded);
    assert!(matches!(s.action, VideoAction::AwaitFrame));
    let s = task.step(VideoEvent::QueueClosed);
    assert!(matches!(s.action, VideoAction::Stop));
    assert_eq!(s.failure, Some(VideoFailure::Abandoned));
}

#[test]
fn gop_sender_done_stays_done() {
    let mut task = VideoTask::new(vec![1]);
    task.step(VideoEvent::OpenFailed);
    let s = task.step(VideoEvent::FrameReady(vec![5]));
    assert!(matches!(s.action, VideoAction::Stop));
    assert_eq!(s.failure, None);
    assert_eq!(task.phase(), VideoPhase::Done);
}
