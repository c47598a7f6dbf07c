//! The sender of one group of pictures (GOP): it opens a unidirectional
//! stream, writes the video tag and the key frame, forwards the first queued
//! frame, then forwards frames until the next GOP supersedes this one, at
//! which point it resets the stream. The node performs each action and
//! reports its result back as the next event.
use vstd::prelude::*;
use crate::framing::{encode_frame, encoded_frame, lemma_encoded_frames_push, FrameError, MAX_FRAME_LEN};
use crate::protocol::{kind_byte, media_stream, StreamKind, GOP_RESET_CODE, STREAM_KIND_VIDEO};

verus! {

/// Why a new GOP could not be started.
#[derive(Clone, Copy, Debug, PartialEq, Eq, Structural)]
pub enum GopError {
    /// There is no connection to send it on.
    NoConnection,
}

/// A new GOP can start exactly when there is a current connection.
pub fn begin_gop(has_connection: bool) -> (r: Result<(), GopError>)
    ensures
        r is Err <==> !has_connection,
        r matches Err(e) ==> e == GopError::NoConnection,
{
    if has_connection {
        Ok(())
    } else {
        Err(GopError::NoConnection)
    }
}

/// Where the GOP sender stands.
#[derive(Clone, Copy, Debug, PartialEq, Eq, Structural)]
pub enum VideoPhase {
    /// Waiting for the stream to open.
    Opening,
    /// Writing the video tag.
    WritingTag,
    /// Writing the key frame.
    WritingKey,
    /// Waiting for the first queued frame.
    AwaitingFirst,
    /// Writing the first queued frame.
    WritingFirst,
    /// Waiting for a queued frame or a new GOP.
    Forwarding,
    /// Writing a queued frame; then back to `Forwarding`.
    WritingFrame,
    /// The new-GOP signal is gone: waiting for queued frames only.
    ForwardingNoGop,
    /// Writing a queued frame; then back to `ForwardingNoGop`.
    WritingFrameNoGop,
    /// The frame queue is closed: waiting for a new GOP only.
    AwaitingGop,
    /// Resetting the stream because a new GOP superseded this one.
    Resetting,
    /// Finished.
    Done,
}

/// What the node observed after the previous action.
pub enum VideoEvent {
    Opened,
    OpenFailed,
    WriteSucceeded,
    WriteFailed,
    /// A frame was taken off the frame queue.
    FrameReady(Vec<u8>),
    /// The frame queue has no sender left.
    QueueClosed,
    /// A new GOP was announced.
    NewGop,
    /// The new-GOP signal has no sender left.
    GopClosed,
    ResetSucceeded,
    ResetFailed,
}

/// What the node does next.
pub enum VideoAction {
    /// Write these bytes on the stream.
    WriteBytes(Vec<u8>),
    /// Wait for the first frame of the queue.
    AwaitFirstFrame,
    /// Wait for a queued frame or a new GOP, whichever comes first.
    AwaitFrameOrGop,
    /// Wait for a queued frame.
    AwaitFrame,
    /// Wait for a new GOP.
    AwaitGop,
    /// Reset the stream with this error code.
    ResetStream(u8),
    /// End the task.
    Stop,
}

/// [`VideoAction`] with its bytes as a sequence.
pub enum SpecVideoAction {
    WriteBytes(Seq<u8>),
    AwaitFirstFrame,
    AwaitFrameOrGop,
    AwaitFrame,
    AwaitGop,
    ResetStream(u8),
    Stop,
}

impl View for VideoAction {
    type V = SpecVideoAction;

    open spec fn view(&self) -> SpecVideoAction {
        match self {
            VideoAction::WriteBytes(b) => SpecVideoAction::WriteBytes(b@),
            VideoAction::AwaitFirstFrame => SpecVideoAction::AwaitFirstFrame,
            VideoAction::AwaitFrameOrGop => SpecVideoAction::AwaitFrameOrGop,
            VideoAction::AwaitFrame => SpecVideoAction::AwaitFrame,
            VideoAction::AwaitGop => SpecVideoAction::AwaitGop,
            VideoAction::ResetStream(c) => SpecVideoAction::ResetStream(*c),
            VideoAction::Stop => SpecVideoAction::Stop,
        }
    }
}

/// A failure the node reports; a frame failure carries the frame error when
/// the frame could not be encoded, and `None` when writing it failed.
#[derive(Clone, Copy, Debug, PartialEq, Eq, Structural)]
pub enum VideoFailure {
    OpenStream,
    WriteTag,
    KeyFrame(Option<FrameError>),
    NextFrame(Option<FrameError>),
    Frame(Option<FrameError>),
    Reset,
    /// Both the frame queue and the new-GOP signal are closed.
    Abandoned,
}

/// The next action, and the failure to report, if any.
pub struct VideoStep {
    pub action: VideoAction,
    pub failure: Option<VideoFailure>,
}

pub struct SpecVideoStep {
    pub action: SpecVideoAction,
    pub failure: Option<VideoFailure>,
}

impl View for VideoStep {
    type V = SpecVideoStep;

    open spec fn view(&self) -> SpecVideoStep {
        SpecVideoStep { action: self.action@, failure: self.failure }
    }
}

/// The state of a GOP sender: its phase, its key frame, the bytes it has
/// asked to write so far and the frames it was given so far (the key frame
/// first, then the queued frames in the order they were taken).
pub struct VideoTaskView {
    pub phase: VideoPhase,
    pub key: Seq<u8>,
    pub issued: Seq<u8>,
    pub offered: Seq<Seq<u8>>,
}

/// The frames among `frames` that the frame format can carry.
pub open spec fn within_limit(frames: Seq<Seq<u8>>) -> Seq<Seq<u8>> {
    frames.filter(fits_frame())
}

/// The payloads the frame format can carry.
pub open spec fn fits_frame() -> spec_fn(Seq<u8>) -> bool {
    |f: Seq<u8>| f.len() <= MAX_FRAME_LEN
}

pub open spec fn spec_step(action: SpecVideoAction, failure: Option<VideoFailure>) -> SpecVideoStep {
    SpecVideoStep { action, failure }
}

/// Moves to `phase` with nothing written.
pub open spec fn goto(v: VideoTaskView, phase: VideoPhase) -> VideoTaskView {
    VideoTaskView { phase, ..v }
}

/// Takes frame `f`: when it can be encoded, writes it and moves to `writing`;
/// otherwise reports `failure` with the frame error and moves to `waiting`,
/// where the node waits with `wait`.
pub open spec fn take_frame(
    v: VideoTaskView,
    f: Seq<u8>,
    writing: VideoPhase,
    waiting: VideoPhase,
    wait: SpecVideoAction,
    failure: VideoFailure,
) -> (VideoTaskView, SpecVideoStep) {
    let offered = v.offered.push(f);
    if f.len() <= MAX_FRAME_LEN {
        (
            VideoTaskView { phase: writing, issued: v.issued + encoded_frame(f), offered, ..v },
            spec_step(SpecVideoAction::WriteBytes(encoded_frame(f)), None),
        )
    } else {
        (VideoTaskView { phase: waiting, offered, ..v }, spec_step(wait, Some(failure)))
    }
}

/// One step of the GOP sender.
pub open spec fn spec_video_step(v: VideoTaskView, e: VideoEvent) -> (VideoTaskView, SpecVideoStep) {
    let stop = (goto(v, VideoPhase::Done), spec_step(SpecVideoAction::Stop, None));
    match v.phase {
        VideoPhase::Opening => match e {
            VideoEvent::Opened => (
                VideoTaskView { phase: VideoPhase::WritingTag, issued: v.issued.push(STREAM_KIND_VIDEO), ..v },
                spec_step(SpecVideoAction::WriteBytes(seq![STREAM_KIND_VIDEO]), None),
            ),
            VideoEvent::OpenFailed => (
                goto(v, VideoPhase::Done),
                spec_step(SpecVideoAction::Stop, Some(VideoFailure::OpenStream)),
            ),
            _ => stop,
        },
        VideoPhase::WritingTag => match e {
            VideoEvent::WriteSucceeded => if v.key.len() <= MAX_FRAME_LEN {
                (
                    VideoTaskView { phase: VideoPhase::WritingKey, issued: v.issued + encoded_frame(v.key), ..v },
                    spec_step(SpecVideoAction::WriteBytes(encoded_frame(v.key)), None),
                )
            } else {
                (
                    goto(v, VideoPhase::AwaitingFirst),
                    spec_step(
                        SpecVideoAction::AwaitFirstFrame,
                        Some(VideoFailure::KeyFrame(Some(FrameError::TooLarge))),
                    ),
                )
            },
            VideoEvent::WriteFailed => (
                goto(v, VideoPhase::Done),
                spec_step(SpecVideoAction::Stop, Some(VideoFailure::WriteTag)),
            ),
            _ => stop,
        },
        VideoPhase::WritingKey => match e {
            VideoEvent::WriteSucceeded => (
                goto(v, VideoPhase::AwaitingFirst),
                spec_step(SpecVideoAction::AwaitFirstFrame, None),
            ),
            VideoEvent::WriteFailed => (
                goto(v, VideoPhase::AwaitingFirst),
                spec_step(SpecVideoAction::AwaitFirstFrame, Some(VideoFailure::KeyFrame(None))),
            ),
            _ => stop,
        },
        VideoPhase::AwaitingFirst => match e {
            VideoEvent::FrameReady(f) => take_frame(
                v,
                f@,
                VideoPhase::WritingFirst,
                VideoPhase::Forwarding,
                SpecVideoAction::AwaitFrameOrGop,
                VideoFailure::NextFrame(Some(FrameError::TooLarge)),
            ),
            VideoEvent::QueueClosed => (
                goto(v, VideoPhase::AwaitingGop),
                spec_step(SpecVideoAction::AwaitGop, None),
            ),
            _ => stop,
        },
        VideoPhase::WritingFirst => match e {
            VideoEvent::WriteSucceeded => (
                goto(v, VideoPhase::Forwarding),
                spec_step(SpecVideoAction::AwaitFrameOrGop, None),
            ),
            VideoEvent::WriteFailed => (
                goto(v, VideoPhase::Forwarding),
                spec_step(SpecVideoAction::AwaitFrameOrGop, Some(VideoFailure::NextFrame(None))),
            ),
            _ => stop,
        },
        VideoPhase::Forwarding => match e {
            VideoEvent::FrameReady(f) => take_frame(
                v,
                f@,
                VideoPhase::WritingFrame,
                VideoPhase::Forwarding,
                SpecVideoAction::AwaitFrameOrGop,
                VideoFailure::Frame(Some(FrameError::TooLarge)),
            ),
            VideoEvent::QueueClosed => (
                goto(v, VideoPhase::AwaitingGop),
                spec_step(SpecVideoAction::AwaitGop, None),
            ),
            VideoEvent::NewGop => (
                goto(v, VideoPhase::Resetting),
                spec_step(SpecVideoAction::ResetStream(GOP_RESET_CODE), None),
            ),
            VideoEvent::GopClosed => (
                goto(v, VideoPhase::ForwardingNoGop),
                spec_step(SpecVideoAction::AwaitFrame, None),
            ),
            _ => stop,
        },
        VideoPhase::WritingFrame => match e {
            VideoEvent::WriteSucceeded => (
                goto(v, VideoPhase::Forwarding),
                spec_step(SpecVideoAction::AwaitFrameOrGop, None),
            ),
            VideoEvent::WriteFailed => (
                goto(v, VideoPhase::Forwarding),
                spec_step(SpecVideoAction::AwaitFrameOrGop, Some(VideoFailure::Frame(None))),
            ),
            _ => stop,
        },
        VideoPhase::ForwardingNoGop => match e {
            VideoEvent::FrameReady(f) => take_frame(
                v,
                f@,
                VideoPhase::WritingFrameNoGop,
                VideoPhase::ForwardingNoGop,
                SpecVideoAction::AwaitFrame,
                VideoFailure::Frame(Some(FrameError::TooLarge)),
            ),
            VideoEvent::QueueClosed => (
                goto(v, VideoPhase::Done),
                spec_step(SpecVideoAction::Stop, Some(VideoFailure::Abandoned)),
            ),
            _ => stop,
        },
        VideoPhase::WritingFrameNoGop => match e {
            VideoEvent::WriteSucceeded => (
                goto(v, VideoPhase::ForwardingNoGop),
                spec_step(SpecVideoAction::AwaitFrame, None),
            ),
            VideoEvent::WriteFailed => (
                goto(v, VideoPhase::ForwardingNoGop),
                spec_step(SpecVideoAction::AwaitFrame, Some(VideoFailure::Frame(None))),
            ),
            _ => stop,
        },
        VideoPhase::AwaitingGop => match e {
            VideoEvent::NewGop => (
                goto(v, VideoPhase::Resetting),
                spec_step(SpecVideoAction::ResetStream(GOP_RESET_CODE), None),
            ),
            VideoEvent::GopClosed => (
                goto(v, VideoPhase::Done),
                spec_step(SpecVideoAction::Stop, Some(VideoFailure::Abandoned)),
            ),
            _ => stop,
        },
        VideoPhase::Resetting => match e {
            VideoEvent::ResetSucceeded => stop,
            VideoEvent::ResetFailed => (
                goto(v, VideoPhase::Done),
                spec_step(SpecVideoAction::Stop, Some(VideoFailure::Reset)),
            ),
            _ => stop,
        },
        VideoPhase::Done => stop,
    }
}

/// A GOP sender, driven one event at a time.
pub struct VideoTask {
    phase: VideoPhase,
    key_frame: Vec<u8>,
    issued: Ghost<Seq<u8>>,
    offered: Ghost<Seq<Seq<u8>>>,
}

impl View for VideoTask {
    type V = VideoTaskView;

    closed spec fn view(&self) -> VideoTaskView {
        VideoTaskView {
            phase: self.phase,
            key: self.key_frame@,
            issued: self.issued@,
            offered: self.offered@,
        }
    }
}

impl VideoTask {
    /// A sender for a GOP that starts with `key_frame`; its first action is
    /// to open the stream.
    pub fn new(key_frame: Vec<u8>) -> (r: VideoTask)
        ensures
            r@ == (VideoTaskView {
                phase: VideoPhase::Opening,
                key: key_frame@,
                issued: Seq::<u8>::empty(),
                offered: seq![key_frame@],
            }),
    {
        let ghost offered: Seq<Seq<u8>> = seq![key_frame@];
        VideoTask {
            phase: VideoPhase::Opening,
            key_frame,
            issued: Ghost(Seq::empty()),
            offered: Ghost(offered),
        }
    }

    /// The phase the sender is in.
    pub fn phase(&self) -> (p: VideoPhase)
        ensures
            p == self@.phase,
    {
        self.phase
    }

    fn goto(&mut self, phase: VideoPhase, action: VideoAction, failure: Option<VideoFailure>) -> (r: VideoStep)
        ensures
            final(self)@ == goto(old(self)@, phase),
            r.action == action,
            r.failure == failure,
    {
        self.phase = phase;
        VideoStep { action, failure }
    }

    fn take_frame(
        &mut self,
        f: Vec<u8>,
        writing: VideoPhase,
        waiting: VideoPhase,
        wait: VideoAction,
        failure: VideoFailure,
    ) -> (r: VideoStep)
        ensures
            (final(self)@, r@) == take_frame(old(self)@, f@, writing, waiting, wait@, failure),
    {
        let ghost fv = f@;
        self.offered = Ghost(self.offered@.push(fv));
        match encode_frame(&f) {
            Ok(bytes) => {
                self.issued = Ghost(self.issued@ + bytes@);
                self.phase = writing;
                VideoStep { action: VideoAction::WriteBytes(bytes), failure: None }
            },
            Err(_) => {
                self.phase = waiting;
                VideoStep { action: wait, failure: Some(failure) }
            },
        }
    }

    /// Takes the result of the previous action and returns the next one.
    pub fn step(&mut self, event: VideoEvent) -> (r: VideoStep)
        ensures
            (final(self)@, r@) == spec_video_step(old(self)@, event),
    {
        let ghost e = event;
        match self.phase {
            VideoPhase::Opening => match event {
                VideoEvent::Opened => {
                    self.issued = Ghost(self.issued@.push(STREAM_KIND_VIDEO));
                    self.phase = VideoPhase::WritingTag;
                    let tag: Vec<u8> = vec![STREAM_KIND_VIDEO];
                    assert(tag@ =~= seq![STREAM_KIND_VIDEO]);
                    VideoStep { action: VideoAction::WriteBytes(tag), failure: None }
                },
                VideoEvent::OpenFailed => self.goto(VideoPhase::Done, VideoAction::Stop, Some(VideoFailure::OpenStream)),
                _ => self.goto(VideoPhase::Done, VideoAction::Stop, None),
            },
            VideoPhase::WritingTag => match event {
                VideoEvent::WriteSucceeded => match encode_frame(&self.key_frame) {
                    Ok(bytes) => {
                        self.issued = Ghost(self.issued@ + bytes@);
                        self.phase = VideoPhase::WritingKey;
                        VideoStep { action: VideoAction::WriteBytes(bytes), failure: None }
                    },
                    Err(_) => self.goto(
                        VideoPhase::AwaitingFirst,
                        VideoAction::AwaitFirstFrame,
                        Some(VideoFailure::KeyFrame(Some(FrameError::TooLarge))),
                    ),
                },
                VideoEvent::WriteFailed => self.goto(VideoPhase::Done, VideoAction::Stop, Some(VideoFailure::WriteTag)),
                _ => self.goto(VideoPhase::Done, VideoAction::Stop, None),
            },
            VideoPhase::WritingKey => match event {
                VideoEvent::WriteSucceeded => self.goto(VideoPhase::AwaitingFirst, VideoAction::AwaitFirstFrame, None),
                VideoEvent::WriteFailed => self.goto(
                    VideoPhase::AwaitingFirst,
                    VideoAction::AwaitFirstFrame,
                    Some(VideoFailure::KeyFrame(None)),
                ),
                _ => self.goto(VideoPhase::Done, VideoAction::Stop, None),
            },
            VideoPhase::AwaitingFirst => match event {
                VideoEvent::FrameReady(f) => self.take_frame(
                    f,
                    VideoPhase::WritingFirst,
                    VideoPhase::Forwarding,
                    VideoAction::AwaitFrameOrGop,
                    VideoFailure::NextFrame(Some(FrameError::TooLarge)),
                ),
                VideoEvent::QueueClosed => self.goto(VideoPhase::AwaitingGop, VideoAction::AwaitGop, None),
                _ => self.goto(VideoPhase::Done, VideoAction::Stop, None),
            },
            VideoPhase::WritingFirst => match event {
                VideoEvent::WriteSucceeded => self.goto(VideoPhase::Forwarding, VideoAction::AwaitFrameOrGop, None),
                VideoEvent::WriteFailed => self.goto(
                    VideoPhase::Forwarding,
                    VideoAction::AwaitFrameOrGop,
                    Some(VideoFailure::NextFrame(None)),
                ),
                _ => self.goto(VideoPhase::Done, VideoAction::Stop, None),
            },
            VideoPhase::Forwarding => match event {
                VideoEvent::FrameReady(f) => self.take_frame(
                    f,
                    VideoPhase::WritingFrame,
                    VideoPhase::Forwarding,
                    VideoAction::AwaitFrameOrGop,
                    VideoFailure::Frame(Some(FrameError::TooLarge)),
                ),
                VideoEvent::QueueClosed => self.goto(VideoPhase::AwaitingGop, VideoAction::AwaitGop, None),
                VideoEvent::NewGop => self.goto(VideoPhase::Resetting, VideoAction::ResetStream(GOP_RESET_CODE), None),
                VideoEvent::GopClosed => self.goto(VideoPhase::ForwardingNoGop, VideoAction::AwaitFrame, None),
                _ => self.goto(VideoPhase::Done, VideoAction::Stop, None),
            },
            VideoPhase::WritingFrame => match event {
                VideoEvent::WriteSucceeded => self.goto(VideoPhase::Forwarding, VideoAction::AwaitFrameOrGop, None),
                VideoEvent::WriteFailed => self.goto(
                    VideoPhase::Forwarding,
                    VideoAction::AwaitFrameOrGop,
                    Some(VideoFailure::Frame(None)),
                ),
                _ => self.goto(VideoPhase::Done, VideoAction::Stop, None),
            },
            VideoPhase::ForwardingNoGop => match event {
                VideoEvent::FrameReady(f) => self.take_frame(
                    f,
                    VideoPhase::WritingFrameNoGop,
                    VideoPhase::ForwardingNoGop,
                    VideoAction::AwaitFrame,
                    VideoFailure::Frame(Some(FrameError::TooLarge)),
                ),
                VideoEvent::QueueClosed => self.goto(VideoPhase::Done, VideoAction::Stop, Some(VideoFailure::Abandoned)),
                _ => self.goto(VideoPhase::Done, VideoAction::Stop, None),
            },
            VideoPhase::WritingFrameNoGop => match event {
                VideoEvent::WriteSucceeded => self.goto(VideoPhase::ForwardingNoGop, VideoAction::AwaitFrame, None),
                VideoEvent::WriteFailed => self.goto(
                    VideoPhase::ForwardingNoGop,
                    VideoAction::AwaitFrame,
                    Some(VideoFailure::Frame(None)),
                ),
                _ => self.goto(VideoPhase::Done, VideoAction::Stop, None),
            },
            VideoPhase::AwaitingGop => match event {
                VideoEvent::NewGop => self.goto(VideoPhase::Resetting, VideoAction::ResetStream(GOP_RESET_CODE), None),
                VideoEvent::GopClosed => self.goto(VideoPhase::Done, VideoAction::Stop, Some(VideoFailure::Abandoned)),
                _ => self.goto(VideoPhase::Done, VideoAction::Stop, None),
            },
            VideoPhase::Resetting => match event {
                VideoEvent::ResetFailed => self.goto(VideoPhase::Done, VideoAction::Stop, Some(VideoFailure::Reset)),
                _ => self.goto(VideoPhase::Done, VideoAction::Stop, None),
            },
            VideoPhase::Done => self.goto(VideoPhase::Done, VideoAction::Stop, None),
        }
    }
}

/// What a GOP sender has written at each point: nothing before the stream is
/// open, then the video tag, then exactly the media stream of the frames it
/// was given (key frame first) that the frame format can carry; once done, a
/// prefix of that stream.
pub open spec fn video_task_wf(v: VideoTaskView) -> bool {
    &&& v.offered.len() >= 1
    &&& v.offered[0] == v.key
    &&& match v.phase {
        VideoPhase::Opening => v.issued == Seq::<u8>::empty() && v.offered.len() == 1,
        VideoPhase::WritingTag => v.issued == seq![STREAM_KIND_VIDEO] && v.offered.len() == 1,
        VideoPhase::Done => v.issued.is_prefix_of(media_stream(StreamKind::Video, within_limit(v.offered))),
        _ => v.issued == media_stream(StreamKind::Video, within_limit(v.offered)),
    }
}

/// A new GOP sender starts in the well-formed state.
pub proof fn lemma_new_video_task_wf(key: Seq<u8>)
    ensures
        video_task_wf(VideoTaskView {
            phase: VideoPhase::Opening,
            key,
            issued: Seq::<u8>::empty(),
            offered: seq![key],
        }),
{
}

/// Taking one more frame keeps it among the writable frames exactly when it fits.
pub proof fn lemma_within_limit_push(frames: Seq<Seq<u8>>, f: Seq<u8>)
    ensures
        within_limit(frames.push(f)) == if f.len() <= MAX_FRAME_LEN {
            within_limit(frames).push(f)
        } else {
            within_limit(frames)
        },
{
    frames.lemma_filter_push(f, fits_frame());
}

proof fn lemma_within_limit_single(key: Seq<u8>)
    ensures
        within_limit(seq![key]) == if key.len() <= MAX_FRAME_LEN {
            seq![key]
        } else {
            Seq::<Seq<u8>>::empty()
        },
{
    reveal(Seq::filter);
    assert(Seq::<Seq<u8>>::empty().filter(fits_frame()) =~= Seq::<Seq<u8>>::empty());
    assert(seq![key] =~= Seq::<Seq<u8>>::empty().push(key));
    lemma_within_limit_push(Seq::<Seq<u8>>::empty(), key);
    assert(Seq::<Seq<u8>>::empty().push(key) =~= seq![key]);
}

/// One more frame on a media stream appends its bytes to the stream.
pub proof fn lemma_media_stream_push(kind: StreamKind, ps: Seq<Seq<u8>>, f: Seq<u8>)
    ensures
        media_stream(kind, ps.push(f)) == media_stream(kind, ps) + encoded_frame(f),
{
    lemma_encoded_frames_push(ps, f);
    assert(media_stream(kind, ps.push(f)) =~= media_stream(kind, ps) + encoded_frame(f));
}

/// Every step of a GOP sender keeps its writes well formed and only ever
/// appends to them: whatever the events, the bytes it has asked to write are
/// a prefix of the video stream of the frames it was given, in order.
pub proof fn lemma_video_step_wf(v: VideoTaskView, e: VideoEvent)
    requires
        video_task_wf(v),
    ensures
        video_task_wf(spec_video_step(v, e).0),
        v.issued.is_prefix_of(spec_video_step(v, e).0.issued),
        spec_video_step(v, e).0.issued.is_prefix_of(
            media_stream(StreamKind::Video, within_limit(spec_video_step(v, e).0.offered)),
        ),
{
    let n = spec_video_step(v, e).0;
    let m = media_stream(StreamKind::Video, within_limit(v.offered));
    assert(v.issued.is_prefix_of(v.issued)) by {
        assert(v.issued =~= v.issued.subrange(0, v.issued.len() as int));
    }
    match v.phase {
        VideoPhase::Opening => {
            lemma_within_limit_single(v.key);
            assert(v.offered =~= seq![v.key]);
            assert(m[0] == STREAM_KIND_VIDEO);
            assert(v.issued.push(STREAM_KIND_VIDEO) =~= seq![STREAM_KIND_VIDEO]);
            assert(Seq::<u8>::empty().is_prefix_of(m)) by {
                assert(Seq::<u8>::empty() =~= m.subrange(0, 0));
            }
            assert(seq![STREAM_KIND_VIDEO].is_prefix_of(m)) by {
                assert(seq![STREAM_KIND_VIDEO] =~= m.subrange(0, 1));
            }
            assert(v.issued.is_prefix_of(v.issued.push(STREAM_KIND_VIDEO))) by {
                assert(v.issued =~= v.issued.push(STREAM_KIND_VIDEO).subrange(0, 0));
            }
        },
        VideoPhase::WritingTag => {
            lemma_within_limit_single(v.key);
            assert(v.offered =~= seq![v.key]);
            assert(seq![STREAM_KIND_VIDEO].is_prefix_of(m)) by {
                assert(seq![STREAM_KIND_VIDEO] =~= m.subrange(0, 1));
            }
            if v.key.len() <= MAX_FRAME_LEN {
                lemma_media_stream_push(StreamKind::Video, Seq::<Seq<u8>>::empty(), v.key);
                assert(Seq::<Seq<u8>>::empty().push(v.key) =~= seq![v.key]);
                assert(media_stream(StreamKind::Video, Seq::<Seq<u8>>::empty()) =~= seq![
                    STREAM_KIND_VIDEO,
                ]);
                assert(v.issued.is_prefix_of(v.issued + encoded_frame(v.key))) by {
                    assert(v.issued =~= (v.issued + encoded_frame(v.key)).subrange(
                        0,
                        v.issued.len() as int,
                    ));
                }
            } else {
                assert(media_stream(StreamKind::Video, Seq::<Seq<u8>>::empty()) =~= seq![
                    STREAM_KIND_VIDEO,
                ]);
            }
        },
        VideoPhase::Done => {},
        _ => {
            assert(v.issued.is_prefix_of(m));
            match e {
                VideoEvent::FrameReady(f) => {
                    if v.phase == VideoPhase::AwaitingFirst || v.phase == VideoPhase::Forwarding
                        || v.phase == VideoPhase::ForwardingNoGop {
                        lemma_within_limit_push(v.offered, f@);
                        if f@.len() <= MAX_FRAME_LEN {
                            lemma_media_stream_push(StreamKind::Video, within_limit(v.offered), f@);
                        }
                        assert(n.offered == v.offered.push(f@));
                        assert(n.issued.is_prefix_of(
                            media_stream(StreamKind::Video, within_limit(n.offered)),
                        )) by {
                            assert(n.issued =~= media_stream(
                                StreamKind::Video,
                                within_limit(n.offered),
                            ).subrange(0, n.issued.len() as int));
                        }
                        assert(v.issued.is_prefix_of(n.issued)) by {
                            assert(v.issued =~= n.issued.subrange(0, v.issued.len() as int));
                        }
                    }
                },
                _ => {},
            }
        },
    }
}

/// A new GOP ends the stream of the previous one: a sender waiting for it
/// answers with a reset carrying [`GOP_RESET_CODE`], and a sender that is
/// resetting or done only stops and writes nothing more.
pub proof fn lemma_new_gop_resets_then_stops(v: VideoTaskView, e: VideoEvent)
    ensures
        (v.phase == VideoPhase::Forwarding || v.phase == VideoPhase::AwaitingGop) && e is NewGop
            ==> spec_video_step(v, e).1.action == SpecVideoAction::ResetStream(GOP_RESET_CODE)
            && spec_video_step(v, e).0.phase == VideoPhase::Resetting
            && spec_video_step(v, e).0.issued == v.issued,
        (v.phase == VideoPhase::Resetting || v.phase == VideoPhase::Done) ==> spec_video_step(
            v,
            e,
        ).1.action == SpecVideoAction::Stop && spec_video_step(v, e).0.phase == VideoPhase::Done
            && spec_video_step(v, e).0.issued == v.issued,
{
}

/// The events the node reports in each phase: the result of the action the
/// sender asked for in that phase.
pub open spec fn video_event_expected(phase: VideoPhase, e: VideoEvent) -> bool {
    match phase {
        VideoPhase::Opening => e is Opened || e is OpenFailed,
        VideoPhase::WritingTag | VideoPhase::WritingKey | VideoPhase::WritingFirst
        | VideoPhase::WritingFrame | VideoPhase::WritingFrameNoGop => e is WriteSucceeded || e is WriteFailed,
        VideoPhase::AwaitingFirst => e is FrameReady || e is QueueClosed,
        VideoPhase::Forwarding => e is FrameReady || e is QueueClosed || e is NewGop || e is GopClosed,
        VideoPhase::ForwardingNoGop => e is FrameReady || e is QueueClosed,
        VideoPhase::AwaitingGop => e is NewGop || e is GopClosed,
        VideoPhase::Resetting => e is ResetSucceeded || e is ResetFailed,
        VideoPhase::Done => false,
    }
}

/// The sender's record of issued bytes is exactly what its actions write:
/// a step that asks to write bytes appends exactly those bytes to the
/// record, and any other step leaves the record unchanged.
pub proof fn lemma_video_writes_are_recorded(v: VideoTaskView, e: VideoEvent)
    ensures
        match spec_video_step(v, e).1.action {
            SpecVideoAction::WriteBytes(b) => spec_video_step(v, e).0.issued == v.issued + b,
            _ => spec_video_step(v, e).0.issued == v.issued,
        },
{
    assert(v.issued.push(STREAM_KIND_VIDEO) =~= v.issued + seq![STREAM_KIND_VIDEO]);
}

/// Once the video tag is written, a key frame that fits the frame format is
/// written next, as exactly one length-delimited frame; whether that write
/// succeeds or fails, the sender then waits for the first queued frame.
pub proof fn lemma_key_frame_follows_tag(v: VideoTaskView, write_ok: bool)
    requires
        v.phase == VideoPhase::WritingTag,
        v.key.len() <= MAX_FRAME_LEN,
    ensures
        ({
            let (v1, s1) = spec_video_step(v, VideoEvent::WriteSucceeded);
            let e2 = if write_ok { VideoEvent::WriteSucceeded } else { VideoEvent::WriteFailed };
            let (v2, s2) = spec_video_step(v1, e2);
            &&& s1.action == SpecVideoAction::WriteBytes(encoded_frame(v.key))
            &&& s1.failure is None
            &&& v1.issued == v.issued + encoded_frame(v.key)
            &&& s2.action == SpecVideoAction::AwaitFirstFrame
            &&& v2.phase == VideoPhase::AwaitingFirst
            &&& v2.issued == v1.issued
        }),
{
}

/// A queued frame that fits the frame format, taken while the sender awaits
/// the first frame or forwards frames, is written as exactly one
/// length-delimited frame; whether the write succeeds or fails, the sender
/// then watches both the queue and the new-GOP signal again, and a new GOP
/// then resets the stream with [`GOP_RESET_CODE`] without writing more.
pub proof fn lemma_video_frame_then_new_gop(v: VideoTaskView, f: Vec<u8>, write_ok: bool)
    requires
        v.phase == VideoPhase::Forwarding || v.phase == VideoPhase::AwaitingFirst,
        f@.len() <= MAX_FRAME_LEN,
    ensures
        ({
            let (v1, s1) = spec_video_step(v, VideoEvent::FrameReady(f));
            let e2 = if write_ok { VideoEvent::WriteSucceeded } else { VideoEvent::WriteFailed };
            let (v2, s2) = spec_video_step(v1, e2);
            let (v3, s3) = spec_video_step(v2, VideoEvent::NewGop);
            &&& s1.action == SpecVideoAction::WriteBytes(encoded_frame(f@))
            &&& s1.failure is None
            &&& v1.issued == v.issued + encoded_frame(f@)
            &&& v1.offered == v.offered.push(f@)
            &&& s2.action == SpecVideoAction::AwaitFrameOrGop
            &&& v2.phase == VideoPhase::Forwarding
            &&& s3.action == SpecVideoAction::ResetStream(GOP_RESET_CODE)
            &&& v3.phase == VideoPhase::Resetting
            &&& v3.issued == v1.issued
        }),
{
}

/// Without a new-GOP signal, a queued frame that fits is written as exactly
/// one length-delimited frame and the sender then awaits the next frame.
pub proof fn lemma_video_frame_without_gop(v: VideoTaskView, f: Vec<u8>, write_ok: bool)
    requires
        v.phase == VideoPhase::ForwardingNoGop,
        f@.len() <= MAX_FRAME_LEN,
    ensures
        ({
            let (v1, s1) = spec_video_step(v, VideoEvent::FrameReady(f));
            let e2 = if write_ok { VideoEvent::WriteSucceeded } else { VideoEvent::WriteFailed };
            let (v2, s2) = spec_video_step(v1, e2);
            &&& s1.action == SpecVideoAction::WriteBytes(encoded_frame(f@))
            &&& v1.issued == v.issued + encoded_frame(f@)
            &&& s2.action == SpecVideoAction::AwaitFrame
            &&& v2.phase == VideoPhase::ForwardingNoGop
        }),
{
}

/// The GOP sender ends only for a reason: an event it awaited ends it only
/// when that event is a failure it reports, or the result of the reset that
/// a new GOP asked for.
pub proof fn lemma_video_ends_only_on_failure_or_reset(v: VideoTaskView, e: VideoEvent)
    requires
        video_event_expected(v.phase, e),
    ensures
        spec_video_step(v, e).0.phase == VideoPhase::Done ==> spec_video_step(v, e).1.failure is Some
            || v.phase == VideoPhase::Resetting,
        spec_video_step(v, e).0.phase == VideoPhase::Done <==> spec_video_step(v, e).1.action
            == SpecVideoAction::Stop,
{
}

/// The GOP sender reports a failure exactly for a failed open, write or
/// reset, a frame too large for the frame format, or both of its inputs
/// closing; a frame too large is reported with [`FrameError::TooLarge`],
/// skipped and not written, and the task goes on; and only a failed tag
/// write, of all failed writes, ends the task.
pub proof fn lemma_video_failures_reported(v: VideoTaskView, e: VideoEvent)
    requires
        video_event_expected(v.phase, e),
    ensures
        spec_video_step(v, e).1.failure is Some <==> {
            ||| e is OpenFailed
            ||| e is WriteFailed
            ||| e is ResetFailed
            ||| (e matches VideoEvent::FrameReady(f) && f@.len() > MAX_FRAME_LEN)
            ||| (v.phase == VideoPhase::WritingTag && e is WriteSucceeded && v.key.len() > MAX_FRAME_LEN)
            ||| (v.phase == VideoPhase::ForwardingNoGop && e is QueueClosed)
            ||| (v.phase == VideoPhase::AwaitingGop && e is GopClosed)
        },
        (e matches VideoEvent::FrameReady(f) && f@.len() > MAX_FRAME_LEN) ==> (spec_video_step(
            v,
            e,
        ).1.failure == Some(VideoFailure::NextFrame(Some(FrameError::TooLarge)))
            || spec_video_step(v, e).1.failure == Some(
            VideoFailure::Frame(Some(FrameError::TooLarge)),
        )),
        e is WriteFailed && v.phase != VideoPhase::WritingTag ==> spec_video_step(v, e).1.action
            != SpecVideoAction::Stop,
        (e matches VideoEvent::FrameReady(f) && f@.len() > MAX_FRAME_LEN) ==> spec_video_step(
            v,
            e,
        ).1.action != SpecVideoAction::Stop && spec_video_step(v, e).0.issued == v.issued,
        (v.phase == VideoPhase::WritingTag && e is WriteSucceeded && v.key.len() > MAX_FRAME_LEN)
            ==> spec_video_step(v, e).1.action == SpecVideoAction::AwaitFirstFrame,
{
}

} // verus!
