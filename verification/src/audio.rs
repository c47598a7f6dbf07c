//! The sender of the audio stream: it opens a unidirectional stream, writes
//! the audio tag, then writes each queued audio frame, and stops at the first
//! failure or when the queue closes. The node performs each action and
//! reports its result back as the next event.
use vstd::prelude::*;
use crate::framing::{encode_frame, encoded_frame, FrameError, MAX_FRAME_LEN};
use crate::protocol::{media_stream, StreamKind, STREAM_KIND_AUDIO};
use crate::video::{lemma_media_stream_push, lemma_within_limit_push, within_limit};

verus! {

/// Where the audio sender stands.
#[derive(Clone, Copy, Debug, PartialEq, Eq, Structural)]
pub enum AudioPhase {
    /// Waiting for the stream to open.
    Opening,
    /// Writing the audio tag.
    WritingTag,
    /// Waiting for a queued audio frame.
    Awaiting,
    /// Writing an audio frame.
    Writing,
    /// Finished.
    Done,
}

/// What the node observed after the previous action.
pub enum AudioEvent {
    Opened,
    OpenFailed,
    WriteSucceeded,
    WriteFailed,
    /// A frame was taken off the audio queue.
    FrameReady(Vec<u8>),
    /// The audio queue has no sender left.
    QueueClosed,
}

/// What the node does next.
pub enum AudioAction {
    /// Write these bytes on the stream.
    WriteBytes(Vec<u8>),
    /// Wait for the next queued audio frame.
    AwaitFrame,
    /// End the task.
    Stop,
}

/// [`AudioAction`] with its bytes as a sequence.
pub enum SpecAudioAction {
    WriteBytes(Seq<u8>),
    AwaitFrame,
    Stop,
}

impl View for AudioAction {
    type V = SpecAudioAction;

    open spec fn view(&self) -> SpecAudioAction {
        match self {
            AudioAction::WriteBytes(b) => SpecAudioAction::WriteBytes(b@),
            AudioAction::AwaitFrame => SpecAudioAction::AwaitFrame,
            AudioAction::Stop => SpecAudioAction::Stop,
        }
    }
}

/// A failure the node reports; a frame failure carries the frame error when
/// the frame could not be encoded, and `None` when writing it failed.
#[derive(Clone, Copy, Debug, PartialEq, Eq, Structural)]
pub enum AudioFailure {
    OpenStream,
    WriteTag,
    Frame(Option<FrameError>),
}

/// The next action, and the failure to report, if any.
pub struct AudioStep {
    pub action: AudioAction,
    pub failure: Option<AudioFailure>,
}

pub struct SpecAudioStep {
    pub action: SpecAudioAction,
    pub failure: Option<AudioFailure>,
}

impl View for AudioStep {
    type V = SpecAudioStep;

    open spec fn view(&self) -> SpecAudioStep {
        SpecAudioStep { action: self.action@, failure: self.failure }
    }
}

/// The state of the audio sender: its phase, the bytes it has asked to write
/// so far, and the frames it took off the queue so far, in order.
pub struct AudioTaskView {
    pub phase: AudioPhase,
    pub issued: Seq<u8>,
    pub offered: Seq<Seq<u8>>,
}

pub open spec fn audio_step(action: SpecAudioAction, failure: Option<AudioFailure>) -> SpecAudioStep {
    SpecAudioStep { action, failure }
}

/// Ends the task, reporting `failure`.
pub open spec fn audio_stop(v: AudioTaskView, failure: Option<AudioFailure>) -> (AudioTaskView, SpecAudioStep) {
    (AudioTaskView { phase: AudioPhase::Done, ..v }, audio_step(SpecAudioAction::Stop, failure))
}

/// One step of the audio sender.
pub open spec fn spec_audio_step(v: AudioTaskView, e: AudioEvent) -> (AudioTaskView, SpecAudioStep) {
    match v.phase {
        AudioPhase::Opening => match e {
            AudioEvent::Opened => (
                AudioTaskView { phase: AudioPhase::WritingTag, issued: v.issued.push(STREAM_KIND_AUDIO), ..v },
                audio_step(SpecAudioAction::WriteBytes(seq![STREAM_KIND_AUDIO]), None),
            ),
            AudioEvent::OpenFailed => audio_stop(v, Some(AudioFailure::OpenStream)),
            _ => audio_stop(v, None),
        },
        AudioPhase::WritingTag => match e {
            AudioEvent::WriteSucceeded => (
                AudioTaskView { phase: AudioPhase::Awaiting, ..v },
                audio_step(SpecAudioAction::AwaitFrame, None),
            ),
            AudioEvent::WriteFailed => audio_stop(v, Some(AudioFailure::WriteTag)),
            _ => audio_stop(v, None),
        },
        AudioPhase::Awaiting => match e {
            AudioEvent::FrameReady(f) => {
                let offered = v.offered.push(f@);
                if f@.len() <= MAX_FRAME_LEN {
                    (
                        AudioTaskView {
                            phase: AudioPhase::Writing,
                            issued: v.issued + encoded_frame(f@),
                            offered,
                        },
                        audio_step(SpecAudioAction::WriteBytes(encoded_frame(f@)), None),
                    )
                } else {
                    audio_stop(
                        AudioTaskView { offered, ..v },
                        Some(AudioFailure::Frame(Some(FrameError::TooLarge))),
                    )
                }
            },
            _ => audio_stop(v, None),
        },
        AudioPhase::Writing => match e {
            AudioEvent::WriteSucceeded => (
                AudioTaskView { phase: AudioPhase::Awaiting, ..v },
                audio_step(SpecAudioAction::AwaitFrame, None),
            ),
            AudioEvent::WriteFailed => audio_stop(v, Some(AudioFailure::Frame(None))),
            _ => audio_stop(v, None),
        },
        AudioPhase::Done => audio_stop(v, None),
    }
}

/// The audio sender, driven one event at a time.
pub struct AudioTask {
    phase: AudioPhase,
    issued: Ghost<Seq<u8>>,
    offered: Ghost<Seq<Seq<u8>>>,
}

impl View for AudioTask {
    type V = AudioTaskView;

    closed spec fn view(&self) -> AudioTaskView {
        AudioTaskView { phase: self.phase, issued: self.issued@, offered: self.offered@ }
    }
}

impl AudioTask {
    /// A sender whose first action is to open the stream.
    pub fn new() -> (r: AudioTask)
        ensures
            r@ == (AudioTaskView {
                phase: AudioPhase::Opening,
                issued: Seq::<u8>::empty(),
                offered: Seq::<Seq<u8>>::empty(),
            }),
    {
        AudioTask { phase: AudioPhase::Opening, issued: Ghost(Seq::empty()), offered: Ghost(Seq::empty()) }
    }

    /// The phase the sender is in.
    pub fn phase(&self) -> (p: AudioPhase)
        ensures
            p == self@.phase,
    {
        self.phase
    }

    fn stop(&mut self, failure: Option<AudioFailure>) -> (r: AudioStep)
        ensures
            (final(self)@, r@) == audio_stop(old(self)@, failure),
    {
        self.phase = AudioPhase::Done;
        AudioStep { action: AudioAction::Stop, failure }
    }

    /// Takes the result of the previous action and returns the next one.
    pub fn step(&mut self, event: AudioEvent) -> (r: AudioStep)
        ensures
            (final(self)@, r@) == spec_audio_step(old(self)@, event),
    {
        match self.phase {
            AudioPhase::Opening => match event {
                AudioEvent::Opened => {
                    self.issued = Ghost(self.issued@.push(STREAM_KIND_AUDIO));
                    self.phase = AudioPhase::WritingTag;
                    let tag: Vec<u8> = vec![STREAM_KIND_AUDIO];
                    assert(tag@ =~= seq![STREAM_KIND_AUDIO]);
                    AudioStep { action: AudioAction::WriteBytes(tag), failure: None }
                },
                AudioEvent::OpenFailed => self.stop(Some(AudioFailure::OpenStream)),
                _ => self.stop(None),
            },
            AudioPhase::WritingTag => match event {
                AudioEvent::WriteSucceeded => {
                    self.phase = AudioPhase::Awaiting;
                    AudioStep { action: AudioAction::AwaitFrame, failure: None }
                },
                AudioEvent::WriteFailed => self.stop(Some(AudioFailure::WriteTag)),
                _ => self.stop(None),
            },
            AudioPhase::Awaiting => match event {
                AudioEvent::FrameReady(f) => {
                    let ghost fv = f@;
                    self.offered = Ghost(self.offered@.push(fv));
                    match encode_frame(&f) {
                        Ok(bytes) => {
                            self.issued = Ghost(self.issued@ + bytes@);
                            self.phase = AudioPhase::Writing;
                            AudioStep { action: AudioAction::WriteBytes(bytes), failure: None }
                        },
                        Err(_) => self.stop(Some(AudioFailure::Frame(Some(FrameError::TooLarge)))),
                    }
                },
                _ => self.stop(None),
            },
            AudioPhase::Writing => match event {
                AudioEvent::WriteSucceeded => {
                    self.phase = AudioPhase::Awaiting;
                    AudioStep { action: AudioAction::AwaitFrame, failure: None }
                },
                AudioEvent::WriteFailed => self.stop(Some(AudioFailure::Frame(None))),
                _ => self.stop(None),
            },
            AudioPhase::Done => self.stop(None),
        }
    }
}

/// What the audio sender has written at each point: nothing before the
/// stream is open, then the audio tag, then exactly the audio stream of the
/// frames it took (all of which fit the frame format); once done, a prefix of
/// the audio stream of the frames it took that fit.
pub open spec fn audio_task_wf(v: AudioTaskView) -> bool {
    match v.phase {
        AudioPhase::Opening => v.issued == Seq::<u8>::empty() && v.offered == Seq::<Seq<u8>>::empty(),
        AudioPhase::WritingTag => v.issued == seq![STREAM_KIND_AUDIO] && v.offered == Seq::<Seq<u8>>::empty(),
        AudioPhase::Done => v.issued.is_prefix_of(media_stream(StreamKind::Audio, within_limit(v.offered))),
        _ => within_limit(v.offered) == v.offered && v.issued == media_stream(StreamKind::Audio, v.offered),
    }
}

/// A new audio sender starts in the well-formed state.
pub proof fn lemma_new_audio_task_wf()
    ensures
        audio_task_wf(AudioTaskView {
            phase: AudioPhase::Opening,
            issued: Seq::<u8>::empty(),
            offered: Seq::<Seq<u8>>::empty(),
        }),
{
}

proof fn lemma_within_limit_empty()
    ensures
        within_limit(Seq::<Seq<u8>>::empty()) == Seq::<Seq<u8>>::empty(),
{
    reveal(Seq::filter);
}

/// Every step of the audio sender keeps its writes well formed and only ever
/// appends to them: whatever the events, the bytes it has asked to write are
/// a prefix of the audio stream of the frames it took, in order.
pub proof fn lemma_audio_step_wf(v: AudioTaskView, e: AudioEvent)
    requires
        audio_task_wf(v),
    ensures
        audio_task_wf(spec_audio_step(v, e).0),
        v.issued.is_prefix_of(spec_audio_step(v, e).0.issued),
        spec_audio_step(v, e).0.issued.is_prefix_of(
            media_stream(StreamKind::Audio, within_limit(spec_audio_step(v, e).0.offered)),
        ),
{
    let n = spec_audio_step(v, e).0;
    assert(v.issued.is_prefix_of(v.issued)) by {
        assert(v.issued =~= v.issued.subrange(0, v.issued.len() as int));
    }
    lemma_within_limit_empty();
    let m0 = media_stream(StreamKind::Audio, Seq::<Seq<u8>>::empty());
    assert(m0 =~= seq![STREAM_KIND_AUDIO]);
    match v.phase {
        AudioPhase::Opening => {
            assert(Seq::<u8>::empty().is_prefix_of(m0)) by {
                assert(Seq::<u8>::empty() =~= m0.subrange(0, 0));
            }
            assert(seq![STREAM_KIND_AUDIO].is_prefix_of(m0)) by {
                assert(seq![STREAM_KIND_AUDIO] =~= m0.subrange(0, 1));
            }
            assert(v.issued.push(STREAM_KIND_AUDIO) =~= seq![STREAM_KIND_AUDIO]);
            assert(v.issued.is_prefix_of(v.issued.push(STREAM_KIND_AUDIO))) by {
                assert(v.issued =~= v.issued.push(STREAM_KIND_AUDIO).subrange(0, 0));
            }
        },
        AudioPhase::WritingTag => {
            assert(seq![STREAM_KIND_AUDIO].is_prefix_of(m0)) by {
                assert(seq![STREAM_KIND_AUDIO] =~= m0.subrange(0, 1));
            }
        },
        AudioPhase::Done => {},
        _ => {
            let m = media_stream(StreamKind::Audio, v.offered);
            assert(v.issued.is_prefix_of(m)) by {
                assert(v.issued =~= m.subrange(0, v.issued.len() as int));
            }
            match e {
                AudioEvent::FrameReady(f) => {
                    if v.phase == AudioPhase::Awaiting {
                        lemma_within_limit_push(v.offered, f@);
                        lemma_media_stream_push(StreamKind::Audio, v.offered, f@);
                        assert(n.issued.is_prefix_of(
                            media_stream(StreamKind::Audio, within_limit(n.offered)),
                        )) by {
                            assert(n.issued =~= media_stream(
                                StreamKind::Audio,
                                within_limit(n.offered),
                            ).subrange(0, n.issued.len() as int));
                        }
                        assert(v.issued.is_prefix_of(n.issued)) by {
                            assert(v.issued =~= n.issued.subrange(0, v.issued.len() as int));
                        }
                    }
                },
                _ => {},
            }
        },
    }
}

/// The audio sender stops at the first failure, and once done it only stops
/// and writes nothing more.
pub proof fn lemma_audio_stops_on_failure(v: AudioTaskView, e: AudioEvent)
    ensures
        spec_audio_step(v, e).1.failure is Some ==> spec_audio_step(v, e).1.action
            == SpecAudioAction::Stop && spec_audio_step(v, e).0.phase == AudioPhase::Done,
        v.phase == AudioPhase::Done ==> spec_audio_step(v, e).1.action == SpecAudioAction::Stop
            && spec_audio_step(v, e).0 == v,
{
}

/// The events the node reports in each phase: the result of the action the
/// sender asked for in that phase.
pub open spec fn audio_event_expected(phase: AudioPhase, e: AudioEvent) -> bool {
    match phase {
        AudioPhase::Opening => e is Opened || e is OpenFailed,
        AudioPhase::WritingTag | AudioPhase::Writing => e is WriteSucceeded || e is WriteFailed,
        AudioPhase::Awaiting => e is FrameReady || e is QueueClosed,
        AudioPhase::Done => false,
    }
}

/// The sender's record of issued bytes is exactly what its actions write:
/// a step that asks to write bytes appends exactly those bytes to the
/// record, and any other step leaves the record unchanged.
pub proof fn lemma_audio_writes_are_recorded(v: AudioTaskView, e: AudioEvent)
    ensures
        match spec_audio_step(v, e).1.action {
            SpecAudioAction::WriteBytes(b) => spec_audio_step(v, e).0.issued == v.issued + b,
            _ => spec_audio_step(v, e).0.issued == v.issued,
        },
{
    assert(v.issued.push(STREAM_KIND_AUDIO) =~= v.issued + seq![STREAM_KIND_AUDIO]);
}

/// Once the stream is open the audio tag is written, and once it is written
/// the sender awaits the first audio frame.
pub proof fn lemma_audio_tag_then_frames(v: AudioTaskView)
    requires
        v.phase == AudioPhase::Opening,
    ensures
        ({
            let (v1, s1) = spec_audio_step(v, AudioEvent::Opened);
            let (v2, s2) = spec_audio_step(v1, AudioEvent::WriteSucceeded);
            &&& s1.action == SpecAudioAction::WriteBytes(seq![STREAM_KIND_AUDIO])
            &&& s2.action == SpecAudioAction::AwaitFrame
            &&& v2.phase == AudioPhase::Awaiting
        }),
{
}

/// A queued audio frame that fits the frame format is written as exactly one
/// length-delimited frame, and once the write succeeds the sender awaits the
/// next frame: audio keeps flowing.
pub proof fn lemma_audio_frame_then_next(v: AudioTaskView, f: Vec<u8>)
    requires
        v.phase == AudioPhase::Awaiting,
        f@.len() <= MAX_FRAME_LEN,
    ensures
        ({
            let (v1, s1) = spec_audio_step(v, AudioEvent::FrameReady(f));
            let (v2, s2) = spec_audio_step(v1, AudioEvent::WriteSucceeded);
            &&& s1.action == SpecAudioAction::WriteBytes(encoded_frame(f@))
            &&& s1.failure is None
            &&& v1.issued == v.issued + encoded_frame(f@)
            &&& v1.offered == v.offered.push(f@)
            &&& s2.action == SpecAudioAction::AwaitFrame
            &&& s2.failure is None
            &&& v2.phase == AudioPhase::Awaiting
            &&& v2.issued == v1.issued
        }),
{
}

/// The audio sender ends only for a reason: an event it awaited ends it only
/// when that event is a failure it reports or the closing of the queue.
pub proof fn lemma_audio_ends_only_on_failure_or_close(v: AudioTaskView, e: AudioEvent)
    requires
        audio_event_expected(v.phase, e),
    ensures
        spec_audio_step(v, e).0.phase == AudioPhase::Done ==> spec_audio_step(v, e).1.failure is Some
            || e is QueueClosed,
        spec_audio_step(v, e).0.phase == AudioPhase::Done <==> spec_audio_step(v, e).1.action
            == SpecAudioAction::Stop,
{
}

/// The audio sender reports a failure exactly for a failed open or write,
/// or a frame too large for the frame format, which it reports with
/// [`FrameError::TooLarge`].
pub proof fn lemma_audio_failures_reported(v: AudioTaskView, e: AudioEvent)
    requires
        audio_event_expected(v.phase, e),
    ensures
        spec_audio_step(v, e).1.failure is Some <==> {
            ||| e is OpenFailed
            ||| e is WriteFailed
            ||| (e matches AudioEvent::FrameReady(f) && f@.len() > MAX_FRAME_LEN)
        },
        (e matches AudioEvent::FrameReady(f) && f@.len() > MAX_FRAME_LEN) ==> spec_audio_step(
            v,
            e,
        ).1.failure == Some(AudioFailure::Frame(Some(FrameError::TooLarge))),
{
}

} // verus!
