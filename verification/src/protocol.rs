//! Constants and stream-kind tags of the call protocol.
use vstd::prelude::*;
use crate::framing::{
    decoded_frames, encoded_frames, end_outcome, lemma_frames_round_trip, undecoded_rest,
    StreamOutcome, MAX_FRAME_LEN,
};

verus! {

/// Tag byte that opens a unidirectional stream carrying audio frames.
pub const STREAM_KIND_AUDIO: u8 = 0x01;

/// Tag byte that opens a unidirectional stream carrying video frames.
pub const STREAM_KIND_VIDEO: u8 = 0x02;

/// Capacity of each bounded frame channel between the application and the node.
pub const FRAME_CHANNEL_CAPACITY: usize = 60;

/// Capacity of the channel that announces a new group of pictures.
pub const GOP_NOTIFIER_CAPACITY: usize = 1;

/// Application error code sent when the current connection is closed.
pub const CLOSE_CODE: u32 = 0;

/// Stream error code used to reset the video stream of a superseded group of pictures.
pub const GOP_RESET_CODE: u8 = 12;

/// The kind of media a unidirectional stream carries.
#[derive(Clone, Copy, Debug, PartialEq, Eq, Structural)]
pub enum StreamKind {
    Audio,
    Video,
}

/// The tag byte written at the start of a stream of the given kind.
pub open spec fn kind_byte(kind: StreamKind) -> u8 {
    match kind {
        StreamKind::Audio => STREAM_KIND_AUDIO,
        StreamKind::Video => STREAM_KIND_VIDEO,
    }
}

/// The stream kind announced by a tag byte, if the byte is a known tag.
pub open spec fn kind_of_byte(b: u8) -> Option<StreamKind> {
    if b == STREAM_KIND_AUDIO {
        Some(StreamKind::Audio)
    } else if b == STREAM_KIND_VIDEO {
        Some(StreamKind::Video)
    } else {
        None
    }
}

/// The ALPN protocol identifier `ermis-call`.
pub open spec fn spec_alpn() -> Seq<u8> {
    seq![101u8, 114u8, 109u8, 105u8, 115u8, 45u8, 99u8, 97u8, 108u8, 108u8]
}

/// The tag byte that a sender writes before the frames of a stream of `kind`.
pub fn stream_header(kind: StreamKind) -> (b: u8)
    ensures
        b == kind_byte(kind),
{
    match kind {
        StreamKind::Audio => STREAM_KIND_AUDIO,
        StreamKind::Video => STREAM_KIND_VIDEO,
    }
}

/// Reads the tag byte of an incoming stream: `None` for an unknown tag.
pub fn classify_stream_kind(b: u8) -> (r: Option<StreamKind>)
    ensures
        r == kind_of_byte(b),
{
    if b == STREAM_KIND_AUDIO {
        Some(StreamKind::Audio)
    } else if b == STREAM_KIND_VIDEO {
        Some(StreamKind::Video)
    } else {
        None
    }
}

/// The ALPN identifier under which endpoints of this protocol connect.
pub fn alpn() -> (r: Vec<u8>)
    ensures
        r@ == spec_alpn(),
{
    let r: Vec<u8> = vec![101u8, 114u8, 109u8, 105u8, 115u8, 45u8, 99u8, 97u8, 108u8, 108u8];
    assert(r@ =~= spec_alpn());
    r
}

/// The reason bytes sent with [`CLOSE_CODE`] when a connection is closed.
pub fn close_reason() -> (r: Vec<u8>)
    ensures
        r@ == seq![0u8],
{
    let r: Vec<u8> = vec![0u8];
    assert(r@ =~= seq![0u8]);
    r
}

/// A receiver recovers from the tag byte exactly the kind the sender wrote,
/// and a known tag is the tag of exactly one kind.
pub proof fn lemma_stream_kind_round_trip(kind: StreamKind, b: u8)
    ensures
        kind_of_byte(kind_byte(kind)) == Some(kind),
        kind_of_byte(b) == Some(kind) <==> b == kind_byte(kind),
{
}

/// Everything a sender writes on a unidirectional media stream of `kind`
/// carrying `payloads`: the tag byte, then one frame per payload.
pub open spec fn media_stream(kind: StreamKind, payloads: Seq<Seq<u8>>) -> Seq<u8> {
    seq![kind_byte(kind)] + encoded_frames(payloads)
}

/// What one peer sends on a media stream the other receives: the receiver
/// reads the sender's kind from the first byte, decodes from the rest exactly
/// the payloads sent, in order, and sees the stream end between frames.
pub proof fn lemma_media_stream_round_trip(kind: StreamKind, payloads: Seq<Seq<u8>>)
    requires
        forall|i: int| 0 <= i < payloads.len() ==> (#[trigger] payloads[i]).len() <= MAX_FRAME_LEN,
    ensures
        media_stream(kind, payloads).len() >= 1,
        kind_of_byte(media_stream(kind, payloads)[0]) == Some(kind),
        decoded_frames(media_stream(kind, payloads).drop_first()) == payloads,
        end_outcome(undecoded_rest(media_stream(kind, payloads).drop_first())) == StreamOutcome::Ended,
{
    let s = media_stream(kind, payloads);
    assert(s.drop_first() =~= encoded_frames(payloads) + Seq::<u8>::empty());
    lemma_frames_round_trip(payloads, Seq::<u8>::empty());
    assert(decoded_frames(Seq::<u8>::empty()) =~= Seq::<Seq<u8>>::empty());
    assert(payloads + Seq::<Seq<u8>>::empty() =~= payloads);
    assert(undecoded_rest(Seq::<u8>::empty()) =~= Seq::<u8>::empty());
}

} // verus!
