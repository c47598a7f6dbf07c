//! The length-delimited frame format carried on every media stream: a
//! big-endian `u32` payload length followed by the payload, as written and
//! read by tokio-util's `LengthDelimitedCodec` in its default configuration.
use vstd::prelude::*;
use bytes::BytesMut;
use tokio_util::codec::{Decoder, Encoder, LengthDelimitedCodec};

verus! {

/// Largest payload the default codec writes or accepts from the wire (8 MiB).
pub const MAX_FRAME_LEN: usize = 8388608;

/// Length of the frame head.
pub const HEAD_LEN: usize = 4;

#[verifier::external_type_specification]
#[verifier::external_body]
pub struct ExIoError(std::io::Error);

/// Why a frame could not be written or read.
#[derive(Clone, Copy, Debug, PartialEq, Eq, Structural)]
pub enum FrameError {
    /// The payload (when writing) or the announced length (when reading)
    /// exceeds [`MAX_FRAME_LEN`].
    TooLarge,
    /// The stream ended in the middle of a frame.
    BytesRemaining,
}

// ----- the wire format -----

/// The four big-endian bytes of a frame head announcing `n` payload bytes.
pub open spec fn be_u32_bytes(n: nat) -> Seq<u8> {
    seq![
        ((n / 0x1000000) % 0x100) as u8,
        ((n / 0x10000) % 0x100) as u8,
        ((n / 0x100) % 0x100) as u8,
        (n % 0x100) as u8,
    ]
}

/// The number whose big-endian representation is the first four bytes of `h`.
pub open spec fn be_u32_value(h: Seq<u8>) -> nat {
    (h[0] as nat) * 0x1000000 + (h[1] as nat) * 0x10000 + (h[2] as nat) * 0x100 + (h[3] as nat)
}

/// The bytes of one frame carrying `payload`.
pub open spec fn encoded_frame(payload: Seq<u8>) -> Seq<u8> {
    be_u32_bytes(payload.len()) + payload
}

/// The payload length announced by the head at the start of `buf`.
pub open spec fn announced_len(buf: Seq<u8>) -> nat {
    be_u32_value(buf)
}

/// `buf` starts with a complete head announcing more than [`MAX_FRAME_LEN`] bytes.
pub open spec fn frame_oversized(buf: Seq<u8>) -> bool {
    buf.len() >= HEAD_LEN && announced_len(buf) > MAX_FRAME_LEN
}

/// `buf` starts with a complete frame of acceptable length.
pub open spec fn frame_available(buf: Seq<u8>) -> bool {
    &&& buf.len() >= HEAD_LEN
    &&& announced_len(buf) <= MAX_FRAME_LEN
    &&& buf.len() >= HEAD_LEN + announced_len(buf)
}

/// The payload of the frame at the start of `buf`.
pub open spec fn frame_payload(buf: Seq<u8>) -> Seq<u8> {
    buf.subrange(HEAD_LEN as int, HEAD_LEN + announced_len(buf))
}

/// What follows the frame at the start of `buf`.
pub open spec fn frame_rest(buf: Seq<u8>) -> Seq<u8> {
    buf.subrange(HEAD_LEN + announced_len(buf), buf.len() as int)
}

/// At the end of the stream, the leftover `buf` holds no partial frame:
/// it is empty, or a head whose payload never arrived and was consumed.
pub open spec fn ends_cleanly(buf: Seq<u8>) -> bool {
    &&& !frame_available(buf)
    &&& !frame_oversized(buf)
    &&& (buf.len() == 0 || buf.len() == HEAD_LEN)
}

/// The payloads of the complete frames at the start of `buf`, in order.
pub open spec fn decoded_frames(buf: Seq<u8>) -> Seq<Seq<u8>>
    decreases buf.len(),
{
    if frame_available(buf) {
        seq![frame_payload(buf)] + decoded_frames(frame_rest(buf))
    } else {
        seq![]
    }
}

/// What is left of `buf` once its complete frames are taken off.
pub open spec fn undecoded_rest(buf: Seq<u8>) -> Seq<u8>
    decreases buf.len(),
{
    if frame_available(buf) {
        undecoded_rest(frame_rest(buf))
    } else {
        buf
    }
}

/// The concatenation of the frames carrying `payloads`, in order.
pub open spec fn encoded_frames(payloads: Seq<Seq<u8>>) -> Seq<u8>
    decreases payloads.len(),
{
    if payloads.len() == 0 {
        seq![]
    } else {
        encoded_frame(payloads[0]) + encoded_frames(payloads.drop_first())
    }
}

// ----- calls into tokio-util -----

/// Calls `Encoder::<&[u8]>::encode` of tokio-util's `LengthDelimitedCodec::new()`
/// into an empty `BytesMut`. Claimed, as the codec's documentation and source
/// show: it fails exactly when the payload is longer than the codec's default
/// maximum of 8 MiB, and otherwise writes a big-endian `u32` head holding the
/// payload length followed by the payload.
#[verifier::external_body]
fn codec_encode(payload: &[u8]) -> (r: Result<Vec<u8>, std::io::Error>)
    ensures
        r is Ok <==> payload@.len() <= MAX_FRAME_LEN,
        r matches Ok(v) ==> v@ == encoded_frame(payload@),
{
    let mut dst = BytesMut::new();
    let mut codec = LengthDelimitedCodec::new();
    match Encoder::<&[u8]>::encode(&mut codec, payload, &mut dst) {
        Ok(()) => Ok(dst.to_vec()),
        Err(e) => Err(e),
    }
}

/// Calls `Decoder::decode` of a fresh `LengthDelimitedCodec::new()` on a
/// `BytesMut` holding `buf`. Claimed, as the codec's source shows: it fails
/// exactly when a complete head announces more than 8 MiB, returns the payload
/// of the first frame when the whole frame is present, and otherwise returns
/// `None`.
#[verifier::external_body]
fn codec_decode(buf: &[u8]) -> (r: Result<Option<Vec<u8>>, std::io::Error>)
    ensures
        r is Err <==> frame_oversized(buf@),
        (r matches Ok(Some(_))) <==> frame_available(buf@),
        r matches Ok(Some(v)) ==> v@ == frame_payload(buf@),
{
    let mut src = BytesMut::from(buf);
    let mut codec = LengthDelimitedCodec::new();
    match codec.decode(&mut src) {
        Ok(Some(frame)) => Ok(Some(frame.to_vec())),
        Ok(None) => Ok(None),
        Err(e) => Err(e),
    }
}

/// Calls `Decoder::decode_eof` of a fresh `LengthDelimitedCodec::new()` on a
/// `BytesMut` holding `buf`. Claimed, as the source of the codec and of the
/// trait's provided `decode_eof` show: an announced length over 8 MiB fails; a
/// complete frame yields its payload; otherwise the call succeeds with `None`
/// exactly when nothing is left in the buffer after the codec consumed a
/// complete head (an empty buffer, or a bare head), and fails otherwise.
#[verifier::external_body]
fn codec_decode_eof(buf: &[u8]) -> (r: Result<Option<Vec<u8>>, std::io::Error>)
    ensures
        (r matches Ok(Some(_))) <==> frame_available(buf@),
        r matches Ok(Some(v)) ==> v@ == frame_payload(buf@),
        (r matches Ok(None)) <==> ends_cleanly(buf@),
{
    let mut src = BytesMut::from(buf);
    let mut codec = LengthDelimitedCodec::new();
    match codec.decode_eof(&mut src) {
        Ok(Some(frame)) => Ok(Some(frame.to_vec())),
        Ok(None) => Ok(None),
        Err(e) => Err(e),
    }
}

// ----- verified framing -----

/// The bytes that carry `payload` as one frame on a media stream.
pub fn encode_frame(payload: &[u8]) -> (r: Result<Vec<u8>, FrameError>)
    ensures
        r is Err <==> payload@.len() > MAX_FRAME_LEN,
        r matches Err(e) ==> e == FrameError::TooLarge,
        r matches Ok(v) ==> v@ == encoded_frame(payload@),
{
    match codec_encode(payload) {
        Ok(v) => Ok(v),
        Err(_) => Err(FrameError::TooLarge),
    }
}


/// The payloads of a sequence of frames received off a stream.
pub open spec fn payloads(frames: Seq<Vec<u8>>) -> Seq<Seq<u8>> {
    frames.map_values(|f: Vec<u8>| f@)
}

/// How a stream stands after the receiver handled an event.
#[derive(Clone, Copy, Debug, PartialEq, Eq, Structural)]
pub enum StreamOutcome {
    /// More bytes may follow.
    Open,
    /// The stream ended between two frames.
    Ended,
    /// The stream can no longer be read as frames.
    Failed(FrameError),
}

/// The frames a receiver completed, and where the stream stands.
pub struct ReceiveStep {
    pub frames: Vec<Vec<u8>>,
    pub outcome: StreamOutcome,
}

/// Reassembles the frames of one incoming media stream from the chunks read
/// off it; its view is the bytes received that do not yet form a frame.
pub struct FrameReceiver {
    pending: Vec<u8>,
}

impl View for FrameReceiver {
    type V = Seq<u8>;

    closed spec fn view(&self) -> Seq<u8> {
        self.pending@
    }
}

impl FrameReceiver {
    /// A receiver that has seen no bytes.
    pub fn new() -> (r: FrameReceiver)
        ensures
            r@ == Seq::<u8>::empty(),
    {
        FrameReceiver { pending: Vec::new() }
    }

    /// Takes the next chunk read off the stream and returns every frame it
    /// completes, in order; fails once a head announces an oversized frame.
    pub fn on_chunk(&mut self, chunk: &[u8]) -> (r: ReceiveStep)
        ensures
            payloads(r.frames@) == decoded_frames(old(self)@ + chunk@),
            final(self)@ == undecoded_rest(old(self)@ + chunk@),
            r.outcome == (if frame_oversized(undecoded_rest(old(self)@ + chunk@)) {
                StreamOutcome::Failed(FrameError::TooLarge)
            } else {
                StreamOutcome::Open
            }),
    {
        let ghost buf = old(self)@ + chunk@;
        self.pending.extend_from_slice(chunk);
        assert(self.pending@ =~= buf);
        let mut frames: Vec<Vec<u8>> = Vec::new();
        loop
            invariant
                buf == old(self)@ + chunk@,
                payloads(frames@) + decoded_frames(self.pending@) == decoded_frames(buf),
                undecoded_rest(self.pending@) == undecoded_rest(buf),
            decreases self.pending@.len(),
        {
            match codec_decode(self.pending.as_slice()) {
                Ok(Some(f)) => {
                    let ghost old_pending = self.pending@;
                    let ghost old_frames = frames@;
                    let at = HEAD_LEN + f.len();
                    let rest = self.pending.split_off(at);
                    self.pending = rest;
                    frames.push(f);
                    assert(self.pending@ =~= frame_rest(old_pending));
                    assert(payloads(frames@) =~= payloads(old_frames).push(frame_payload(old_pending)));
                    assert(payloads(frames@) + decoded_frames(self.pending@) =~= payloads(old_frames)
                        + decoded_frames(old_pending));
                },
                Ok(None) => {
                    assert(decoded_frames(self.pending@) =~= Seq::<Seq<u8>>::empty());
                    assert(payloads(frames@) =~= decoded_frames(buf));
                    return ReceiveStep { frames, outcome: StreamOutcome::Open };
                },
                Err(_) => {
                    assert(payloads(frames@) =~= decoded_frames(buf));
                    return ReceiveStep { frames, outcome: StreamOutcome::Failed(FrameError::TooLarge) };
                },
            }
        }
    }

    /// Handles the end of the stream: returns the frames still complete in the
    /// buffer, and whether the stream ended between two frames.
    pub fn on_end(&mut self) -> (r: ReceiveStep)
        ensures
            payloads(r.frames@) == decoded_frames(old(self)@),
            final(self)@ == undecoded_rest(old(self)@),
            r.outcome == end_outcome(undecoded_rest(old(self)@)),
    {
        let mut frames: Vec<Vec<u8>> = Vec::new();
        loop
            invariant
                payloads(frames@) + decoded_frames(self.pending@) == decoded_frames(old(self)@),
                undecoded_rest(self.pending@) == undecoded_rest(old(self)@),
            decreases self.pending@.len(),
        {
            match codec_decode_eof(self.pending.as_slice()) {
                Ok(Some(f)) => {
                    let ghost old_pending = self.pending@;
                    let ghost old_frames = frames@;
                    let at = HEAD_LEN + f.len();
                    let rest = self.pending.split_off(at);
                    self.pending = rest;
                    frames.push(f);
                    assert(self.pending@ =~= frame_rest(old_pending));
                    assert(payloads(frames@) =~= payloads(old_frames).push(frame_payload(old_pending)));
                    assert(payloads(frames@) + decoded_frames(self.pending@) =~= payloads(old_frames)
                        + decoded_frames(old_pending));
                },
                Ok(None) => {
                    assert(decoded_frames(self.pending@) =~= Seq::<Seq<u8>>::empty());
                    assert(payloads(frames@) =~= decoded_frames(old(self)@));
                    return ReceiveStep { frames, outcome: StreamOutcome::Ended };
                },
                Err(_) => {
                    assert(decoded_frames(self.pending@) =~= Seq::<Seq<u8>>::empty());
                    assert(payloads(frames@) =~= decoded_frames(old(self)@));
                    let outcome = match codec_decode(self.pending.as_slice()) {
                        Err(_) => StreamOutcome::Failed(FrameError::TooLarge),
                        Ok(_) => StreamOutcome::Failed(FrameError::BytesRemaining),
                    };
                    return ReceiveStep { frames, outcome };
                },
            }
        }
    }
}

/// Where a stream stands once it has ended with `rest` left undecoded.
pub open spec fn end_outcome(rest: Seq<u8>) -> StreamOutcome {
    if frame_oversized(rest) {
        StreamOutcome::Failed(FrameError::TooLarge)
    } else if ends_cleanly(rest) {
        StreamOutcome::Ended
    } else {
        StreamOutcome::Failed(FrameError::BytesRemaining)
    }
}

// ----- laws of the frame format -----

proof fn lemma_head_unchanged_by_suffix(a: Seq<u8>, b: Seq<u8>)
    requires
        a.len() >= HEAD_LEN,
    ensures
        announced_len(a + b) == announced_len(a),
{
    assert((a + b)[0] == a[0]);
    assert((a + b)[1] == a[1]);
    assert((a + b)[2] == a[2]);
    assert((a + b)[3] == a[3]);
}

/// Bytes arriving later never change a frame already complete at the start
/// of the buffer, nor an oversized head already received.
pub proof fn lemma_frame_unchanged_by_suffix(a: Seq<u8>, b: Seq<u8>)
    ensures
        frame_available(a) ==> frame_available(a + b) && frame_payload(a + b) == frame_payload(a)
            && frame_rest(a + b) == frame_rest(a) + b,
        frame_oversized(a) ==> frame_oversized(a + b),
{
    if a.len() >= HEAD_LEN {
        lemma_head_unchanged_by_suffix(a, b);
        if frame_available(a) {
            assert(frame_payload(a + b) =~= frame_payload(a));
            assert(frame_rest(a + b) =~= frame_rest(a) + b);
        }
    }
}

/// The head written for a payload announces its length.
proof fn lemma_be_u32_round_trip(n: nat)
    requires
        n < 0x1_0000_0000,
    ensures
        be_u32_value(be_u32_bytes(n)) == n,
{
    let b = be_u32_bytes(n);
    assert(b[0] as nat == (n / 0x1000000) % 0x100);
    assert(b[1] as nat == (n / 0x10000) % 0x100);
    assert(b[2] as nat == (n / 0x100) % 0x100);
    assert(b[3] as nat == n % 0x100);
    assert((n / 0x1000000) % 0x100 * 0x1000000 + (n / 0x10000) % 0x100 * 0x10000 + (n / 0x100)
        % 0x100 * 0x100 + n % 0x100 == n) by (nonlinear_arith)
        requires
            n < 0x1_0000_0000,
    ;
}

/// A frame written for a payload of acceptable length is read back as that
/// payload, whatever follows it.
pub proof fn lemma_encoded_frame_decodes(payload: Seq<u8>, rest: Seq<u8>)
    requires
        payload.len() <= MAX_FRAME_LEN,
    ensures
        frame_available(encoded_frame(payload) + rest),
        frame_payload(encoded_frame(payload) + rest) == payload,
        frame_rest(encoded_frame(payload) + rest) == rest,
{
    let e = encoded_frame(payload);
    lemma_be_u32_round_trip(payload.len());
    assert(e.len() == HEAD_LEN + payload.len());
    lemma_head_unchanged_by_suffix(e, rest);
    assert(be_u32_value(e) == be_u32_value(be_u32_bytes(payload.len()))) by {
        assert(e[0] == be_u32_bytes(payload.len())[0]);
        assert(e[1] == be_u32_bytes(payload.len())[1]);
        assert(e[2] == be_u32_bytes(payload.len())[2]);
        assert(e[3] == be_u32_bytes(payload.len())[3]);
    }
    assert(frame_payload(e + rest) =~= payload);
    assert(frame_rest(e + rest) =~= rest);
}

/// Round trip of the frame format: a receiver reading the frames written for
/// a sequence of payloads of acceptable length, followed by any bytes `tail`,
/// reads back exactly those payloads, in order, and then decodes `tail` as if
/// it had come alone.
pub proof fn lemma_frames_round_trip(payloads: Seq<Seq<u8>>, tail: Seq<u8>)
    requires
        forall|i: int| 0 <= i < payloads.len() ==> (#[trigger] payloads[i]).len() <= MAX_FRAME_LEN,
    ensures
        decoded_frames(encoded_frames(payloads) + tail) == payloads + decoded_frames(tail),
        undecoded_rest(encoded_frames(payloads) + tail) == undecoded_rest(tail),
    decreases payloads.len(),
{
    if payloads.len() == 0 {
        assert(encoded_frames(payloads) + tail =~= tail);
        assert(payloads + decoded_frames(tail) =~= decoded_frames(tail));
    } else {
        let p = payloads[0];
        let ps = payloads.drop_first();
        assert forall|i: int| 0 <= i < ps.len() implies (#[trigger] ps[i]).len() <= MAX_FRAME_LEN by {
            assert(ps[i] == payloads[i + 1]);
        }
        lemma_frames_round_trip(ps, tail);
        let rest = encoded_frames(ps) + tail;
        assert(encoded_frames(payloads) + tail =~= encoded_frame(p) + rest);
        lemma_encoded_frame_decodes(p, rest);
        assert(payloads =~= seq![p] + ps);
        assert(payloads + decoded_frames(tail) =~= seq![p] + (ps + decoded_frames(tail)));
    }
}

/// Reading a stream in chunks gives the frames of reading it whole: the frames
/// of `a`, then those of what `a` left over followed by `b`, are the frames of
/// `a + b`, and both leave the same bytes over.
pub proof fn lemma_decoding_is_incremental(a: Seq<u8>, b: Seq<u8>)
    ensures
        decoded_frames(a) + decoded_frames(undecoded_rest(a) + b) == decoded_frames(a + b),
        undecoded_rest(undecoded_rest(a) + b) == undecoded_rest(a + b),
    decreases a.len(),
{
    lemma_frame_unchanged_by_suffix(a, b);
    if frame_available(a) {
        lemma_decoding_is_incremental(frame_rest(a), b);
        assert(decoded_frames(a) + decoded_frames(undecoded_rest(a) + b) =~= seq![frame_payload(a)]
            + (decoded_frames(frame_rest(a)) + decoded_frames(undecoded_rest(frame_rest(a)) + b)));
    } else {
        assert(decoded_frames(a) + decoded_frames(undecoded_rest(a) + b) =~= decoded_frames(a + b));
    }
}

/// Writing one more frame appends its bytes to those of the frames before it.
pub proof fn lemma_encoded_frames_push(payloads: Seq<Seq<u8>>, p: Seq<u8>)
    ensures
        encoded_frames(payloads.push(p)) == encoded_frames(payloads) + encoded_frame(p),
    decreases payloads.len(),
{
    if payloads.len() == 0 {
        assert(payloads.push(p).drop_first() =~= Seq::<Seq<u8>>::empty());
        assert(encoded_frames(payloads.push(p).drop_first()) =~= Seq::<u8>::empty());
        assert(encoded_frames(payloads.push(p)) =~= encoded_frames(payloads) + encoded_frame(p));
    } else {
        assert(payloads.push(p).drop_first() =~= payloads.drop_first().push(p));
        lemma_encoded_frames_push(payloads.drop_first(), p);
        assert(encoded_frames(payloads.push(p)) =~= encoded_frames(payloads) + encoded_frame(p));
    }
}

} // verus!
