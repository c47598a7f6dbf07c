# ermis-call-node-wasm

A peer-to-peer media call node. The verified library (`src/`) holds the
call protocol and the decisions the node takes; `app/` holds the iroh
endpoint, the async stream tasks and the JavaScript-facing handle.

- `protocol` – stream-kind tag bytes, ALPN, channel sizes and close/reset codes;
  the round trip of a whole media stream (tag byte, then frames).
- `framing` – the length-delimited frame format (big-endian `u32` length, then
  payload, at most 8 MiB), written and read through tokio-util's
  `LengthDelimitedCodec`; `FrameReceiver` turns the chunks read off a stream
  into frames, whatever the chunk boundaries.
- `address` – the base64 text form of a serialized endpoint address.
- `session` – packet-loss counters, the secret-key choice, and the
  drop-oldest policy of the bounded frame queues.
- `video` – the sender of one group of pictures: tag, key frame, queued
  frames, and the reset when the next group supersedes it, as a step
  function from event to action that the node runs.
- `audio` – the sender of the audio stream: tag, then each queued frame,
  stopping at the first failure, as a step function the node runs.
