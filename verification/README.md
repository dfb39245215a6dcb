# unm-sfx

Sound-effect playback core with its contracts proved by Verus.

- `src/clip.rs` — sound handles and clip maps.
- `src/atlas.rs` — where each loaded sound lies in the shared sample buffer.
- `src/mixer.rs` — the voices, how one output buffer advances them, and which
  channel route each frame takes.
- `src/queue.rs` — the play-command queue (a `ringbuf` ring buffer) between
  the control thread and the audio callback.
- `src/player.rs` — the control side (loading, play requests, stream upkeep)
  and the audio callback's state.
- `src/decoder.rs`, `src/status.rs` — checks on decoded and caller-supplied
  audio, and the status codes of the C entry points.
- `src/laws.rs` — properties that span several functions.
- `app/` — the C entry points, decoding with `symphonia`, the floating-point
  sample work and the `cpal` output stream.
