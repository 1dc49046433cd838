# hippo_core

The playback core of the Hippo music player, verified with Verus.

- `src/song_path.rs`: song paths of the form `file|subsong`, and decimal
  parsing of the sub-song index.
- `src/playback.rs`: a running playback, and the message stream that each
  playback gets (a `ringbuf` ring buffer).
- `src/callback.rs`: what the audio callback keeps between calls, and the
  steps that fill an output buffer from decoded samples without losing or
  repeating any.
- `src/audio.rs`: the output-device bookkeeping and the handling of the
  requests that reach the audio output.
- `app/lib.rs`: drives the core against a decoder plugin and an
  output-device driver, and runs the audio callback loop.
