# webcodecs

The verified core of a WebCodecs implementation for Node.js. The codec
library does the encoding and decoding; this crate holds the rules around
it, each with a contract proved by Verus:

- `codec_string`, `video_decoder`, `audio_codec`, `image_decoder`: which
  codec strings and MIME types are accepted and what they mean, and the
  validation of decoder and encoder configurations.
- `bitstream`, `av1`: Annex B and length-prefixed H.264/H.265 data, the
  avcC/hvcC/av1C decoder configuration records, and the round trips between
  the two packet layouts and between Annex B and avcC extradata.
- `codec_state`, `flush_tracker`, `event_target`: the life cycle shared by
  the decoders and the encoder, pending flushes, and `dequeue` event
  dispatch.
- `audio_data`, `audio_encoder`, `encoded_chunk`: audio copy plans, the
  audio encoder's output timeline, and encoded chunks.
- `demuxer_base`, `muxer_base` and the MP4/Matroska modules: track
  selection, timestamp conversion, and the timestamps written by muxers.
- `hardware`, `hw_fallback`, `codec_pressure`: hardware accelerator choice,
  the fallback to software after repeated failures, and the per-platform
  limit on concurrent hardware encoders (2 on macOS, 4 elsewhere).

`app/` holds the Node.js glue: process-wide state, JavaScript exceptions,
WebIDL number conversions, floating-point sample conversion and the event
dispatch loop. `tests/` exercises the library on concrete values.
