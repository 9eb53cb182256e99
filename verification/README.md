# standalone_recorder

The verified core of a standalone screen-and-audio recorder.

- `src/audio_frame.rs`: frame sizes for a capture device, the conversions a
  frame needs, and `FrameAssembler`, which cuts the interleaved sample stream
  into 10 ms frames without losing or reordering samples.
- `src/audio_capture.rs`: timestamps of encoded audio frames, silence
  detection on 32-bit float PCM, and the per-read decisions of the capture loop.
- `src/video_capture.rs`: timestamps and pacing of the screen capture loop,
  and the encoder and output settings it starts with.
- `src/recorder.rs`: start/stop state of the recorder and the entry points
  used on the shared recorder.
- `app/`: threads, audio devices, the Opus encoder, the screen grabber and
  the output file, driven by the library.
