//! Decisions and bookkeeping of a standalone screen-and-audio recorder:
//! framing and time-stamping of captured audio, pacing and time-stamping of
//! captured video, and the start/stop state of the recorder.
pub mod audio_capture;
pub mod audio_frame;
pub mod recorder;
pub mod video_capture;
