//! Pacing and time-stamping of the screen capture loop, and the settings it
//! creates its encoder and output file with.
use vstd::prelude::*;

verus! {

/// Milliseconds between two captured frames (about 30 frames per second);
/// also the timeout of one capture attempt.
pub const FRAME_INTERVAL_MS: i64 = 33;

/// The same interval in nanoseconds.
pub const FRAME_INTERVAL_NANOS: u64 = 33_000_000;

/// Frames between two key frames of the video encoder.
pub const KEYFRAME_INTERVAL: usize = 240;

/// Identifier of the recording in the name of its output file.
pub open spec fn spec_recording_id() -> Seq<char> {
    "standalone"@
}

/// What one capture attempt gave.
#[derive(Clone, Copy, PartialEq, Eq, Debug)]
pub enum CaptureEvent {
    /// A frame was captured; `valid` says whether it holds an image.
    Frame { valid: bool },
    /// No frame was ready yet.
    WouldBlock,
    /// Capture failed.
    Failed,
}

/// What the loop does after a capture attempt.
#[derive(Clone, Copy, PartialEq, Eq, Debug)]
pub enum VideoStep {
    /// Convert and encode the frame at this timestamp (milliseconds) and write it.
    Encode(i64),
    /// Nothing to encode; go on.
    Skip,
    /// Leave the loop.
    Stop,
}

/// The step for `event` when the clock reads `ms`.
pub open spec fn spec_step(ms: i64, event: CaptureEvent) -> VideoStep {
    match event {
        CaptureEvent::Frame { valid } => if valid {
            VideoStep::Encode(ms)
        } else {
            VideoStep::Skip
        },
        CaptureEvent::WouldBlock => VideoStep::Skip,
        CaptureEvent::Failed => VideoStep::Stop,
    }
}

/// What became of a frame the loop set out to encode.
#[derive(Clone, Copy, PartialEq, Eq, Debug)]
pub enum FrameOutcome {
    /// Converted and encoded: write it to the recording.
    Write,
    /// Conversion to the encoder's pixel format failed: log it and go on.
    ConversionFailed,
    /// Encoding failed: log it and go on.
    EncodeFailed,
}

/// The outcome of a frame given whether it was converted and, once converted,
/// whether it was encoded.
pub open spec fn spec_frame_outcome(converted: bool, encoded: bool) -> FrameOutcome {
    if !converted {
        FrameOutcome::ConversionFailed
    } else if !encoded {
        FrameOutcome::EncodeFailed
    } else {
        FrameOutcome::Write
    }
}

/// Decides what becomes of a frame after conversion and encoding: it is
/// written only when both succeeded; a failure of either is only logged and
/// the loop goes on.
pub fn frame_outcome(converted: bool, encoded: bool) -> (o: FrameOutcome)
    ensures
        o == spec_frame_outcome(converted, encoded),
{
    if !converted {
        FrameOutcome::ConversionFailed
    } else if !encoded {
        FrameOutcome::EncodeFailed
    } else {
        FrameOutcome::Write
    }
}

/// Timestamp after `events`, starting at `ms`: each captured frame, valid or
/// not, moves it on by one frame interval; other events leave it.
pub open spec fn spec_ms_after(ms: int, events: Seq<CaptureEvent>) -> int
    decreases events.len(),
{
    if events.len() == 0 {
        ms
    } else {
        let before = spec_ms_after(ms, events.drop_last());
        match events.last() {
            CaptureEvent::Frame { .. } => before + FRAME_INTERVAL_MS,
            _ => before,
        }
    }
}

/// Number of captured frames, valid or not, among `events`.
pub open spec fn spec_frame_count(events: Seq<CaptureEvent>) -> int
    decreases events.len(),
{
    if events.len() == 0 {
        0
    } else {
        spec_frame_count(events.drop_last()) + match events.last() {
            CaptureEvent::Frame { .. } => 1int,
            _ => 0int,
        }
    }
}

/// Timestamps of the captured video, in milliseconds since the recording began.
pub struct VideoTimeline {
    ms: i64,
}

impl VideoTimeline {
    /// Timestamp of the next captured frame.
    pub closed spec fn spec_ms(&self) -> i64 {
        self.ms
    }

    /// A timeline at the start of a recording.
    pub fn new() -> (t: Self)
        ensures
            t.spec_ms() == 0,
    {
        VideoTimeline { ms: 0 }
    }

    /// Timestamp of the next captured frame.
    pub fn ms(&self) -> (m: i64)
        ensures
            m == self.spec_ms(),
    {
        self.ms
    }

    /// Decides what to do with one capture attempt. A valid frame is encoded
    /// at the current timestamp; any captured frame then moves the timestamp
    /// on by one interval. When no frame is ready the loop goes on unchanged,
    /// and when capture fails it stops.
    pub fn on_capture(&mut self, event: CaptureEvent) -> (step: VideoStep)
        requires
            event is Frame ==> old(self).spec_ms() + FRAME_INTERVAL_MS <= i64::MAX,
        ensures
            event == (CaptureEvent::Frame { valid: true }) ==> step == VideoStep::Encode(
                old(self).spec_ms(),
            ),
            event == (CaptureEvent::Frame { valid: false }) ==> step == VideoStep::Skip,
            event is Frame ==> final(self).spec_ms() == old(self).spec_ms() + FRAME_INTERVAL_MS,
            event is WouldBlock ==> step == VideoStep::Skip && final(self).spec_ms() == old(
                self,
            ).spec_ms(),
            event is Failed ==> step == VideoStep::Stop && final(self).spec_ms() == old(
                self,
            ).spec_ms(),
            final(self).spec_ms() == spec_ms_after(old(self).spec_ms() as int, seq![event]),
            step == spec_step(old(self).spec_ms(), event),
    {
        proof {
            let one = seq![event];
            assert(one.drop_last() =~= Seq::<CaptureEvent>::empty());
            assert(one.last() == event);
            reveal_with_fuel(spec_ms_after, 2);
        }
        match event {
            CaptureEvent::Frame { valid } => {
                let step = if valid {
                    VideoStep::Encode(self.ms)
                } else {
                    VideoStep::Skip
                };
                self.ms = self.ms + FRAME_INTERVAL_MS;
                step
            },
            CaptureEvent::WouldBlock => VideoStep::Skip,
            CaptureEvent::Failed => VideoStep::Stop,
        }
    }
}

/// The video clock counts captured frames: after any run of capture attempts
/// the timestamp has moved on by one interval per captured frame, valid or not,
/// and by nothing for attempts that found no frame or failed.
pub proof fn lemma_ms_counts_frames(ms: int, events: Seq<CaptureEvent>)
    ensures
        spec_ms_after(ms, events) == ms + FRAME_INTERVAL_MS * spec_frame_count(events),
    decreases events.len(),
{
    if events.len() > 0 {
        lemma_ms_counts_frames(ms, events.drop_last());
    }
}

/// Only a failed capture ends the loop. An invalid frame or an attempt that
/// found no frame writes nothing and the loop goes on; a frame is written only
/// when it was both converted and encoded, and a failure of either is no
/// reason to stop.
pub proof fn lemma_only_capture_failure_stops(ms: i64, event: CaptureEvent, converted: bool, encoded: bool)
    ensures
        (spec_step(ms, event) == VideoStep::Stop) <==> (event is Failed),
        event == (CaptureEvent::Frame { valid: false }) ==> spec_step(ms, event) == VideoStep::Skip,
        event is WouldBlock ==> spec_step(ms, event) == VideoStep::Skip,
        (spec_frame_outcome(converted, encoded) == FrameOutcome::Write) <==> (converted && encoded),
{
}

/// How long to sleep after an iteration that took `elapsed_nanos`, to keep one
/// frame per interval: the rest of the interval, or no sleep once it is over.
pub fn frame_sleep_nanos(elapsed_nanos: u128) -> (sleep: Option<u64>)
    ensures
        elapsed_nanos < FRAME_INTERVAL_NANOS ==> sleep == Some(
            (FRAME_INTERVAL_NANOS - elapsed_nanos) as u64,
        ),
        elapsed_nanos >= FRAME_INTERVAL_NANOS ==> sleep.is_none(),
{
    if elapsed_nanos < FRAME_INTERVAL_NANOS as u128 {
        let e = elapsed_nanos as u64;
        Some(FRAME_INTERVAL_NANOS - e)
    } else {
        None
    }
}

/// Codec of the recorded video.
#[derive(Clone, Copy, PartialEq, Eq, Debug)]
pub enum VideoCodec {
    Vp9,
}

/// Settings the video encoder is created with (its quality is the highest).
#[derive(Clone, Copy, PartialEq, Eq, Debug)]
pub struct VideoEncoderSettings {
    pub width: u32,
    pub height: u32,
    pub codec: VideoCodec,
    pub keyframe_interval: Option<usize>,
}

/// Encoder settings for a display of `width` by `height` pixels: VP9 with a
/// key frame every 240 frames; the sizes are taken as 32-bit values.
pub fn video_encoder_settings(width: usize, height: usize) -> (s: VideoEncoderSettings)
    ensures
        s.width == width as u32,
        s.height == height as u32,
        s.codec == VideoCodec::Vp9,
        s.keyframe_interval == Some(KEYFRAME_INTERVAL),
{
    VideoEncoderSettings {
        width: width as u32,
        height: height as u32,
        codec: VideoCodec::Vp9,
        keyframe_interval: Some(KEYFRAME_INTERVAL),
    }
}

/// Where and how the recording is written.
pub struct RecordingTarget {
    /// The recording is made on the controlled side.
    pub server: bool,
    /// Identifier used in the output file's name.
    pub id: String,
    /// Directory of the output file.
    pub dir: String,
    /// Index of the recorded display.
    pub display_idx: usize,
    /// The source is a camera.
    pub camera: bool,
}

/// The target of a standalone recording into `dir`: a local, non-camera
/// recording of display 0 identified as "standalone".
pub fn standalone_target(dir: String) -> (t: RecordingTarget)
    ensures
        !t.server,
        t.id@ == spec_recording_id(),
        t.dir@ == dir@,
        t.display_idx == 0,
        !t.camera,
{
    RecordingTarget {
        server: false,
        id: "standalone".to_owned(),
        dir,
        display_idx: 0,
        camera: false,
    }
}

} // verus!
