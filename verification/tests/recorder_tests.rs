use standalone_recorder::recorder::{
    is_standalone_recording, start_standalone_recording, stop_standalone_recording,
    StandaloneRecorder,
};
use standalone_recorder::video_capture::{
    frame_outcome, frame_sleep_nanos, standalone_target, FrameOutcome, video_encoder_settings, CaptureEvent, VideoCodec,
    VideoStep, VideoTimeline, FRAME_INTERVAL_MS, FRAME_INTERVAL_NANOS, KEYFRAME_INTERVAL,
};

#[test]
fn new_recorder_is_idle() {
    let r = StandaloneRecorder::default();
    assert!(!r.is_recording());
    assert!(!r.has_worker());
    let r = StandaloneRecorder::new();
    assert!(!r.is_recording());
}

#[test]
fn start_then_stop() {
    let mut r = StandaloneRecorder::new();
    r.start();
    assert!(r.is_recording());
    assert!(r.has_worker());
    assert!(r.stop());
    assert!(!r.is_recording());
    assert!(!r.has_worker());
    assert!(!r.stop());
}

#[test]
fn restart_keeps_recording() {
    let mut r = StandaloneRecorder::new();
    r.start();
    r.start();
    assert!(r.is_recording());
    assert!(r.stop());
}

#[test]
fn worker_exit_turns_recording_off() {
    let mut r = StandaloneRecorder::new();
    r.start();
    r.worker_exited();
    assert!(!r.is_recording());
    assert!(r.has_worker());
    assert!(r.stop());
}

#[test]
fn shared_recorder_functions() {
    let mut r = StandaloneRecorder::new();
    assert!(!is_standalone_recording(Some(&r)));
    assert!(start_standalone_recording(Some(&mut r)));
    assert!(is_standalone_recording(Some(&r)));
    assert!(stop_standalone_recording(Some(&mut r)));
    assert!(!is_standalone_recording(Some(&r)));
    assert!(!stop_standalone_recording(Some(&mut r)));
}

#[test]
fn unavailable_shared_recorder() {
    assert!(!start_standalone_recording(None));
    assert!(!stop_standalone_recording(None));
    assert!(!is_standalone_recording(None));
}

#[test]
fn video_timeline_steps() {
    let mut t = VideoTimeline::new();
    assert_eq!(t.on_capture(CaptureEvent::Frame { valid: true }), VideoStep::Encode(0));
    assert_eq!(t.ms(), 33);
    assert_eq!(t.on_capture(CaptureEvent::WouldBlock), VideoStep::Skip);
    assert_eq!(t.ms(), 33);
    assert_eq!(t.on_capture(CaptureEvent::Frame { valid: false }), VideoStep::Skip);
    assert_eq!(t.ms(), 66);
    assert_eq!(t.on_capture(CaptureEvent::Frame { valid: true }), VideoStep::Encode(66));
    assert_eq!(t.on_capture(CaptureEvent::Failed), VideoStep::Stop);
    assert_eq!(t.ms(), 99);
}

#[test]
fn video_clock_counts_frames() {
    let mut t = VideoTimeline::new();
    let events = [
        CaptureEvent::WouldBlock,
        CaptureEvent::Frame { valid: true },
        CaptureEvent::Frame { valid: false },
        CaptureEvent::WouldBlock,
        CaptureEvent::Frame { valid: true },
    ];
    for e in events {
        t.on_capture(e);
    }
    assert_eq!(t.ms(), 3 * FRAME_INTERVAL_MS);
}

#[test]
fn frame_pacing() {
    assert_eq!(FRAME_INTERVAL_NANOS, 33_000_000);
    assert_eq!(frame_sleep_nanos(0), Some(33_000_000));
    assert_eq!(frame_sleep_nanos(10_000_000), Some(23_000_000));
    assert_eq!(frame_sleep_nanos(33_000_000), None);
    assert_eq!(frame_sleep_nanos(50_000_000), None);
}

#[test]
fn encoder_settings() {
    let s = video_encoder_settings(1920, 1080);
    assert_eq!(s.width, 1920);
    assert_eq!(s.height, 1080);
    assert_eq!(s.codec, VideoCodec::Vp9);
    assert_eq!(s.keyframe_interval, Some(KEYFRAME_INTERVAL));
    assert_eq!(KEYFRAME_INTERVAL, 240);
}

#[test]
fn encoder_settings_truncate_sizes() {
    let w: u64 = (1u64 << 32) + 5;
    if let Ok(w) = usize::try_from(w) {
        assert_eq!(video_encoder_settings(w, 10).width, 5);
    }
}

#[test]
fn target_of_standalone_recording() {
    let t = standalone_target("/tmp/videos".to_string());
    assert!(!t.server);
    assert_eq!(t.id, "standalone");
    assert_eq!(t.dir, "/tmp/videos");
    assert_eq!(t.display_idx, 0);
    assert!(!t.camera);
}

#[test]
fn frame_outcomes() {
    assert_eq!(frame_outcome(true, true), FrameOutcome::Write);
    assert_eq!(frame_outcome(true, false), FrameOutcome::EncodeFailed);
    assert_eq!(frame_outcome(false, false), FrameOutcome::ConversionFailed);
    assert_eq!(frame_outcome(false, true), FrameOutcome::ConversionFailed);
}
