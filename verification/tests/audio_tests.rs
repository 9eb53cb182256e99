use standalone_recorder::audio_capture::{
    classify_chunk, is_silent, monitor_available, AudioTimeline, ChunkAction, AUDIO_POLL_MS,
};
use standalone_recorder::audio_frame::{
    encode_channel_layout, frame_geometry, is_capturable, max_packet_len, needs_rechannel,
    needs_resample, ChannelLayout, FrameAssembler, SampleKind, ENC_CHANNELS, ENC_SAMPLE_RATE,
    FRAME_MS,
};

#[test]
fn encoder_format_constants() {
    assert_eq!(ENC_SAMPLE_RATE, 48_000);
    assert_eq!(ENC_CHANNELS, 2);
    assert_eq!(FRAME_MS, 10);
    assert_eq!(AUDIO_POLL_MS, 100);
}

#[test]
fn geometry_at_encoder_rate_stereo() {
    let g = frame_geometry(48_000, 2);
    assert_eq!(g.frame_size, 480);
    assert_eq!(g.encode_len, 960);
    assert_eq!(g.rechannel_len, 960);
}

#[test]
fn geometry_mono_44100() {
    let g = frame_geometry(44_100, 1);
    assert_eq!(g.frame_size, 441);
    assert_eq!(g.encode_len, 882);
    assert_eq!(g.rechannel_len, 441);
}

#[test]
fn geometry_six_channels() {
    let g = frame_geometry(96_000, 6);
    assert_eq!(g.frame_size, 960);
    assert_eq!(g.encode_len, 1920);
    assert_eq!(g.rechannel_len, 960 * 6);
}

#[test]
fn geometry_rate_below_hundred_gives_empty_frames() {
    let g = frame_geometry(99, 2);
    assert_eq!(g.frame_size, 0);
    assert_eq!(g.rechannel_len, 0);
}

#[test]
fn rechannel_len_is_frame_size_times_channels() {
    for rate in [8_000u32, 16_000, 22_050, 44_100, 48_000, 96_000, 192_000] {
        for ch in 1u16..=8 {
            let g = frame_geometry(rate, ch);
            assert_eq!(g.rechannel_len, g.frame_size * ch as usize);
        }
    }
}

#[test]
fn conversions_needed() {
    assert!(!needs_resample(48_000));
    assert!(needs_resample(44_100));
    assert!(!needs_rechannel(2));
    assert!(needs_rechannel(1));
    assert!(needs_rechannel(6));
}

#[test]
fn packet_bound_is_six_bytes_per_sample() {
    assert_eq!(max_packet_len(960), 5760);
    assert_eq!(max_packet_len(0), 0);
}

#[test]
fn encoder_is_stereo() {
    assert_eq!(encode_channel_layout(), ChannelLayout::Stereo);
}

#[test]
fn capturable_formats() {
    for k in [
        SampleKind::I8,
        SampleKind::I16,
        SampleKind::I32,
        SampleKind::I64,
        SampleKind::U8,
        SampleKind::U16,
        SampleKind::U32,
        SampleKind::U64,
        SampleKind::F32,
        SampleKind::F64,
    ] {
        assert!(is_capturable(k));
    }
    for k in [
        SampleKind::I24,
        SampleKind::U24,
        SampleKind::DsdU8,
        SampleKind::DsdU16,
        SampleKind::DsdU32,
        SampleKind::Other,
    ] {
        assert!(!is_capturable(k));
    }
}

#[test]
fn assembler_cuts_full_frames_and_keeps_rest() {
    let mut a: FrameAssembler<i32> = FrameAssembler::new(3);
    assert_eq!(a.frame_len(), 3);
    let frames = a.push_samples(&[1, 2, 3, 4, 5]);
    assert_eq!(frames, vec![vec![1, 2, 3]]);
    assert_eq!(a.pending_len(), 2);
    let frames = a.push_samples(&[6, 7, 8, 9, 10, 11]);
    assert_eq!(frames, vec![vec![4, 5, 6], vec![7, 8, 9]]);
    assert_eq!(a.pending_len(), 2);
    let frames = a.push_samples(&[]);
    assert!(frames.is_empty());
    let frames = a.push_samples(&[12]);
    assert_eq!(frames, vec![vec![10, 11, 12]]);
    assert_eq!(a.pending_len(), 0);
}

#[test]
fn assembler_short_delivery_emits_nothing() {
    let mut a: FrameAssembler<u8> = FrameAssembler::new(4);
    assert!(a.push_samples(&[1, 2, 3]).is_empty());
    assert_eq!(a.pending_len(), 3);
}

#[test]
fn assembler_loses_no_sample() {
    let mut a: FrameAssembler<u32> = FrameAssembler::new(7);
    let mut out: Vec<u32> = Vec::new();
    let mut next = 0u32;
    for size in [0usize, 3, 11, 7, 1, 20, 6] {
        let data: Vec<u32> = (next..next + size as u32).collect();
        next += size as u32;
        for f in a.push_samples(&data) {
            assert_eq!(f.len(), 7);
            out.extend(f);
        }
        assert!(a.pending_len() < 7);
    }
    let expected: Vec<u32> = (0..next - a.pending_len() as u32).collect();
    assert_eq!(out, expected);
}

#[test]
fn timeline_stamps_encoded_frames_only() {
    let mut t = AudioTimeline::new();
    assert_eq!(t.next_pts(), 0);
    assert_eq!(t.on_encoded(true), Some(0));
    assert_eq!(t.on_encoded(false), None);
    assert_eq!(t.on_encoded(true), Some(10));
    assert_eq!(t.on_encoded(true), Some(20));
    assert_eq!(t.next_pts(), 30);
}

#[test]
fn timeline_nth_frame_at_n_lengths() {
    let mut t = AudioTimeline::new();
    for n in 0..1000i64 {
        assert_eq!(t.on_encoded(true), Some(n * FRAME_MS));
    }
}

fn pcm(samples: &[f32]) -> Vec<u8> {
    samples.iter().flat_map(|s| s.to_le_bytes()).collect()
}

#[test]
fn silence_detection() {
    assert!(is_silent(&pcm(&[0.0, 0.0, 0.0])));
    assert!(is_silent(&pcm(&[0.0, -0.0])));
    assert!(!is_silent(&pcm(&[0.0, 1.0e-30])));
    assert!(!is_silent(&pcm(&[0.5])));
    assert!(!is_silent(&pcm(&[f32::NAN])));
    assert!(is_silent(&[]));
}

#[test]
fn silence_ignores_trailing_partial_sample() {
    let mut bytes = pcm(&[0.0]);
    bytes.push(7);
    assert!(is_silent(&bytes));
}

#[test]
fn chunk_actions() {
    let silent = pcm(&[0.0; 4]);
    let loud = pcm(&[0.25, -0.25]);
    assert_eq!(classify_chunk(false, &loud), ChunkAction::Retry);
    assert_eq!(classify_chunk(true, &silent), ChunkAction::SkipSilence);
    assert_eq!(classify_chunk(true, &loud), ChunkAction::Encode);
}

#[test]
fn monitor_names() {
    assert!(!monitor_available(""));
    assert!(monitor_available("alsa_output.pci.monitor"));
}

#[test]
fn assembler_run_from_first_sample() {
    let mut a: FrameAssembler<u16> = FrameAssembler::new(4);
    let deliveries: Vec<Vec<u16>> = vec![vec![0, 1], vec![2, 3, 4, 5, 6], vec![], vec![7, 8, 9, 10, 11, 12]];
    let mut frames: Vec<Vec<u16>> = Vec::new();
    for d in &deliveries {
        frames.extend(a.push_samples(d));
    }
    assert_eq!(frames, vec![vec![0, 1, 2, 3], vec![4, 5, 6, 7], vec![8, 9, 10, 11]]);
    assert_eq!(a.pending_len(), 13 % 4);
}
