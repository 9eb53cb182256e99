//! Framing of captured audio into fixed 10 ms chunks for the Opus encoder.
//!
//! The encoded track is 48 kHz stereo in 10 ms frames. The device delivers
//! interleaved samples at its own rate and channel count; this module computes
//! how many device samples make one frame, which conversions a frame needs, and
//! cuts the incoming sample stream into frames without losing or reordering
//! any sample.
use vstd::prelude::*;
use std::collections::VecDeque;

verus! {

broadcast use vstd::std_specs::vecdeque::group_vec_dequeue_axioms;

/// Sample rate of the encoded audio track, in Hz.
pub const ENC_SAMPLE_RATE: u32 = 48_000;

/// Number of channels of the encoded audio track.
pub const ENC_CHANNELS: u16 = 2;

/// Length of one encoded audio frame, in milliseconds.
pub const FRAME_MS: i64 = 10;

/// Samples per channel in one 10 ms frame at `sample_rate`.
pub open spec fn spec_frame_size(sample_rate: u32) -> int {
    sample_rate as int / 100
}

/// Interleaved samples in one encoder frame (10 ms, encoder channel count).
pub open spec fn spec_encode_len(sample_rate: u32) -> int {
    spec_frame_size(sample_rate) * ENC_CHANNELS as int
}

/// Interleaved device samples that make up one 10 ms frame.
pub open spec fn spec_rechannel_len(sample_rate: u32, device_channels: u16) -> int {
    spec_encode_len(sample_rate) * device_channels as int / ENC_CHANNELS as int
}

/// The sizes that govern framing for one device configuration.
pub struct FrameGeometry {
    /// Samples per channel in 10 ms at the device rate.
    pub frame_size: usize,
    /// Interleaved samples per frame at the encoder's channel count.
    pub encode_len: usize,
    /// Interleaved device samples that are taken from the stream per frame.
    pub rechannel_len: usize,
}

/// Computes the frame sizes for a device running at `sample_rate` Hz with
/// `device_channels` interleaved channels.
pub fn frame_geometry(sample_rate: u32, device_channels: u16) -> (g: FrameGeometry)
    requires
        spec_encode_len(sample_rate) * device_channels <= usize::MAX,
    ensures
        g.frame_size == spec_frame_size(sample_rate),
        g.encode_len == spec_encode_len(sample_rate),
        g.rechannel_len == spec_rechannel_len(sample_rate, device_channels),
        g.frame_size * 100 <= sample_rate < g.frame_size * 100 + 100,
        g.encode_len == g.frame_size * 2,
        g.rechannel_len == g.frame_size * device_channels,
{
    let frame_size = (sample_rate / 100) as usize;
    let encode_len = frame_size * (ENC_CHANNELS as usize);
    let rechannel_len = encode_len * (device_channels as usize) / (ENC_CHANNELS as usize);
    proof {
        lemma_frame_size_is_ten_ms(sample_rate);
        lemma_rechannel_len_is_frame_times_channels(sample_rate, device_channels);
    }
    FrameGeometry { frame_size, encode_len, rechannel_len }
}

/// A frame holds 10 ms of audio at the device rate, whatever the rate: one
/// hundred frames make up the samples of one second per channel, short of less
/// than one frame's worth lost to rounding down.
pub proof fn lemma_frame_size_is_ten_ms(sample_rate: u32)
    ensures
        spec_frame_size(sample_rate) * 100 <= sample_rate < spec_frame_size(sample_rate) * 100
            + 100,
        spec_frame_size(sample_rate) >= 0,
{
}

/// Raising the rate by 100 Hz adds one sample per channel to every frame, and
/// a faster device never gets shorter frames.
pub proof fn lemma_frame_size_grows_with_rate(r1: u32, r2: u32)
    ensures
        r1 <= r2 ==> spec_frame_size(r1) <= spec_frame_size(r2),
        r2 == r1 + 100 ==> spec_frame_size(r2) == spec_frame_size(r1) + 1,
{
    lemma_frame_size_is_ten_ms(r1);
    lemma_frame_size_is_ten_ms(r2);
}

/// One frame takes as many device samples as there are samples per channel
/// times the device's channel count.
pub proof fn lemma_rechannel_len_is_frame_times_channels(sample_rate: u32, device_channels: u16)
    ensures
        spec_rechannel_len(sample_rate, device_channels) == spec_frame_size(sample_rate)
            * device_channels,
{
    let f = spec_frame_size(sample_rate);
    let d = device_channels as int;
    assert((f * 2) * d / 2 == f * d) by (nonlinear_arith)
        requires
            f >= 0,
            d >= 0,
    ;
}

/// Whether a frame must be resampled from the device rate to the encoder rate.
pub fn needs_resample(sample_rate: u32) -> (b: bool)
    ensures
        b == (sample_rate != ENC_SAMPLE_RATE),
{
    sample_rate != ENC_SAMPLE_RATE
}

/// Whether a frame must be rechannelled from the device layout to stereo.
pub fn needs_rechannel(device_channels: u16) -> (b: bool)
    ensures
        b == (device_channels != ENC_CHANNELS),
{
    device_channels != ENC_CHANNELS
}

/// Upper bound handed to the encoder for the size of one encoded packet:
/// six bytes per input sample.
pub fn max_packet_len(frame_len: usize) -> (n: usize)
    requires
        frame_len * 6 <= usize::MAX,
    ensures
        n == frame_len * 6,
{
    frame_len * 6
}

/// Channel layout of an encoder.
#[derive(Clone, Copy, PartialEq, Eq, Debug)]
pub enum ChannelLayout {
    Mono,
    Stereo,
}

/// The layout the encoder is created with: stereo, since the track has more
/// than one channel.
pub fn encode_channel_layout() -> (c: ChannelLayout)
    ensures
        c == (if ENC_CHANNELS > 1 {
            ChannelLayout::Stereo
        } else {
            ChannelLayout::Mono
        }),
{
    if ENC_CHANNELS > 1 {
        ChannelLayout::Stereo
    } else {
        ChannelLayout::Mono
    }
}

/// Sample formats a capture device can report.
#[derive(Clone, Copy, PartialEq, Eq, Debug)]
pub enum SampleKind {
    I8,
    I16,
    I24,
    I32,
    I64,
    U8,
    U16,
    U24,
    U32,
    U64,
    F32,
    F64,
    DsdU8,
    DsdU16,
    DsdU32,
    Other,
}

/// The sample formats that capture accepts.
pub open spec fn spec_is_capturable(kind: SampleKind) -> bool {
    match kind {
        SampleKind::I8 | SampleKind::I16 | SampleKind::I32 | SampleKind::I64 | SampleKind::U8
        | SampleKind::U16 | SampleKind::U32 | SampleKind::U64 | SampleKind::F32
        | SampleKind::F64 => true,
        _ => false,
    }
}

/// Whether an input stream can be built for a device that delivers `kind`;
/// any other format is refused as unsupported.
pub fn is_capturable(kind: SampleKind) -> (b: bool)
    ensures
        b == spec_is_capturable(kind),
{
    match kind {
        SampleKind::I8 | SampleKind::I16 | SampleKind::I32 | SampleKind::I64 | SampleKind::U8
        | SampleKind::U16 | SampleKind::U32 | SampleKind::U64 | SampleKind::F32
        | SampleKind::F64 => true,
        _ => false,
    }
}

/// Concatenation of a sequence of frames.
pub open spec fn flatten<T>(frames: Seq<Seq<T>>) -> Seq<T>
    decreases frames.len(),
{
    if frames.len() == 0 {
        Seq::empty()
    } else {
        flatten(frames.drop_last()) + frames.last()
    }
}

/// The `i`-th chunk of length `l` of `all`.
pub open spec fn chunk<T>(all: Seq<T>, l: int, i: int) -> Seq<T> {
    all.subrange(i * l, i * l + l)
}

/// The full frames of length `l` that `all` holds, in order.
pub open spec fn spec_frames_of<T>(all: Seq<T>, l: int) -> Seq<Seq<T>> {
    Seq::new((all.len() as int / l) as nat, |i: int| chunk(all, l, i))
}

/// What is left of `all` after its full frames of length `l`.
pub open spec fn spec_rest_of<T>(all: Seq<T>, l: int) -> Seq<T> {
    all.subrange((all.len() as int / l) * l, all.len() as int)
}

/// Frames handed out, and samples left pending, by an assembler of frame
/// length `l` that started empty and was given `deliveries` one after another.
pub open spec fn spec_assemble<T>(deliveries: Seq<Seq<T>>, l: int) -> (Seq<Seq<T>>, Seq<T>)
    decreases deliveries.len(),
{
    if deliveries.len() == 0 {
        (Seq::empty(), Seq::empty())
    } else {
        let before = spec_assemble(deliveries.drop_last(), l);
        let all = before.1 + deliveries.last();
        (before.0 + spec_frames_of(all, l), spec_rest_of(all, l))
    }
}

/// Accumulates interleaved device samples and hands them out in frames of a
/// fixed length, keeping the remainder for the next delivery.
pub struct FrameAssembler<T> {
    buffer: VecDeque<T>,
    frame_len: usize,
}

impl<T: Copy> FrameAssembler<T> {
    /// Samples received but not yet handed out in a frame, oldest first.
    pub closed spec fn pending(&self) -> Seq<T> {
        self.buffer@
    }

    /// Number of samples per frame.
    pub closed spec fn spec_frame_len(&self) -> nat {
        self.frame_len as nat
    }

    /// An assembler that cuts frames of `frame_len` samples, with nothing pending.
    pub fn new(frame_len: usize) -> (a: Self)
        ensures
            a.pending() == Seq::<T>::empty(),
            a.spec_frame_len() == frame_len,
    {
        let capacity = if frame_len <= usize::MAX / 2 {
            frame_len * 2
        } else {
            frame_len
        };
        FrameAssembler { buffer: VecDeque::with_capacity(capacity), frame_len }
    }

    /// Number of samples per frame.
    pub fn frame_len(&self) -> (n: usize)
        ensures
            n == self.spec_frame_len(),
    {
        self.frame_len
    }

    /// Number of samples waiting for a full frame.
    pub fn pending_len(&self) -> (n: usize)
        ensures
            n == self.pending().len(),
    {
        self.buffer.len()
    }

    /// Appends `data` to the pending samples and takes out every full frame,
    /// in order. What is left over stays pending.
    pub fn push_samples(&mut self, data: &[T]) -> (frames: Vec<Vec<T>>)
        requires
            old(self).spec_frame_len() > 0,
        ensures
            final(self).spec_frame_len() == old(self).spec_frame_len(),
            ({
                let all = old(self).pending() + data@;
                let l = old(self).spec_frame_len() as int;
                let k = all.len() as int / l;
                &&& frames@.len() == k
                &&& forall|i: int| 0 <= i < k ==> #[trigger] frames@[i]@ == chunk(all, l, i)
                &&& final(self).pending() == all.subrange(k * l, all.len() as int)
                &&& frames@.map_values(|f: Vec<T>| f@) == spec_frames_of(all, l)
                &&& final(self).pending() == spec_rest_of(all, l)
            }),
    {
        let ghost all = self.buffer@ + data@;
        let n = data.len();
        let mut j: usize = 0;
        while j < n
            invariant
                j <= n,
                n == data@.len(),
                all == old(self).pending() + data@,
                self.frame_len == old(self).frame_len,
                self.buffer@ == all.subrange(0, old(self).pending().len() + j),
            decreases n - j,
        {
            self.buffer.push_back(data[j]);
            j = j + 1;
            assert(self.buffer@ =~= all.subrange(0, old(self).pending().len() + j));
        }
        assert(self.buffer@ =~= all);

        let l = self.frame_len;
        let ghost li = l as int;
        let mut frames: Vec<Vec<T>> = Vec::new();
        let ghost mut consumed: int = 0;
        assert(frames@.len() * li == 0) by (nonlinear_arith)
            requires
                frames@.len() == 0,
        ;
        while self.buffer.len() >= l
            invariant
                l == self.frame_len,
                li == l as int,
                l > 0,
                0 <= consumed <= all.len(),
                consumed == frames@.len() * li,
                self.buffer@ == all.subrange(consumed, all.len() as int),
                forall|i: int| 0 <= i < frames@.len() ==> #[trigger] frames@[i]@ == chunk(all, li, i),
            decreases self.buffer@.len(),
        {
            let mut frame: Vec<T> = Vec::with_capacity(l);
            let mut m: usize = 0;
            while m < l
                invariant
                    m <= l,
                    l == self.frame_len,
                    consumed + l <= all.len(),
                    0 <= consumed,
                    frame@ == all.subrange(consumed, consumed + m),
                    self.buffer@ == all.subrange(consumed + m, all.len() as int),
                decreases l - m,
            {
                let s = self.buffer.pop_front();
                match s {
                    Some(x) => {
                        frame.push(x);
                    },
                    None => {},
                }
                m = m + 1;
                assert(frame@ =~= all.subrange(consumed, consumed + m));
                assert(self.buffer@ =~= all.subrange(consumed + m, all.len() as int));
            }
            proof {
                let k = frames@.len() as int;
                assert((k + 1) * li == k * li + li) by (nonlinear_arith);
                assert(consumed == k * li);
                assert(frame@ == chunk(all, li, k));
            }
            frames.push(frame);
            proof {
                consumed = consumed + li;
            }
        }
        proof {
            let k = frames@.len() as int;
            let rem = all.len() - consumed;
            assert(0 <= rem < li);
            assert(all.len() == k * li + rem);
            assert(all.len() as int / li == k) by (nonlinear_arith)
                requires
                    all.len() == k * li + rem,
                    0 <= rem < li,
                    k >= 0,
            ;
            assert(frames@.map_values(|f: Vec<T>| f@) =~= spec_frames_of(all, li));
        }
        frames
    }
}

/// Every sample that went into the assembler comes out again, in order: the
/// frames handed out, followed by what stays pending, are exactly the samples
/// that were pending before plus the new delivery.
pub proof fn lemma_frames_preserve_samples<T>(
    all: Seq<T>,
    l: int,
    frames: Seq<Seq<T>>,
    rest: Seq<T>,
)
    requires
        l > 0,
        frames.len() == all.len() as int / l,
        forall|i: int| 0 <= i < frames.len() ==> #[trigger] frames[i] == chunk(all, l, i),
        rest == all.subrange(frames.len() * l, all.len() as int),
    ensures
        flatten(frames) + rest == all,
        rest.len() < l,
        forall|i: int| 0 <= i < frames.len() ==> (#[trigger] frames[i]).len() == l,
{
    let k = frames.len() as int;
    assert(k * l <= all.len() < k * l + l) by (nonlinear_arith)
        requires
            k == all.len() as int / l,
            l > 0,
            all.len() >= 0,
    ;
    lemma_flatten_chunks(all, l, frames);
    assert(flatten(frames) + rest =~= all);
    assert forall|i: int| 0 <= i < frames.len() implies (#[trigger] frames[i]).len() == l by {
        assert((i + 1) * l <= k * l) by (nonlinear_arith)
            requires
                i + 1 <= k,
                l > 0,
        ;
        assert((i + 1) * l == i * l + l) by (nonlinear_arith);
        assert(i * l >= 0) by (nonlinear_arith)
            requires
                i >= 0,
                l > 0,
        ;
    }
}

/// Framing over a whole run of deliveries, counted from the first sample: an
/// assembler that starts empty and is given `deliveries` one after another has
/// handed out, in order, exactly the full frames of all the samples delivered
/// (frame `k` being samples `k * l .. k * l + l` in arrival order), and keeps
/// the remaining samples, fewer than one frame, pending.
pub proof fn lemma_assembly_of_run<T>(deliveries: Seq<Seq<T>>, l: int)
    requires
        l > 0,
    ensures
        spec_assemble(deliveries, l).0 == spec_frames_of(flatten(deliveries), l),
        spec_assemble(deliveries, l).1 == spec_rest_of(flatten(deliveries), l),
        spec_assemble(deliveries, l).1.len() < l,
    decreases deliveries.len(),
{
    let all = flatten(deliveries);
    if deliveries.len() == 0 {
        assert(all.len() == 0);
        assert(spec_frames_of(all, l) =~= Seq::<Seq<T>>::empty());
        assert(spec_rest_of(all, l) =~= Seq::<T>::empty());
    } else {
        let init = deliveries.drop_last();
        let d = deliveries.last();
        lemma_assembly_of_run(init, l);
        let a = flatten(init);
        assert(all == a + d);
        let q = a.len() as int / l;
        let r = a.len() - q * l;
        let p0 = spec_rest_of(a, l);
        let joined = p0 + d;
        let k2 = joined.len() as int / l;
        assert(0 <= r < l && q >= 0) by (nonlinear_arith)
            requires
                q == a.len() as int / l,
                r == a.len() - q * l,
                l > 0,
                a.len() >= 0,
        ;
        assert(joined.len() == r + d.len());
        assert(k2 >= 0 && k2 * l <= joined.len()) by (nonlinear_arith)
            requires
                k2 == joined.len() as int / l,
                l > 0,
                joined.len() >= 0,
        ;
        assert(all.len() as int / l == q + k2) by (nonlinear_arith)
            requires
                all.len() == q * l + joined.len(),
                k2 == joined.len() as int / l,
                l > 0,
                joined.len() >= 0,
        ;
        assert((q + k2) * l == q * l + k2 * l) by (nonlinear_arith);
        assert(joined =~= all.subrange(q * l, all.len() as int));
        let lhs = spec_frames_of(a, l) + spec_frames_of(joined, l);
        let rhs = spec_frames_of(all, l);
        assert(lhs.len() == rhs.len());
        assert forall|i: int| 0 <= i < rhs.len() implies lhs[i] =~= rhs[i] by {
            assert(i * l + l == (i + 1) * l) by (nonlinear_arith);
            assert(i * l >= 0) by (nonlinear_arith)
                requires
                    i >= 0,
                    l > 0,
            ;
            if i < q {
                assert((i + 1) * l <= q * l) by (nonlinear_arith)
                    requires
                        i + 1 <= q,
                        l > 0,
                ;
                assert(lhs[i] == chunk(a, l, i));
            } else {
                let j = i - q;
                assert(j * l == i * l - q * l) by (nonlinear_arith)
                    requires
                        j == i - q,
                ;
                assert((j + 1) * l <= k2 * l) by (nonlinear_arith)
                    requires
                        j + 1 <= k2,
                        l > 0,
                ;
                assert(j * l + l == (j + 1) * l) by (nonlinear_arith);
                assert(j * l >= 0) by (nonlinear_arith)
                    requires
                        j >= 0,
                        l > 0,
                ;
                assert(lhs[i] == chunk(joined, l, j));
            }
        }
        assert(lhs =~= rhs);
        assert(spec_rest_of(joined, l) =~= spec_rest_of(all, l));
        assert(spec_rest_of(all, l).len() < l) by (nonlinear_arith)
            requires
                spec_rest_of(all, l).len() == all.len() - (all.len() as int / l) * l,
                l > 0,
                all.len() >= 0,
        ;
    }
}

/// The first `frames.len()` chunks of `all`, concatenated, are its prefix of
/// length `frames.len() * l`.
proof fn lemma_flatten_chunks<T>(all: Seq<T>, l: int, frames: Seq<Seq<T>>)
    requires
        l > 0,
        frames.len() * l <= all.len(),
        forall|i: int| 0 <= i < frames.len() ==> #[trigger] frames[i] == chunk(all, l, i),
    ensures
        flatten(frames) == all.subrange(0, frames.len() * l),
    decreases frames.len(),
{
    let k = frames.len() as int;
    if k == 0 {
        assert(all.subrange(0, 0) =~= Seq::<T>::empty());
    } else {
        let init = frames.drop_last();
        assert((k - 1) * l == k * l - l) by (nonlinear_arith);
        assert(forall|i: int| 0 <= i < init.len() ==> #[trigger] init[i] == frames[i]);
        lemma_flatten_chunks(all, l, init);
        assert(frames.last() == chunk(all, l, k - 1));
        assert(flatten(frames) =~= all.subrange(0, k * l));
    }
}

} // verus!
