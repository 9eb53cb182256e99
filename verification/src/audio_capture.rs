//! Time-stamping of encoded audio frames and the per-chunk decisions of the
//! capture loop that reads raw 32-bit float little-endian PCM.
use vstd::prelude::*;
use crate::audio_frame::FRAME_MS;

verus! {

/// Interval, in milliseconds, at which a running capture checks whether
/// recording was stopped.
pub const AUDIO_POLL_MS: u64 = 100;

/// The timestamp that follows `pts`: ten milliseconds later, wrapping around
/// at the range of `i64` as an atomic counter does.
pub open spec fn spec_next_pts(pts: i64) -> i64 {
    if pts + FRAME_MS > i64::MAX {
        (pts + FRAME_MS - 0x1_0000_0000_0000_0000int) as i64
    } else {
        (pts + FRAME_MS) as i64
    }
}

/// The timestamp handed to the `n`-th encoded frame of a capture (counting
/// from zero).
pub open spec fn spec_pts_of_frame(n: nat) -> i64
    decreases n,
{
    if n == 0 {
        0
    } else {
        spec_next_pts(spec_pts_of_frame((n - 1) as nat))
    }
}

/// Presentation timestamps of the encoded audio frames of one capture, in
/// milliseconds. Only frames that were encoded get a timestamp.
pub struct AudioTimeline {
    next_pts: i64,
}

impl AudioTimeline {
    /// Timestamp that the next encoded frame will get.
    pub closed spec fn spec_next(&self) -> i64 {
        self.next_pts
    }

    /// A timeline at the start of a capture: the first frame is stamped 0.
    pub fn new() -> (t: Self)
        ensures
            t.spec_next() == 0,
    {
        AudioTimeline { next_pts: 0 }
    }

    /// Timestamp that the next encoded frame will get.
    pub fn next_pts(&self) -> (p: i64)
        ensures
            p == self.spec_next(),
    {
        self.next_pts
    }

    /// Called once the encoder has handled a frame. A frame that was encoded
    /// is written at the current timestamp, which then moves on by one frame
    /// length; a frame the encoder failed on is dropped and the timestamp
    /// stays.
    pub fn on_encoded(&mut self, encoded: bool) -> (write_at: Option<i64>)
        ensures
            encoded ==> write_at == Some(old(self).spec_next()) && final(self).spec_next()
                == spec_next_pts(old(self).spec_next()),
            !encoded ==> write_at.is_none() && final(self).spec_next() == old(self).spec_next(),
    {
        if encoded {
            let p = self.next_pts;
            self.next_pts = self.next_pts.wrapping_add(FRAME_MS);
            Some(p)
        } else {
            None
        }
    }
}

/// Audio frames are stamped back to back: the `n`-th encoded frame of a
/// capture is written at `n` frame lengths, as long as that fits in `i64`.
pub proof fn lemma_pts_of_frame(n: nat)
    requires
        n * FRAME_MS <= i64::MAX,
    ensures
        spec_pts_of_frame(n) == n * FRAME_MS,
    decreases n,
{
    if n > 0 {
        lemma_pts_of_frame((n - 1) as nat);
    }
}

/// Sample `i` of little-endian 32-bit float PCM equals zero (`+0.0` or
/// `-0.0`): every bit but the sign bit is clear.
pub open spec fn spec_sample_is_zero(pcm: Seq<u8>, i: int) -> bool {
    &&& pcm[4 * i] == 0
    &&& pcm[4 * i + 1] == 0
    &&& pcm[4 * i + 2] == 0
    &&& pcm[4 * i + 3] % 128 == 0
}

/// Every whole sample of the little-endian 32-bit float PCM equals zero.
pub open spec fn spec_is_silent(pcm: Seq<u8>) -> bool {
    forall|i: int| 0 <= i < pcm.len() / 4 ==> #[trigger] spec_sample_is_zero(pcm, i)
}

/// Whether a chunk of little-endian 32-bit float PCM is silence: every whole
/// sample in it equals zero.
pub fn is_silent(pcm: &[u8]) -> (b: bool)
    ensures
        b == spec_is_silent(pcm@),
        b <==> forall|k: int|
            0 <= k < (pcm@.len() / 4) * 4 ==> (if k % 4 == 3 {
                #[trigger] pcm@[k] % 128 == 0
            } else {
                pcm@[k] == 0
            }),
{
    proof {
        lemma_silence_bytewise(pcm@);
    }
    let n = pcm.len();
    let samples = n / 4;
    let mut i: usize = 0;
    while i < samples
        invariant
            i <= samples,
            samples == n / 4,
            n == pcm@.len(),
            forall|j: int| 0 <= j < i ==> #[trigger] spec_sample_is_zero(pcm@, j),
        decreases samples - i,
    {
        let k = 4 * i;
        if pcm[k] != 0 || pcm[k + 1] != 0 || pcm[k + 2] != 0 || pcm[k + 3] % 128 != 0 {
            assert(!spec_sample_is_zero(pcm@, i as int));
            return false;
        }
        i = i + 1;
    }
    true
}

/// Silence read byte by byte: a chunk is silent exactly when, in every whole
/// 4-byte sample, the three low bytes are zero and the high byte holds at most
/// the sign bit. A single nonzero sample anywhere makes the chunk not silent.
pub proof fn lemma_silence_bytewise(pcm: Seq<u8>)
    ensures
        spec_is_silent(pcm) <==> forall|k: int|
            0 <= k < (pcm.len() / 4) * 4 ==> (if k % 4 == 3 {
                #[trigger] pcm[k] % 128 == 0
            } else {
                pcm[k] == 0
            }),
{
    let n = pcm.len() / 4;
    if spec_is_silent(pcm) {
        assert forall|k: int| 0 <= k < n * 4 implies (if k % 4 == 3 {
            #[trigger] pcm[k] % 128 == 0
        } else {
            pcm[k] == 0
        }) by {
            let i = k / 4;
            assert(0 <= i < n);
            assert(spec_sample_is_zero(pcm, i));
            assert(k == 4 * i + k % 4);
        }
    }
    if forall|k: int|
        0 <= k < n * 4 ==> (if k % 4 == 3 {
            #[trigger] pcm[k] % 128 == 0
        } else {
            pcm[k] == 0
        }) {
        assert forall|i: int| 0 <= i < n implies #[trigger] spec_sample_is_zero(pcm, i) by {
            assert(pcm[4 * i] == 0);
            assert(pcm[4 * i + 1] == 0);
            assert(pcm[4 * i + 2] == 0);
            assert(pcm[4 * i + 3] % 128 == 0);
        }
    }
}

/// Silence of joined chunks: two chunks of whole samples, read one after the
/// other, are silent together exactly when each of them is silent. Sound in
/// either part, first or second, makes the whole not silent.
pub proof fn lemma_silence_of_concat(a: Seq<u8>, b: Seq<u8>)
    requires
        a.len() % 4 == 0,
    ensures
        spec_is_silent(a + b) <==> spec_is_silent(a) && spec_is_silent(b),
{
    let ab = a + b;
    let na = a.len() / 4;
    let nb = b.len() / 4;
    assert(ab.len() / 4 == na + nb);
    assert forall|i: int| 0 <= i < na implies #[trigger] spec_sample_is_zero(ab, i)
        == spec_sample_is_zero(a, i) by {
        assert(ab[4 * i] == a[4 * i]);
        assert(ab[4 * i + 1] == a[4 * i + 1]);
        assert(ab[4 * i + 2] == a[4 * i + 2]);
        assert(ab[4 * i + 3] == a[4 * i + 3]);
    }
    assert forall|j: int| 0 <= j < nb implies #[trigger] spec_sample_is_zero(b, j)
        == spec_sample_is_zero(ab, j + na) by {
        assert(4 * (j + na) == a.len() + 4 * j);
        assert(ab[4 * (j + na)] == b[4 * j]);
        assert(ab[4 * (j + na) + 1] == b[4 * j + 1]);
        assert(ab[4 * (j + na) + 2] == b[4 * j + 2]);
        assert(ab[4 * (j + na) + 3] == b[4 * j + 3]);
    }
    if spec_is_silent(ab) {
        assert forall|j: int| 0 <= j < nb implies #[trigger] spec_sample_is_zero(b, j) by {
            assert(spec_sample_is_zero(ab, j + na));
        }
        assert forall|i: int| 0 <= i < na implies #[trigger] spec_sample_is_zero(a, i) by {
            assert(spec_sample_is_zero(ab, i));
        }
    }
    if spec_is_silent(a) && spec_is_silent(b) {
        assert forall|i: int| 0 <= i < na + nb implies #[trigger] spec_sample_is_zero(ab, i) by {
            if i < na {
                assert(spec_sample_is_zero(a, i));
            } else {
                assert(spec_sample_is_zero(b, i - na));
            }
        }
    }
}

/// What the capture loop does with one read from the sound server.
#[derive(Clone, Copy, PartialEq, Eq, Debug)]
pub enum ChunkAction {
    /// The read failed: read again.
    Retry,
    /// The chunk is silence: drop it without encoding.
    SkipSilence,
    /// Encode the chunk.
    Encode,
}

/// The action for one read: a failed read is retried, a silent chunk is
/// dropped, anything else is encoded.
pub fn classify_chunk(read_ok: bool, pcm: &[u8]) -> (a: ChunkAction)
    ensures
        !read_ok ==> a == ChunkAction::Retry,
        read_ok && spec_is_silent(pcm@) ==> a == ChunkAction::SkipSilence,
        read_ok && !spec_is_silent(pcm@) ==> a == ChunkAction::Encode,
{
    if !read_ok {
        ChunkAction::Retry
    } else if is_silent(pcm) {
        ChunkAction::SkipSilence
    } else {
        ChunkAction::Encode
    }
}

/// Whether audio can be captured from the sound server's monitor source with
/// the given name: an empty name means there is none, and recording goes on
/// with video only.
pub fn monitor_available(device: &str) -> (b: bool)
    ensures
        b == (device@.len() > 0),
{
    !device.is_empty()
}

} // verus!
