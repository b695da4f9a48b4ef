//! The ring buffer between a streaming source's I/O thread and its reader.
//!
//! The ring holds `cap` frames of `ch` interleaved samples, each sample
//! stored as the bit pattern of a single-precision float. Frames are
//! addressed by a cumulative source-frame index; frame `f` lives in ring
//! frame `f % cap`. The writer position (`write_frame`) and the reader
//! position (`read_frame`) only grow.

use vstd::prelude::*;

use crate::streaming::{decode_policy, encode_policy, policy_code, policy_to_u64, u64_to_policy, StreamingPolicy};

verus! {

/// Capacity, in frames, of the ring of a source that is not cached in full.
pub const DEFAULT_RING_CAPACITY_FRAMES: usize = 40960;

/// Frames the I/O thread moves per disk read.
pub const IO_CHUNK_FRAMES: usize = 4096;

/// Re-reads within this many microseconds promote an `Auto` source to cached.
pub const HEURISTIC_WINDOW_MICROS: u64 = 10_000_000;

/// Ring capacity in frames for a source of `total_frames` frames (`u64::MAX`
/// when the length is unknown) under `policy`: a `Common` source of known
/// length is sized to hold the whole file, every other source streams
/// through the default window.
pub open spec fn ring_capacity(policy: StreamingPolicy, total_frames: u64) -> int {
    if policy == StreamingPolicy::Common && total_frames != u64::MAX {
        total_frames as int
    } else {
        DEFAULT_RING_CAPACITY_FRAMES as int
    }
}

/// `d` with the `ch` samples at `base` overwritten by `src[from ..]`.
pub open spec fn frame_written(d: Seq<u32>, base: int, ch: int, src: Seq<u32>, from: int) -> Seq<u32> {
    Seq::new(d.len(), |k: int| if base <= k < base + ch { src[from + k - base] } else { d[k] })
}

/// Ring contents after writing the first `n` frames of `frames`, one after
/// the other, starting at cumulative frame `start`.
pub open spec fn ring_after_frames(data: Seq<u32>, cap: int, ch: int, start: int, frames: Seq<u32>, n: nat) -> Seq<u32>
    decreases n,
{
    if n == 0 {
        data
    } else {
        frame_written(
            ring_after_frames(data, cap, ch, start, frames, (n - 1) as nat),
            ((start + n - 1) % cap) * ch,
            ch,
            frames,
            (n - 1) * ch,
        )
    }
}

/// A ring that streams a `Once` source and holds no whole-file cache. No
/// operation of [`RingBuf`] ever caches such a ring: every pass of a `Once`
/// source is read again from the source.
pub open spec fn streamed_only(v: RingView) -> bool {
    decode_policy(v.policy).0 == StreamingPolicy::Once && !v.cached
}

/// Whether frame `frame` is readable with the writer at `write_frame`: at
/// most one I/O chunk ahead of the writer (the end-of-file transient), and
/// not so far behind that the ring has overwritten it.
pub open spec fn frame_readable(frame: u64, write_frame: u64, cap: int) -> bool {
    if frame >= write_frame {
        frame - write_frame <= IO_CHUNK_FRAMES
    } else {
        write_frame - frame <= cap
    }
}

/// Position of sample `c` of ring frame `slot`.
proof fn lemma_sample_in_ring(slot: int, cap: int, ch: int, c: int)
    by (nonlinear_arith)
    requires
        0 <= slot < cap,
        0 <= c < ch,
    ensures
        0 <= slot * ch,
        slot * ch + c < cap * ch,
        slot * ch + ch <= cap * ch,
{
}

/// Sample `c` of frame `i` of an interleaved block of `n = len / ch` frames.
proof fn lemma_sample_in_block(i: int, n: int, ch: int, c: int, len: int)
    by (nonlinear_arith)
    requires
        ch > 0,
        0 <= i < n,
        0 <= c < ch,
        n * ch <= len,
    ensures
        0 <= i * ch,
        i * ch + c < len,
{
}

/// Whole frames in an interleaved block cover at most the block.
proof fn lemma_whole_frames(len: int, ch: int)
    by (nonlinear_arith)
    requires
        ch > 0,
        len >= 0,
    ensures
        (len / ch) * ch <= len,
        len / ch >= 0,
{
}

/// Sample `c` of frame `i` sits at position `i * ch + c` of an interleaved block.
proof fn lemma_frame_position(i: int, ch: int, c: int)
    requires
        ch > 0,
        i >= 0,
        0 <= c < ch,
    ensures
        (i * ch + c) / ch == i,
        (i * ch + c) % ch == c,
{
    vstd::arithmetic::div_mod::lemma_fundamental_div_mod_converse(i * ch + c, ch, i, c);
}

/// Storage of the ring: `cap` frames of interleaved sample bits.
pub struct RingData {
    data: Vec<u32>,
    cap: usize,
}

impl RingData {
    /// The stored sample bits.
    pub closed spec fn samples(&self) -> Seq<u32> {
        self.data@
    }

    /// Capacity in frames.
    pub closed spec fn capacity(&self) -> nat {
        self.cap as nat
    }

    /// Capacity in frames.
    pub fn cap(&self) -> (r: usize)
        ensures
            r == self.capacity(),
    {
        self.cap
    }

    /// Number of stored samples (`cap × channels`).
    pub fn len(&self) -> (r: usize)
        ensures
            r == self.samples().len(),
    {
        self.data.len()
    }

    /// The sample bits at position `idx`.
    pub fn sample(&self, idx: usize) -> (r: u32)
        requires
            idx < self.samples().len(),
        ensures
            r == self.samples()[idx as int],
    {
        self.data[idx]
    }
}

/// Abstract state of a [`RingBuf`].
#[verifier::ext_equal]
pub struct RingView {
    /// Stored sample bits, `cap × ch` of them.
    pub data: Seq<u32>,
    /// Capacity in frames.
    pub cap: nat,
    /// Interleaved channels per frame.
    pub ch: nat,
    /// Cumulative frame up to which the writer has filled the ring.
    pub write_frame: u64,
    /// Cumulative frame the reader has consumed up to.
    pub read_frame: u64,
    /// Pending seek target plus one (zero when none is pending).
    pub seek_to: u64,
    /// Length of the source in frames (`u64::MAX` when unknown).
    pub total_frames: u64,
    /// Packed policy word (see [`encode_policy`]).
    pub policy: u64,
    /// Number of times the writer reached the end of the source.
    pub wrap_count: u64,
    /// Set when the reader is gone and the writer must stop.
    pub stop: bool,
    /// Cumulative frames the writer has read from the source.
    pub total_read: u64,
    /// True once the whole file is resident and served from memory.
    pub cached: bool,
}

/// Ring buffer shared by a streaming source's I/O thread and its reader.
pub struct RingBuf {
    storage: RingData,
    ch: usize,
    write_frame: u64,
    read_frame: u64,
    seek_to: u64,
    total_frames: u64,
    policy: u64,
    wrap_count: u64,
    stop: bool,
    total_read: u64,
    cached: bool,
}

impl View for RingBuf {
    type V = RingView;

    closed spec fn view(&self) -> RingView {
        RingView {
            data: self.storage.data@,
            cap: self.storage.cap as nat,
            ch: self.ch as nat,
            write_frame: self.write_frame,
            read_frame: self.read_frame,
            seek_to: self.seek_to,
            total_frames: self.total_frames,
            policy: self.policy,
            wrap_count: self.wrap_count,
            stop: self.stop,
            total_read: self.total_read,
            cached: self.cached,
        }
    }
}

impl RingBuf {
    /// The storage holds exactly `cap × ch` samples.
    pub closed spec fn wf(&self) -> bool {
        self.storage.data@.len() == self.storage.cap * self.ch
    }

    /// A well-formed ring stores exactly `cap × ch` samples.
    pub proof fn lemma_storage_size(&self)
        requires
            self.wf(),
        ensures
            self@.data.len() == self@.cap * self@.ch,
    {
    }

    /// Create the ring for a source with `ch` channels and `total_frames`
    /// frames (`u64::MAX` when unknown) under `policy`. The ring is zeroed,
    /// both positions start at frame zero and nothing is cached or promoted.
    pub fn new(ch: usize, total_frames: u64, policy: StreamingPolicy) -> (r: Self)
        requires
            ring_capacity(policy, total_frames) * ch <= usize::MAX,
            ring_capacity(policy, total_frames) <= usize::MAX,
        ensures
            r.wf(),
            r@.cap == ring_capacity(policy, total_frames),
            r@.ch == ch,
            r@.data == Seq::new(r@.cap * r@.ch, |i: int| 0u32),
            r@.write_frame == 0 && r@.read_frame == 0 && r@.seek_to == 0,
            r@.total_frames == total_frames,
            r@.policy == encode_policy(policy, false),
            r@.wrap_count == 0 && !r@.stop && r@.total_read == 0 && !r@.cached,
            policy == StreamingPolicy::Once ==> streamed_only(r@),
    {
        let cap: usize = if policy == StreamingPolicy::Common && total_frames != u64::MAX {
            total_frames as usize
        } else {
            DEFAULT_RING_CAPACITY_FRAMES
        };
        let len = cap * ch;
        let mut data: Vec<u32> = Vec::new();
        let mut i: usize = 0;
        while i < len
            invariant
                i <= len,
                data@.len() == i,
                forall|j: int| 0 <= j < i ==> #[trigger] data@[j] == 0u32,
            decreases len - i,
        {
            data.push(0);
            i += 1;
        }
        let r = RingBuf {
            storage: RingData { data, cap },
            ch,
            write_frame: 0,
            read_frame: 0,
            seek_to: 0,
            total_frames,
            policy: policy_to_u64(policy, false),
            wrap_count: 0,
            stop: false,
            total_read: 0,
            cached: false,
        };
        assert(r@.data =~= Seq::new(r@.cap * r@.ch, |i: int| 0u32));
        r
    }

    /// [`Self::new`] when the ring's size in frames and in samples fits in
    /// `usize`; `None` when it does not.
    pub fn try_new(ch: usize, total_frames: u64, policy: StreamingPolicy) -> (r: Option<Self>)
        ensures
            r is Some <==> (ring_capacity(policy, total_frames) <= usize::MAX && ring_capacity(policy, total_frames)
                * ch <= usize::MAX),
            r matches Some(b) ==> {
                &&& b.wf()
                &&& b@.cap == ring_capacity(policy, total_frames)
                &&& b@.ch == ch
                &&& b@.data == Seq::new(b@.cap * b@.ch, |i: int| 0u32)
                &&& b@.write_frame == 0 && b@.read_frame == 0 && b@.seek_to == 0
                &&& b@.total_frames == total_frames
                &&& b@.policy == encode_policy(policy, false)
                &&& b@.wrap_count == 0 && !b@.stop && b@.total_read == 0 && !b@.cached
                &&& policy == StreamingPolicy::Once ==> streamed_only(b@)
            },
    {
        let frames: u64 = if policy == StreamingPolicy::Common && total_frames != u64::MAX {
            total_frames
        } else {
            DEFAULT_RING_CAPACITY_FRAMES as u64
        };
        if frames > usize::MAX as u64 {
            return None;
        }
        let cap = frames as usize;
        match cap.checked_mul(ch) {
            Some(_) => Some(Self::new(ch, total_frames, policy)),
            None => None,
        }
    }

    /// The current storage. The ring is owned by its caller, so the storage
    /// can always be handed out.
    pub fn snapshot(&self) -> (r: &RingData)
        ensures
            r.samples() == self@.data,
            r.capacity() == self@.cap,
    {
        &self.storage
    }

    /// Non-blocking form of [`Self::snapshot`]; never fails for an owned ring.
    pub fn try_snapshot(&self) -> (r: Option<&RingData>)
        ensures
            r matches Some(d) && d.samples() == self@.data && d.capacity() == self@.cap,
    {
        Some(&self.storage)
    }

    /// Capacity in frames.
    pub fn cap(&self) -> (r: usize)
        ensures
            r == self@.cap,
    {
        self.storage.cap
    }

    /// Interleaved channels per frame.
    pub fn channels(&self) -> (r: usize)
        ensures
            r == self@.ch,
    {
        self.ch
    }

    /// Status snapshot: `(write_frame, read_frame, total_frames, cap,
    /// wrap_count, policy number, promoted)`, the policy numbered
    /// `Common` 0, `Once` 1, `Auto` 2.
    pub fn status(&self) -> (r: (u64, u64, u64, usize, u64, u64, bool))
        ensures
            r.0 == self@.write_frame,
            r.1 == self@.read_frame,
            r.2 == self@.total_frames,
            r.3 == self@.cap,
            r.4 == self@.wrap_count,
            r.5 == policy_code(decode_policy(self@.policy).0),
            r.6 == decode_policy(self@.policy).1,
    {
        let (policy, promoted) = u64_to_policy(self.policy);
        let code: u64 = match policy {
            StreamingPolicy::Common => 0,
            StreamingPolicy::Once => 1,
            StreamingPolicy::Auto => 2,
        };
        (self.write_frame, self.read_frame, self.total_frames, self.storage.cap, self.wrap_count, code, promoted)
    }

    /// Write the whole frames of the interleaved block `frames` at cumulative
    /// frame `src_frame`, one after the other, each into ring frame
    /// `frame % cap`. Samples past the last whole frame are ignored.
    pub fn write(&mut self, src_frame: u64, frames: &[u32])
        requires
            old(self).wf(),
            old(self)@.ch > 0,
            old(self)@.cap > 0,
            src_frame + (frames@.len() as int) / (old(self)@.ch as int) <= u64::MAX,
        ensures
            final(self).wf(),
            streamed_only(old(self)@) ==> streamed_only(final(self)@),
            final(self)@ == (RingView {
                data: ring_after_frames(
                    old(self)@.data,
                    old(self)@.cap as int,
                    old(self)@.ch as int,
                    src_frame as int,
                    frames@,
                    ((frames@.len() as int) / (old(self)@.ch as int)) as nat,
                ),
                ..old(self)@
            }),
    {
        let ch = self.ch;
        let cap = self.storage.cap;
        let flen = frames.len();
        let n = flen / ch;
        let total = self.storage.data.len();
        proof {
            lemma_whole_frames(frames@.len() as int, ch as int);
        }
        let ghost start = self@;
        let mut i: usize = 0;
        while i < n
            invariant
                ch == start.ch,
                cap == start.cap,
                ch > 0,
                cap > 0,
                n == (frames@.len() as int) / (ch as int),
                n * ch <= frames@.len(),
                frames@.len() == flen,
                cap * ch == total,
                src_frame + n <= u64::MAX,
                i <= n,
                self.ch == ch,
                self.storage.cap == cap,
                self.storage.data@ == ring_after_frames(start.data, cap as int, ch as int, src_frame as int, frames@, i as nat),
                self.storage.data@.len() == cap * ch,
                self@ == (RingView { data: self.storage.data@, ..start }),
            decreases n - i,
        {
            let ghost before = self.storage.data@;
            let slot = ((src_frame + i as u64) % (cap as u64)) as usize;
            proof {
                lemma_sample_in_ring(slot as int, cap as int, ch as int, 0);
            }
            let base = slot * ch;
            let mut c: usize = 0;
            while c < ch
                invariant
                    ch > 0,
                    c <= ch,
                    i < n,
                    n * ch <= frames@.len(),
                    frames@.len() == flen,
                    cap * ch == total,
                    base + ch <= cap * ch,
                    self.ch == ch,
                    self.storage.cap == cap,
                    self.storage.data@.len() == cap * ch,
                    self.storage.data@ == Seq::new(
                        before.len(),
                        |k: int| if base <= k < base + c { frames@[i * ch + k - base] } else { before[k] },
                    ),
                    self@ == (RingView { data: self.storage.data@, ..start }),
                decreases ch - c,
            {
                proof {
                    lemma_sample_in_block(i as int, n as int, ch as int, c as int, frames@.len() as int);
                }
                let v = frames[i * ch + c];
                self.storage.data.set(base + c, v);
                c += 1;
                assert(self.storage.data@ =~= Seq::new(
                    before.len(),
                    |k: int| if base <= k < base + c { frames@[i * ch + k - base] } else { before[k] },
                ));
            }
            assert(self.storage.data@ =~= frame_written(before, base as int, ch as int, frames@, i * ch));
            i += 1;
        }
    }

    /// The sample bits of `channel` of cumulative frame `frame`, or zero bits
    /// (a silent sample) when the frame is not readable: more than one I/O
    /// chunk ahead of the writer, or already overwritten.
    pub fn sample_at(&self, frame: u64, channel: usize) -> (r: u32)
        requires
            self.wf(),
            self@.cap > 0,
            channel < self@.ch,
        ensures
            r == if frame_readable(frame, self@.write_frame, self@.cap as int) {
                self@.data[((frame as int) % (self@.cap as int)) * (self@.ch as int) + channel]
            } else {
                0u32
            },
            frame < self@.write_frame && self@.write_frame - frame <= self@.cap ==> r == self@.data[((frame as int)
                % (self@.cap as int)) * (self@.ch as int) + channel],
            frame >= self@.write_frame && frame - self@.write_frame <= IO_CHUNK_FRAMES ==> r == self@.data[((
            frame as int) % (self@.cap as int)) * (self@.ch as int) + channel],
    {
        let wf = self.write_frame;
        let cap = self.storage.cap;
        if frame >= wf {
            if frame - wf > IO_CHUNK_FRAMES as u64 {
                return 0;
            }
        } else {
            if wf - frame > cap as u64 {
                return 0;
            }
        }
        let total = self.storage.data.len();
        let slot = (frame % (cap as u64)) as usize;
        proof {
            lemma_sample_in_ring(slot as int, cap as int, self.ch as int, channel as int);
        }
        self.storage.data[slot * self.ch + channel]
    }

    /// Copy the readable frames starting at cumulative frame `from_frame`
    /// into `out`: as many whole frames as `out` holds, but none at or past
    /// the writer. Returns the number of frames copied; the rest of `out`
    /// is left as it was.
    pub fn copy_out(&self, from_frame: u64, out: &mut Vec<u32>) -> (count: usize)
        requires
            self.wf(),
            self@.cap > 0,
            self@.ch > 0,
        ensures
            count == vstd::math::min(
                (old(out)@.len() as int) / (self@.ch as int),
                if self@.write_frame >= from_frame { self@.write_frame - from_frame } else { 0 },
            ),
            final(out)@.len() == old(out)@.len(),
            forall|k: int| 0 <= k < final(out)@.len() ==> #[trigger] final(out)@[k] == if k < count * self@.ch {
                self@.data[((from_frame + k / (self@.ch as int)) % (self@.cap as int)) * (self@.ch as int) + k % (self@.ch as int)]
            } else {
                old(out)@[k]
            },
    {
        let ch = self.ch;
        let cap = self.storage.cap;
        let olen = out.len();
        let total = self.storage.data.len();
        let requested = olen / ch;
        let available: u64 = self.write_frame.saturating_sub(from_frame);
        let count: usize = if (requested as u64) < available { requested } else { available as usize };
        proof {
            lemma_whole_frames(olen as int, ch as int);
        }
        let ghost start = out@;
        let ghost data = self@.data;
        let mut i: usize = 0;
        while i < count
            invariant
                ch == self@.ch,
                cap == self@.cap,
                data == self@.data,
                ch > 0,
                cap > 0,
                cap * ch == total,
                self@.data.len() == total,
                count <= requested,
                requested == (olen as int) / (ch as int),
                requested * ch <= olen,
                from_frame + count <= u64::MAX,
                out@.len() == olen,
                start.len() == olen,
                i <= count,
                forall|k: int| 0 <= k < olen ==> #[trigger] out@[k] == if k < i * ch {
                    data[((from_frame + k / (ch as int)) % (cap as int)) * (ch as int) + k % (ch as int)]
                } else {
                    start[k]
                },
            decreases count - i,
        {
            let slot = ((from_frame + i as u64) % (cap as u64)) as usize;
            proof {
                lemma_sample_in_ring(slot as int, cap as int, ch as int, 0);
            }
            let base = slot * ch;
            let mut c: usize = 0;
            while c < ch
                invariant
                    ch == self@.ch,
                    cap == self@.cap,
                    data == self@.data,
                    ch > 0,
                    c <= ch,
                    i < count,
                    count <= requested,
                    requested * ch <= olen,
                    base + ch <= cap * ch,
                    cap * ch == total,
                    self@.data.len() == total,
                    base == ((from_frame + i) % (cap as int)) * (ch as int),
                    out@.len() == olen,
                    start.len() == olen,
                    forall|k: int| 0 <= k < olen ==> #[trigger] out@[k] == if k < i * ch + c {
                        data[((from_frame + k / (ch as int)) % (cap as int)) * (ch as int) + k % (ch as int)]
                    } else {
                        start[k]
                    },
                decreases ch - c,
            {
                proof {
                    lemma_sample_in_block(i as int, requested as int, ch as int, c as int, olen as int);
                    lemma_frame_position(i as int, ch as int, c as int);
                }
                let v = self.storage.data[base + c];
                out.set(i * ch + c, v);
                c += 1;
            }
            assert((i + 1) * ch == i * ch + ch) by (nonlinear_arith);
            i += 1;
        }
        count
    }

    /// Move the reader's position (after it consumed frames).
    pub fn set_read_frame(&mut self, frame: u64)
        ensures
            final(self)@ == (RingView { read_frame: frame, ..old(self)@ }),
            streamed_only(old(self)@) ==> streamed_only(final(self)@),
            final(self).wf() == old(self).wf(),
    {
        self.read_frame = frame;
    }

    /// The writer's position.
    pub fn write_frame(&self) -> (r: u64)
        ensures
            r == self@.write_frame,
    {
        self.write_frame
    }

    /// The reader's position.
    pub fn read_frame(&self) -> (r: u64)
        ensures
            r == self@.read_frame,
    {
        self.read_frame
    }

    /// Length of the source in frames (`u64::MAX` when unknown).
    pub fn total_frames(&self) -> (r: u64)
        ensures
            r == self@.total_frames,
    {
        self.total_frames
    }

    /// The current policy and promotion flag.
    pub fn policy(&self) -> (r: (StreamingPolicy, bool))
        ensures
            r == decode_policy(self@.policy),
    {
        u64_to_policy(self.policy)
    }

    /// True once the whole file is resident and served from memory.
    pub fn is_cached(&self) -> (r: bool)
        ensures
            r == self@.cached,
    {
        self.cached
    }

    /// Ask the writer to stop (the reader is gone).
    pub fn request_stop(&mut self)
        ensures
            final(self)@ == (RingView { stop: true, ..old(self)@ }),
            streamed_only(old(self)@) ==> streamed_only(final(self)@),
            final(self).wf() == old(self).wf(),
    {
        self.stop = true;
    }

    /// Whether the writer has been asked to stop.
    pub fn should_stop(&self) -> (r: bool)
        ensures
            r == self@.stop,
    {
        self.stop
    }

    // ── I/O thread decisions ─────────────────────────────────────────

    /// Take the pending seek request, if any: the stored word is the target
    /// frame plus one, zero meaning none. The request is cleared.
    pub fn take_pending_seek(&mut self) -> (r: Option<u64>)
        ensures
            r == if old(self)@.seek_to > 0 { Some((old(self)@.seek_to - 1) as u64) } else { None::<u64> },
            final(self)@ == (RingView { seek_to: 0, ..old(self)@ }),
            streamed_only(old(self)@) ==> streamed_only(final(self)@),
            final(self).wf() == old(self).wf(),
    {
        let seek = self.seek_to;
        self.seek_to = 0;
        if seek > 0 {
            Some(seek - 1)
        } else {
            None
        }
    }

    /// Apply a seek to cumulative frame `target` at time `now_micros`: the
    /// writer restarts there. A cached source needs nothing more. Otherwise
    /// the source must be sought; for an `Auto` source that moved backwards,
    /// a second rewind within the heuristic window also caches the source,
    /// and a rewind outside the window restarts the window.
    pub fn apply_seek(&mut self, heuristic: &mut StreamHeuristic, target: u64, now_micros: u64) -> (r: SeekOutcome)
        ensures
            final(self)@ == (RingView { write_frame: target, total_read: target, ..old(self)@ }),
            final(self).wf() == old(self).wf(),
            streamed_only(old(self)@) ==> r == SeekOutcome::SeekSource && streamed_only(final(self)@),
            final(heuristic).first_wrap_micros == old(heuristic).first_wrap_micros,
            old(self)@.cached ==> r == SeekOutcome::ServedFromMemory && *final(heuristic) == *old(heuristic),
            !old(self)@.cached && !(decode_policy(old(self)@.policy).0 == StreamingPolicy::Auto && target < old(self)@.write_frame)
                ==> r == SeekOutcome::SeekSource && *final(heuristic) == *old(heuristic),
            !old(self)@.cached && decode_policy(old(self)@.policy).0 == StreamingPolicy::Auto && target < old(self)@.write_frame
                ==> match old(heuristic).first_rewind_micros {
                    Some(t0) => if within_window(t0, now_micros) {
                        r == SeekOutcome::SeekSourceThenCache && *final(heuristic) == *old(heuristic)
                    } else {
                        r == SeekOutcome::SeekSource && final(heuristic).first_rewind_micros == Some(now_micros)
                    },
                    None => r == SeekOutcome::SeekSource && final(heuristic).first_rewind_micros == Some(now_micros),
                },
    {
        let prev_wf = self.write_frame;
        self.write_frame = target;
        self.total_read = target;
        if self.cached {
            return SeekOutcome::ServedFromMemory;
        }
        let (policy, _) = u64_to_policy(self.policy);
        if policy == StreamingPolicy::Auto && target < prev_wf {
            match heuristic.first_rewind_micros {
                Some(t0) => {
                    if now_micros.saturating_sub(t0) < HEURISTIC_WINDOW_MICROS {
                        SeekOutcome::SeekSourceThenCache
                    } else {
                        heuristic.first_rewind_micros = Some(now_micros);
                        SeekOutcome::SeekSource
                    }
                },
                None => {
                    heuristic.first_rewind_micros = Some(now_micros);
                    SeekOutcome::SeekSource
                },
            }
        } else {
            SeekOutcome::SeekSource
        }
    }

    /// React to the source reaching its end at time `now_micros`.
    ///
    /// - `Common` of known length: the first pass filled a whole-file ring,
    ///   so the source is now resident; the writer jumps one pass ahead of
    ///   the reader and the ring is marked cached.
    /// - `Once`, or a source of unknown length: loop from the start on disk.
    /// - `Auto`, already promoted, known length: cache the whole source.
    /// - `Auto`, not promoted: a second end-of-file within the heuristic
    ///   window promotes the source (the next end-of-file caches it);
    ///   otherwise the window restarts and the source loops from disk.
    ///
    /// Every end-of-file counts one wrap.
    pub fn on_eof(&mut self, heuristic: &mut StreamHeuristic, now_micros: u64) -> (r: EofOutcome)
        ensures
            final(self).wf() == old(self).wf(),
            streamed_only(old(self)@) ==> r == EofOutcome::SeekToStart && streamed_only(final(self)@),
            final(heuristic).first_rewind_micros == old(heuristic).first_rewind_micros,
            ({
                let v = old(self)@;
                let (p, promoted) = decode_policy(v.policy);
                let known = v.total_frames != u64::MAX;
                let wrapped = RingView { wrap_count: v.wrap_count.wrapping_add(1), ..v };
                if p == StreamingPolicy::Common && known {
                    &&& r == EofOutcome::NowCached
                    &&& final(self)@ == (RingView {
                        write_frame: v.read_frame.wrapping_add(v.total_frames),
                        cached: true,
                        ..wrapped
                    })
                    &&& *final(heuristic) == *old(heuristic)
                } else if p == StreamingPolicy::Auto && promoted && known {
                    &&& r == EofOutcome::CacheWholeSource
                    &&& final(self)@ == wrapped
                    &&& *final(heuristic) == *old(heuristic)
                } else if p == StreamingPolicy::Auto && !promoted && (old(heuristic).first_wrap_micros matches Some(t0)
                    && within_window(t0, now_micros)) {
                    &&& r == EofOutcome::Promoted
                    &&& final(self)@ == (RingView { policy: encode_policy(StreamingPolicy::Auto, true), ..wrapped })
                    &&& *final(heuristic) == *old(heuristic)
                } else if p == StreamingPolicy::Auto && !promoted {
                    &&& r == EofOutcome::SeekToStart
                    &&& final(self)@ == wrapped
                    &&& final(heuristic).first_wrap_micros == Some(now_micros)
                } else {
                    &&& r == EofOutcome::SeekToStart
                    &&& final(self)@ == wrapped
                    &&& *final(heuristic) == *old(heuristic)
                }
            }),
    {
        self.wrap_count = self.wrap_count.wrapping_add(1);
        let (policy, promoted) = u64_to_policy(self.policy);
        let known = self.total_frames != u64::MAX;
        match policy {
            StreamingPolicy::Common => {
                if known {
                    self.write_frame = self.read_frame.wrapping_add(self.total_frames);
                    self.cached = true;
                    EofOutcome::NowCached
                } else {
                    EofOutcome::SeekToStart
                }
            },
            StreamingPolicy::Once => EofOutcome::SeekToStart,
            StreamingPolicy::Auto => {
                if promoted {
                    if known {
                        EofOutcome::CacheWholeSource
                    } else {
                        EofOutcome::SeekToStart
                    }
                } else {
                    if let Some(t0) = heuristic.first_wrap_micros {
                        if now_micros.saturating_sub(t0) < HEURISTIC_WINDOW_MICROS {
                            self.policy = policy_to_u64(StreamingPolicy::Auto, true);
                            return EofOutcome::Promoted;
                        }
                    }
                    heuristic.first_wrap_micros = Some(now_micros);
                    EofOutcome::SeekToStart
                }
            },
        }
    }

    /// In cached mode, keep the writer a full pass ahead of the reader: when
    /// fewer than one I/O chunk of frames separate them (or the writer is
    /// behind), the writer jumps to one full pass past the reader. The data
    /// at `frame % total` never changes between passes, so nothing is read.
    pub fn keep_cached_ahead(&mut self)
        ensures
            final(self).wf() == old(self).wf(),
            streamed_only(old(self)@) ==> streamed_only(final(self)@),
            ({
                let v = old(self)@;
                let margin: int = if v.write_frame >= v.read_frame { v.write_frame - v.read_frame } else { 0 };
                if v.cached && margin < IO_CHUNK_FRAMES && v.total_frames != u64::MAX {
                    final(self)@ == (RingView { write_frame: v.read_frame.wrapping_add(v.total_frames), ..v })
                } else {
                    final(self)@ == v
                }
            }),
    {
        if !self.cached {
            return;
        }
        let rf = self.read_frame;
        let wf = self.write_frame;
        let margin: u64 = match wf.checked_sub(rf) {
            Some(m) => m,
            None => 0,
        };
        if margin < IO_CHUNK_FRAMES as u64 && self.total_frames != u64::MAX {
            self.write_frame = rf.wrapping_add(self.total_frames);
        }
    }

    /// Frames the writer may read from disk now in streamed mode: the free
    /// room in the ring, at most one I/O chunk. Zero means the ring is full.
    pub fn chunk_request(&self) -> (r: usize)
        ensures
            ({
                let v = self@;
                let buffered: int = if v.write_frame >= v.read_frame { v.write_frame - v.read_frame } else { 0 };
                let room: int = if buffered >= v.cap { 0 } else { v.cap - buffered };
                r == vstd::math::min(room, IO_CHUNK_FRAMES as int)
            }),
    {
        let wf = self.write_frame;
        let rf = self.read_frame;
        let buffered: u64 = match wf.checked_sub(rf) {
            Some(b) => b,
            None => 0,
        };
        let cap = self.storage.cap;
        let room: usize = if buffered >= cap as u64 { 0 } else { cap - buffered as usize };
        if room < IO_CHUNK_FRAMES {
            room
        } else {
            IO_CHUNK_FRAMES
        }
    }

    /// Store a chunk just read from disk at the writer's position and advance
    /// the writer (and the count of frames read) past it.
    pub fn commit_chunk(&mut self, frames: &[u32])
        requires
            old(self).wf(),
            old(self)@.ch > 0,
            old(self)@.cap > 0,
            old(self)@.write_frame + (frames@.len() as int) / (old(self)@.ch as int) <= u64::MAX,
        ensures
            final(self).wf(),
            streamed_only(old(self)@) ==> streamed_only(final(self)@),
            ({
                let v = old(self)@;
                let n = (frames@.len() as int) / (v.ch as int);
                final(self)@ == (RingView {
                    data: ring_after_frames(v.data, v.cap as int, v.ch as int, v.write_frame as int, frames@, n as nat),
                    write_frame: (v.write_frame + n) as u64,
                    total_read: v.total_read.wrapping_add(n as u64),
                    ..v
                })
            }),
    {
        let n = frames.len() / self.ch;
        let wf = self.write_frame;
        self.write(wf, frames);
        self.write_frame = wf + n as u64;
        self.total_read = self.total_read.wrapping_add(n as u64);
    }

    /// Swap in a whole-file cache: `data` holds every frame of the source, the
    /// ring becomes that size, the writer jumps one full pass past the reader,
    /// and the source is marked cached and promoted.
    pub fn install_cache(&mut self, data: Vec<u32>)
        requires
            old(self)@.total_frames != u64::MAX,
            old(self)@.total_frames <= usize::MAX,
            data@.len() == old(self)@.total_frames * old(self)@.ch,
            decode_policy(old(self)@.policy).0 == StreamingPolicy::Auto,
        ensures
            final(self).wf(),
            final(self)@ == (RingView {
                data: data@,
                cap: old(self)@.total_frames as nat,
                write_frame: old(self)@.read_frame.wrapping_add(old(self)@.total_frames),
                cached: true,
                policy: encode_policy(StreamingPolicy::Auto, true),
                ..old(self)@
            }),
    {
        let total = self.total_frames;
        self.storage = RingData { data, cap: total as usize };
        self.write_frame = self.read_frame.wrapping_add(total);
        self.cached = true;
        self.policy = policy_to_u64(StreamingPolicy::Auto, true);
    }
}

/// Whether a re-read at `now` comes within the heuristic window after the
/// one at `first` (times in microseconds; a clock that went backwards counts
/// as no time passed).
pub open spec fn within_window(first: u64, now: u64) -> bool {
    (if now >= first { now - first } else { 0 }) < HEURISTIC_WINDOW_MICROS
}

/// When the I/O thread last saw its source wrap and rewind (microseconds).
#[derive(Clone, Copy, Debug, PartialEq, Eq, Structural)]
pub struct StreamHeuristic {
    /// Time of the first end-of-file of the current window.
    pub first_wrap_micros: Option<u64>,
    /// Time of the first backwards seek of the current window.
    pub first_rewind_micros: Option<u64>,
}

impl StreamHeuristic {
    /// No wrap or rewind seen yet.
    pub fn new() -> (r: Self)
        ensures
            r.first_wrap_micros is None,
            r.first_rewind_micros is None,
    {
        StreamHeuristic { first_wrap_micros: None, first_rewind_micros: None }
    }
}

/// What the I/O thread must do after a seek.
#[derive(Clone, Copy, Debug, PartialEq, Eq, Structural)]
pub enum SeekOutcome {
    /// The data is resident; nothing to read.
    ServedFromMemory,
    /// Seek the source to the target frame.
    SeekSource,
    /// Seek the source to the target frame, then cache the whole source.
    SeekSourceThenCache,
}

/// What the I/O thread must do after its source reached the end.
#[derive(Clone, Copy, Debug, PartialEq, Eq, Structural)]
pub enum EofOutcome {
    /// The source is now resident and served from memory.
    NowCached,
    /// Seek the source back to its first frame and keep streaming.
    SeekToStart,
    /// Read the whole source into a fresh buffer and install it.
    CacheWholeSource,
    /// The source was promoted; the next end-of-file caches it.
    Promoted,
}

/// Copy `n` whole frames of `chunk` into the whole-file cache at frame `pos`.
pub fn cache_fill(cache: &mut Vec<u32>, ch: usize, pos: usize, chunk: &[u32], n: usize)
    requires
        ch > 0,
        (pos + n) * ch <= old(cache)@.len(),
        n * ch <= chunk@.len(),
    ensures
        final(cache)@.len() == old(cache)@.len(),
        forall|k: int| 0 <= k < old(cache)@.len() ==> #[trigger] final(cache)@[k] == if pos * ch <= k < (pos + n) * ch {
            chunk@[k - pos * ch]
        } else {
            old(cache)@[k]
        },
{
    let ghost start = cache@;
    let clen = cache.len();
    let chunk_len = chunk.len();
    assert((pos + n) * ch == pos * ch + n * ch) by (nonlinear_arith);
    assert(pos * ch <= (pos + n) * ch) by (nonlinear_arith)
        requires
            n >= 0,
            ch > 0,
    ;
    let first = pos * ch;
    let len = n * ch;
    let mut k: usize = 0;
    while k < len
        invariant
            first == pos * ch,
            len == n * ch,
            first + len <= clen,
            len <= chunk_len,
            chunk@.len() == chunk_len,
            cache@.len() == clen,
            start.len() == clen,
            (pos + n) * ch == first + len,
            k <= len,
            forall|j: int| 0 <= j < clen ==> #[trigger] cache@[j] == if first <= j < first + k {
                chunk@[j - first]
            } else {
                start[j]
            },
        decreases len - k,
    {
        cache.set(first + k, chunk[k]);
        k += 1;
    }
}

} // verus!

verus! {

/// Two different ring frames occupy disjoint sample positions.
proof fn lemma_distinct_frames(a: int, b: int, ch: int, c: int)
    by (nonlinear_arith)
    requires
        a != b,
        a >= 0,
        b >= 0,
        0 <= c < ch,
    ensures
        !(b * ch <= a * ch + c < b * ch + ch),
{
}

/// Frames fewer than `cap` apart land in different ring frames.
proof fn lemma_distinct_slots(x: int, y: int, cap: int)
    requires
        cap > 0,
        0 <= x < y,
        y - x < cap,
    ensures
        x % cap != y % cap,
{
    vstd::arithmetic::div_mod::lemma_fundamental_div_mod(x, cap);
    vstd::arithmetic::div_mod::lemma_fundamental_div_mod(y, cap);
    let qx = x / cap;
    let qy = y / cap;
    if x % cap == y % cap {
        assert(y - x == cap * (qy - qx)) by (nonlinear_arith)
            requires
                x == cap * qx + x % cap,
                y == cap * qy + y % cap,
                x % cap == y % cap,
        ;
        assert(false) by (nonlinear_arith)
            requires
                y - x == cap * (qy - qx),
                0 < y - x < cap,
                cap > 0,
        ;
    }
}

/// Writing at most `cap` frames keeps every one of them: afterwards sample
/// `c` of written frame `i` (cumulative frame `start + i`) reads back in
/// ring frame `(start + i) % cap`, and the ring keeps its size.
pub proof fn lemma_write_then_read(
    data: Seq<u32>,
    cap: int,
    ch: int,
    start: int,
    frames: Seq<u32>,
    n: nat,
    i: int,
    c: int,
)
    requires
        cap > 0,
        ch > 0,
        start >= 0,
        data.len() == cap * ch,
        n <= cap,
        n * ch <= frames.len(),
        0 <= i < n,
        0 <= c < ch,
    ensures
        ring_after_frames(data, cap, ch, start, frames, n).len() == data.len(),
        ring_after_frames(data, cap, ch, start, frames, n)[((start + i) % cap) * ch + c] == frames[i * ch + c],
    decreases n,
{
    lemma_ring_size(data, cap, ch, start, frames, n);
    let slot = (start + i) % cap;
    let last = (start + n - 1) % cap;
    vstd::arithmetic::div_mod::lemma_mod_bound(start + i, cap);
    vstd::arithmetic::div_mod::lemma_mod_bound(start + n - 1, cap);
    lemma_sample_in_ring(slot, cap, ch, c);
    if i == n - 1 {
        assert(((n - 1) * ch + (slot * ch + c) - slot * ch) == i * ch + c);
    } else {
        assert((n - 1) * ch <= n * ch) by (nonlinear_arith)
            requires
                n >= 1,
                ch > 0,
        ;
        lemma_write_then_read(data, cap, ch, start, frames, (n - 1) as nat, i, c);
        lemma_distinct_slots(start + i, start + n - 1, cap);
        lemma_distinct_frames(slot, last, ch, c);
    }
}

/// Writing frames never changes the ring's size.
pub proof fn lemma_ring_size(data: Seq<u32>, cap: int, ch: int, start: int, frames: Seq<u32>, n: nat)
    ensures
        ring_after_frames(data, cap, ch, start, frames, n).len() == data.len(),
    decreases n,
{
    if n > 0 {
        lemma_ring_size(data, cap, ch, start, frames, (n - 1) as nat);
    }
}

} // verus!

verus! {

/// Which frames the reader can read: every frame at most `cap` frames behind
/// the writer (the ring still holds it) and every frame at most one I/O chunk
/// ahead of it (the end-of-file transient); no frame further behind, since
/// the ring has overwritten it, and none further ahead.
pub proof fn lemma_readable_window(frame: u64, write_frame: u64, cap: int)
    ensures
        frame < write_frame && write_frame - frame <= cap ==> frame_readable(frame, write_frame, cap),
        frame < write_frame && write_frame - frame > cap ==> !frame_readable(frame, write_frame, cap),
        frame >= write_frame ==> (frame_readable(frame, write_frame, cap) <==> frame - write_frame <= IO_CHUNK_FRAMES),
{
}

} // verus!
