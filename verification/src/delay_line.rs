//! Circular sample history behind the fractional delay lines.
//!
//! A delay line of length `len` remembers the last `len` samples pushed into
//! it; `back(d)` is the sample pushed `d` pushes ago (`back(0)` the latest).
//! Interpolating between neighbouring samples is the renderer's job.

use vstd::prelude::*;

verus! {

/// Position in `buf` of the sample pushed `d` pushes ago, with the next
/// write at `wp`.
pub open spec fn back_index(len: int, wp: int, d: int) -> int {
    (wp + len - 1 - d) % len
}

/// The sample pushed `d` pushes ago in a history stored as `buf` with the
/// next write at `wp`.
pub open spec fn back_of<S>(buf: Seq<S>, wp: int, d: int) -> S {
    buf[back_index(buf.len() as int, wp, d)]
}

/// Fixed-length circular history of samples of type `S`.
pub struct DelayLine<S> {
    buffer: Vec<S>,
    write_pos: usize,
}

impl<S> DelayLine<S> {
    /// The history holds at least one sample and the next write is inside it.
    pub closed spec fn wf(self) -> bool {
        self.buffer@.len() >= 1 && self.write_pos < self.buffer@.len()
    }

    /// The stored samples, by storage position.
    pub closed spec fn samples(self) -> Seq<S> {
        self.buffer@
    }

    /// Storage position of the next write.
    pub closed spec fn next_write(self) -> int {
        self.write_pos as int
    }

}

impl<S: Copy> DelayLine<S> {
    /// A history of `len` samples, all `zero`.
    pub fn new(len: usize, zero: S) -> (r: Self)
        requires
            len >= 1,
        ensures
            r.wf(),
            r.samples() == Seq::new(len as nat, |i: int| zero),
            r.next_write() == 0,
    {
        let mut buffer: Vec<S> = Vec::new();
        let mut i: usize = 0;
        while i < len
            invariant
                i <= len,
                buffer@ == Seq::new(i as nat, |j: int| zero),
            decreases len - i,
        {
            buffer.push(zero);
            i += 1;
            assert(buffer@ =~= Seq::new(i as nat, |j: int| zero));
        }
        DelayLine { buffer, write_pos: 0 }
    }

    /// Number of samples the history holds.
    pub fn len(&self) -> (r: usize)
        requires
            self.wf(),
        ensures
            r == self.samples().len(),
            r >= 1,
    {
        self.buffer.len()
    }

    /// Storage position of the next write.
    pub fn write_pos(&self) -> (r: usize)
        requires
            self.wf(),
        ensures
            r == self.next_write(),
            r < self.samples().len(),
    {
        self.write_pos
    }

    /// Push a sample: it overwrites the oldest one.
    pub fn push(&mut self, sample: S)
        requires
            old(self).wf(),
        ensures
            final(self).wf(),
            final(self).samples() == old(self).samples().update(old(self).next_write(), sample),
            final(self).next_write() == (old(self).next_write() + 1) % (old(self).samples().len() as int),
    {
        let wp = self.write_pos;
        let len = self.buffer.len();
        self.buffer.set(wp, sample);
        let next = wp + 1;
        proof {
            if next < len {
                vstd::arithmetic::div_mod::lemma_small_mod(next as nat, len as nat);
            } else {
                vstd::arithmetic::div_mod::lemma_mod_self_0(len as int);
            }
        }
        self.write_pos = if next == len { 0 } else { next };
    }

    /// The sample pushed `d` pushes ago (the latest for `d = 0`).
    pub fn back(&self, d: usize) -> (r: S)
        requires
            self.wf(),
            d < self.samples().len(),
        ensures
            r == back_of(self.samples(), self.next_write(), d as int),
    {
        let len = self.buffer.len();
        let wp = self.write_pos;
        let idx = if wp > d { wp - 1 - d } else { wp + (len - 1 - d) };
        proof {
            if wp > d {
                vstd::arithmetic::div_mod::lemma_mod_add_multiples_vanish((wp - 1 - d) as int, len as int);
                vstd::arithmetic::div_mod::lemma_small_mod((wp - 1 - d) as nat, len as nat);
            } else {
                vstd::arithmetic::div_mod::lemma_small_mod(idx as nat, len as nat);
            }
        }
        self.buffer[idx]
    }

    /// Fill the history with `zero` and restart at the first position.
    pub fn clear(&mut self, zero: S)
        requires
            old(self).wf(),
        ensures
            final(self).wf(),
            final(self).samples() == Seq::new(old(self).samples().len(), |i: int| zero),
            final(self).next_write() == 0,
    {
        let len = self.buffer.len();
        let mut i: usize = 0;
        let ghost n = self.buffer@.len();
        self.write_pos = 0;
        while i < len
            invariant
                i <= len,
                len == n,
                self.buffer@.len() == n,
                self.write_pos == 0,
                forall|j: int| 0 <= j < i ==> #[trigger] self.buffer@[j] == zero,
            decreases len - i,
        {
            self.buffer.set(i, zero);
            i += 1;
        }
        assert(self.buffer@ =~= Seq::new(n, |i: int| zero));
    }
}

/// Pushing a sample makes it the latest (`back(0)`) and ages every other
/// remembered sample by one push; the oldest one is forgotten.
pub proof fn lemma_push_then_back<S>(buf: Seq<S>, wp: int, sample: S, d: int)
    requires
        buf.len() >= 1,
        0 <= wp < buf.len(),
        0 <= d < buf.len(),
    ensures
        back_of(buf.update(wp, sample), (wp + 1) % (buf.len() as int), 0) == sample,
        d + 1 < buf.len() ==> back_of(buf.update(wp, sample), (wp + 1) % (buf.len() as int), d + 1) == back_of(
            buf,
            wp,
            d,
        ),
{
    let len = buf.len() as int;
    let nwp = (wp + 1) % len;
    let after = buf.update(wp, sample);
    if wp + 1 < len {
        vstd::arithmetic::div_mod::lemma_small_mod((wp + 1) as nat, len as nat);
    } else {
        vstd::arithmetic::div_mod::lemma_mod_self_0(len);
    }
    assert(back_index(len, nwp, 0) == wp) by {
        if wp + 1 < len {
            assert(nwp == wp + 1);
            assert((wp + 1 + len - 1) % len == wp) by {
                vstd::arithmetic::div_mod::lemma_mod_add_multiples_vanish(wp, len);
                vstd::arithmetic::div_mod::lemma_small_mod(wp as nat, len as nat);
            }
        } else {
            assert(nwp == 0);
            assert((len - 1) % len == len - 1) by {
                vstd::arithmetic::div_mod::lemma_small_mod((len - 1) as nat, len as nat);
            }
        }
    }
    if d + 1 < len {
        assert(back_index(len, nwp, d + 1) == back_index(len, wp, d)) by {
            if wp + 1 < len {
                assert(nwp == wp + 1);
            } else {
                assert(nwp == 0);
                assert((len - 2 - d) % len == len - 2 - d) by {
                    vstd::arithmetic::div_mod::lemma_small_mod((len - 2 - d) as nat, len as nat);
                }
                assert((wp + len - 1 - d) % len == len - 2 - d) by {
                    vstd::arithmetic::div_mod::lemma_mod_add_multiples_vanish(len - 2 - d, len);
                }
            }
        }
        assert(back_index(len, wp, d) != wp) by {
            assert(0 <= (wp + len - 1 - d) - len < len || 0 <= wp + len - 1 - d < len);
            if wp + len - 1 - d >= len {
                assert(back_index(len, wp, d) == wp - 1 - d) by {
                    vstd::arithmetic::div_mod::lemma_mod_add_multiples_vanish(wp - 1 - d, len);
                    vstd::arithmetic::div_mod::lemma_small_mod((wp - 1 - d) as nat, len as nat);
                }
            } else {
                assert(back_index(len, wp, d) == wp + len - 1 - d) by {
                    vstd::arithmetic::div_mod::lemma_small_mod((wp + len - 1 - d) as nat, len as nat);
                }
            }
        }
    }
}

} // verus!
