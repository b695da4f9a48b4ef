//! Streaming sources: memory policy, the ring buffer between the I/O thread
//! and the audio callback, and the I/O thread's caching decisions.
//!
//! Samples travel through the ring as the bit patterns of single-precision
//! floats, so the ring itself never computes with them.

use vstd::prelude::*;

verus! {

/// Memory-management strategy for a streaming source.
///
/// This controls how much of the source is retained in RAM, not playback:
/// looping always works whatever the policy (re-reads are served from memory
/// when cached, or from disk when streamed).
#[derive(Clone, Copy, Debug, PartialEq, Eq, Hash, Structural)]
pub enum StreamingPolicy {
    /// Accessed continuously: the whole file is read once and cached in RAM;
    /// every later pass is served from memory.
    Common,
    /// Unlikely to be re-read: never cached; it streams through a small ring
    /// window and each pass is re-read from disk.
    Once,
    /// Starts streamed like `Once`; promoted to cached when the consumer
    /// re-reads the source within a heuristic window.
    Auto,
}

/// Wraps a source to declare its [`StreamingPolicy`] explicitly.
pub struct PolicyOverride<S> {
    inner: S,
    policy: StreamingPolicy,
}

impl<S> PolicyOverride<S> {
    /// The wrapped source.
    pub closed spec fn wrapped(&self) -> S {
        self.inner
    }

    /// The declared policy.
    pub closed spec fn declared(&self) -> StreamingPolicy {
        self.policy
    }

    /// Wrap `inner`, declaring `policy` for it.
    pub fn new(inner: S, policy: StreamingPolicy) -> (r: Self)
        ensures
            r.wrapped() == inner,
            r.declared() == policy,
    {
        PolicyOverride { inner, policy }
    }

    /// The declared policy.
    pub fn policy(&self) -> (r: StreamingPolicy)
        ensures
            r == self.declared(),
    {
        self.policy
    }

    /// The wrapped source.
    pub fn inner(&self) -> (r: &S)
        ensures
            *r == self.wrapped(),
    {
        &self.inner
    }

    /// The wrapped source, for reading and seeking.
    pub fn inner_mut(&mut self) -> (r: &mut S)
        ensures
            *r == old(self).wrapped(),
            final(self).wrapped() == *final(r),
            final(self).declared() == old(self).declared(),
    {
        &mut self.inner
    }
}

// ── Policy bit-packing ───────────────────────────────────────────────

/// Number of each policy in the packed form.
pub open spec fn policy_code(p: StreamingPolicy) -> u64 {
    match p {
        StreamingPolicy::Common => 0,
        StreamingPolicy::Once => 1,
        StreamingPolicy::Auto => 2,
    }
}

/// Packed form of a policy and its promotion flag: the policy's number in
/// the low two bits, the flag in bit 2.
pub open spec fn encode_policy(p: StreamingPolicy, promoted: bool) -> u64 {
    (policy_code(p) + if promoted { 4int } else { 0int }) as u64
}

/// Unpacked form of any `u64`: low two bits 0 → `Common`, 1 → `Once`, else
/// `Auto`; the flag is bit 2.
pub open spec fn decode_policy(v: u64) -> (StreamingPolicy, bool) {
    let p = if v % 4 == 0 {
        StreamingPolicy::Common
    } else if v % 4 == 1 {
        StreamingPolicy::Once
    } else {
        StreamingPolicy::Auto
    };
    (p, (v / 4) % 2 == 1)
}

/// Encode a [`StreamingPolicy`] and a promotion flag into a `u64` for
/// single-word storage.
pub fn policy_to_u64(p: StreamingPolicy, promoted: bool) -> (r: u64)
    ensures
        r == encode_policy(p, promoted),
{
    let base: u64 = match p {
        StreamingPolicy::Common => 0,
        StreamingPolicy::Once => 1,
        StreamingPolicy::Auto => 2,
    };
    if promoted {
        assert(base < 4 ==> base | 4u64 == base + 4) by (bit_vector);
        base | 4
    } else {
        base
    }
}

/// Decode a packed policy word.
pub fn u64_to_policy(v: u64) -> (r: (StreamingPolicy, bool))
    ensures
        r == decode_policy(v),
{
    assert(v & 3u64 == v % 4) by (bit_vector);
    assert((v & 4u64 != 0) == ((v / 4) % 2 == 1)) by (bit_vector);
    let low = v & 3;
    let p = if low == 0 {
        StreamingPolicy::Common
    } else if low == 1 {
        StreamingPolicy::Once
    } else {
        StreamingPolicy::Auto
    };
    (p, v & 4 != 0)
}

/// Packing then unpacking gives back the policy and the flag.
pub proof fn lemma_policy_round_trip(p: StreamingPolicy, promoted: bool)
    ensures
        decode_policy(encode_policy(p, promoted)) == (p, promoted),
{
}

} // verus!
