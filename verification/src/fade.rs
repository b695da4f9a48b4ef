//! Progress of an equal-power crossfade, counted in frames.
//!
//! The renderer calls [`FadeProgress::advance`] once per audio block with the
//! block's length, so a fade of `F` frames completes after `⌈F / B⌉` blocks of
//! `B` frames, not after `F` calls. The blend factor itself is
//! `frame_counter / fade_frames`, computed by the renderer in its sample type.

use vstd::prelude::*;

verus! {

/// The frame counter after one block of `block` frames: it moves by the
/// block, never past the end of the fade, and stays put once complete.
pub open spec fn step(counter: nat, fade: nat, block: nat) -> nat {
    if counter < fade {
        if counter + block < fade { counter + block } else { fade }
    } else {
        counter
    }
}

/// The frame counter after `blocks` successive blocks of `block` frames.
pub open spec fn frames_after(counter: nat, fade: nat, block: nat, blocks: nat) -> nat
    decreases blocks,
{
    if blocks == 0 {
        counter
    } else {
        frames_after(step(counter, fade, block), fade, block, (blocks - 1) as nat)
    }
}

/// The smaller of two naturals.
pub open spec fn min_nat(a: nat, b: nat) -> nat {
    if a <= b { a } else { b }
}

/// How far a crossfade has run: `frame_counter` of `fade_frames` frames.
pub struct FadeProgress {
    fade_frames: u32,
    frame_counter: u32,
}

impl FadeProgress {
    #[verifier::type_invariant]
    spec fn inv(self) -> bool {
        1 <= self.fade_frames && self.frame_counter <= self.fade_frames
    }

    /// Length of the fade in frames (at least one).
    pub closed spec fn length(self) -> nat {
        self.fade_frames as nat
    }

    /// Frames of the fade already covered.
    pub closed spec fn frames(self) -> nat {
        self.frame_counter as nat
    }

    /// The fade has reached its target.
    pub open spec fn complete(self) -> bool {
        self.frames() >= self.length()
    }

    /// A fade of `fade_frames` frames (at least one), whose counter starts at
    /// `fade_frames`: complete from the start unless the length was zero.
    pub fn new(fade_frames: u32) -> (r: Self)
        ensures
            r.length() == (if fade_frames >= 1 { fade_frames as nat } else { 1 }),
            r.frames() == fade_frames,
    {
        let length = if fade_frames >= 1 { fade_frames } else { 1 };
        FadeProgress { fade_frames: length, frame_counter: fade_frames }
    }

    /// Length of the fade in frames.
    pub fn fade_frames(&self) -> (r: u32)
        ensures
            r == self.length(),
            r >= 1,
    {
        proof { use_type_invariant(self); }
        self.fade_frames
    }

    /// Frames of the fade already covered (never more than its length).
    pub fn frame_counter(&self) -> (r: u32)
        ensures
            r == self.frames(),
            r <= self.length(),
    {
        proof { use_type_invariant(self); }
        self.frame_counter
    }

    /// Whether the fade has reached its target.
    pub fn is_complete(&self) -> (r: bool)
        ensures
            r == self.complete(),
    {
        self.frame_counter >= self.fade_frames
    }

    /// Start the fade over from its first frame.
    pub fn restart(&mut self)
        ensures
            final(self).length() == old(self).length(),
            final(self).frames() == 0,
    {
        proof { use_type_invariant(&*self); }
        self.frame_counter = 0;
    }

    /// Jump to the end of the fade.
    pub fn finish(&mut self)
        ensures
            final(self).length() == old(self).length(),
            final(self).frames() == old(self).length(),
            final(self).complete(),
    {
        proof { use_type_invariant(&*self); }
        self.frame_counter = self.fade_frames;
    }

    /// React to a new target: blend towards it when it belongs to the same
    /// source, snap to it (finish the fade) when the source changed.
    pub fn retarget(&mut self, same_source: bool)
        ensures
            final(self).length() == old(self).length(),
            final(self).frames() == (if same_source { 0 } else { old(self).length() }),
    {
        if same_source {
            self.restart();
        } else {
            self.finish();
        }
    }

    /// Advance the fade by one block of `block` frames. Returns whether the
    /// fade was still running (and so moved).
    pub fn advance(&mut self, block: u32) -> (moved: bool)
        ensures
            moved == !old(self).complete(),
            final(self).length() == old(self).length(),
            final(self).frames() == step(old(self).frames(), old(self).length(), block as nat),
    {
        proof { use_type_invariant(&*self); }
        if self.frame_counter < self.fade_frames {
            let room = self.fade_frames - self.frame_counter;
            if block < room {
                self.frame_counter = self.frame_counter + block;
            } else {
                self.frame_counter = self.fade_frames;
            }
            true
        } else {
            false
        }
    }
}

/// `blocks` blocks of `block` frames move a running fade by `blocks · block`
/// frames, up to its end; a complete fade stays complete.
pub proof fn lemma_frames_after_blocks(counter: nat, fade: nat, block: nat, blocks: nat)
    requires
        counter <= fade,
    ensures
        frames_after(counter, fade, block, blocks) == min_nat(counter + blocks * block, fade),
    decreases blocks,
{
    if blocks == 0 {
        assert(blocks * block == 0) by (nonlinear_arith)
            requires
                blocks == 0,
        ;
    } else {
        let next = step(counter, fade, block);
        assert(frames_after(counter, fade, block, blocks) == frames_after(next, fade, block, (blocks - 1) as nat));
        lemma_frames_after_blocks(next, fade, block, (blocks - 1) as nat);
        assert(blocks * block == block + (blocks - 1) * block) by (nonlinear_arith)
            requires
                blocks > 0,
        ;
        assert((blocks - 1) * block >= 0) by (nonlinear_arith)
            requires
                blocks > 0,
        ;
    }
}

/// A fade of `fade` frames advanced by blocks of `block` frames completes
/// after exactly `⌈fade / block⌉` blocks: not one block earlier, and it stays
/// complete afterwards.
pub proof fn lemma_fade_completes_after_ceiling_blocks(fade: nat, block: nat, extra: nat)
    requires
        fade >= 1,
        block >= 1,
    ensures
        frames_after(0, fade, block, ((fade + block - 1) / block as int) as nat) == fade,
        frames_after(0, fade, block, (((fade + block - 1) / block as int) - 1) as nat) < fade,
        frames_after(0, fade, block, ((fade + block - 1) / block as int + extra) as nat) == fade,
{
    let n: int = (fade + block - 1) / block as int;
    assert(n >= 1 && n * block >= fade && (n - 1) * block < fade) by (nonlinear_arith)
        requires
            fade >= 1,
            block >= 1,
            n == (fade + block - 1) / block as int,
    ;
    assert((n + extra) * block >= n * block) by (nonlinear_arith)
        requires
            n >= 1,
            block >= 1,
    ;
    lemma_frames_after_blocks(0, fade, block, n as nat);
    lemma_frames_after_blocks(0, fade, block, (n - 1) as nat);
    lemma_frames_after_blocks(0, fade, block, (n + extra) as nat);
}

} // verus!
