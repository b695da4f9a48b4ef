//! Patch-bay mixer routing.
//!
//! The patch bay is the only place audio enters the scene mix. Each scene
//! output owns an explicit list of taps ([`PatchEntry`]); its audible content
//! is the sum over those taps of `source[source_idx].channel[channel] × gain`.
//! This module keeps the tap lists; summing samples is the renderer's job,
//! which asks [`tap_routable`] whether a tap can be read.

use vstd::prelude::*;

use crate::seq_search::{any_where, first_where, is_first_where, lemma_first_exists, lemma_first_where};

verus! {

/// One tap in the patch bay: read `channel` of `source_idx` at `gain_linear`.
#[derive(Clone, Copy, Debug, PartialEq)]
pub struct PatchEntry<G> {
    /// Index into the engine's source buffer array.
    pub source_idx: usize,
    /// Channel of that source to read (`0 .. source.channels()`).
    pub channel: usize,
    /// Linear amplitude gain applied to the tapped samples.
    pub gain_linear: G,
}

/// The entries that tap `channel` of source `source_idx`.
pub open spec fn entry_key<G>(source_idx: usize, channel: usize) -> spec_fn(PatchEntry<G>) -> bool {
    |e: PatchEntry<G>| e.source_idx == source_idx && e.channel == channel
}

/// The entries that do not tap `channel` of source `source_idx`.
pub open spec fn other_entry<G>(source_idx: usize, channel: usize) -> spec_fn(PatchEntry<G>) -> bool {
    |e: PatchEntry<G>| !(e.source_idx == source_idx && e.channel == channel)
}

/// The tap list after `set_pull`: the first entry on the same
/// `(source_idx, channel)` takes the new gain, otherwise the entry is appended.
pub open spec fn with_entry<G>(taps: Seq<PatchEntry<G>>, entry: PatchEntry<G>) -> Seq<PatchEntry<G>> {
    let key = entry_key::<G>(entry.source_idx, entry.channel);
    if any_where(taps, key) {
        taps.update(first_where(taps, key), entry)
    } else {
        taps.push(entry)
    }
}

/// The tap list after setting the gain of the first entry on
/// `(source_idx, channel)`; unchanged when there is none.
pub open spec fn with_gain<G>(taps: Seq<PatchEntry<G>>, source_idx: usize, channel: usize, gain: G) -> Seq<PatchEntry<G>> {
    let key = entry_key::<G>(source_idx, channel);
    if any_where(taps, key) {
        taps.update(first_where(taps, key), PatchEntry { source_idx, channel, gain_linear: gain })
    } else {
        taps
    }
}

/// The bus list after resizing to `n` busses: truncated, or padded with empty busses.
pub open spec fn resized<G>(busses: Seq<Seq<PatchEntry<G>>>, n: int) -> Seq<Seq<PatchEntry<G>>> {
    Seq::new(n as nat, |i: int| if i < busses.len() { busses[i] } else { Seq::<PatchEntry<G>>::empty() })
}

/// Whether a tap can be read from sources with the given channel counts:
/// its source exists and carries its channel. Other taps are skipped
/// silently by the mixer.
pub fn tap_routable<G: Copy>(entry: &PatchEntry<G>, source_channels: &[usize]) -> (r: bool)
    ensures
        r == (entry.source_idx < source_channels@.len() && entry.channel < source_channels@[entry.source_idx as int]),
{
    entry.source_idx < source_channels.len() && entry.channel < source_channels[entry.source_idx]
}

fn find_entry<G: Copy>(taps: &Vec<PatchEntry<G>>, source_idx: usize, channel: usize) -> (r: Option<usize>)
    ensures
        match r {
            Some(i) => is_first_where(taps@, entry_key::<G>(source_idx, channel), i as int),
            None => !any_where(taps@, entry_key::<G>(source_idx, channel)),
        },
{
    let mut i: usize = 0;
    while i < taps.len()
        invariant
            i <= taps@.len(),
            forall|j: int| 0 <= j < i ==> !entry_key::<G>(source_idx, channel)(#[trigger] taps@[j]),
        decreases taps@.len() - i,
    {
        if taps[i].source_idx == source_idx && taps[i].channel == channel {
            return Some(i);
        }
        i += 1;
    }
    None
}

/// Standalone multi-input / multi-output patch-bay mixer.
///
/// Bus `i` holds the list of taps that mix into scene output `i`.
pub struct PatchBayNode<G> {
    outputs: Vec<Vec<PatchEntry<G>>>,
}

impl<G> View for PatchBayNode<G> {
    type V = Seq<Seq<PatchEntry<G>>>;

    closed spec fn view(&self) -> Seq<Seq<PatchEntry<G>>> {
        Seq::new(self.outputs@.len(), |i: int| self.outputs@[i]@)
    }
}

impl<G: Copy> PatchBayNode<G> {
    /// Create a patch bay with `num_outputs` initially empty busses.
    pub fn new(num_outputs: usize) -> (r: Self)
        ensures
            r@.len() == num_outputs,
            forall|i: int| 0 <= i < num_outputs ==> #[trigger] r@[i].len() == 0,
    {
        let mut outputs: Vec<Vec<PatchEntry<G>>> = Vec::new();
        let mut i: usize = 0;
        while i < num_outputs
            invariant
                i <= num_outputs,
                outputs@.len() == i,
                forall|j: int| 0 <= j < i ==> #[trigger] outputs@[j]@.len() == 0,
            decreases num_outputs - i,
        {
            outputs.push(Vec::new());
            i += 1;
        }
        let r = PatchBayNode { outputs };
        assert forall|j: int| 0 <= j < num_outputs implies #[trigger] r@[j].len() == 0 by {
            assert(r@[j] == r.outputs@[j]@);
        }
        r
    }

    /// Number of scene-output mix busses.
    pub fn num_outputs(&self) -> (r: usize)
        ensures
            r == self@.len(),
    {
        self.outputs.len()
    }

    /// Resize the number of busses: truncates when shrinking, appends empty
    /// tap lists when growing.
    pub fn resize(&mut self, num_outputs: usize)
        ensures
            final(self)@ == resized(old(self)@, num_outputs as int),
    {
        if num_outputs < self.outputs.len() {
            self.outputs.truncate(num_outputs);
        } else {
            while self.outputs.len() < num_outputs
                invariant
                    old(self).outputs@.len() <= self.outputs@.len() <= num_outputs,
                    forall|j: int| 0 <= j < old(self).outputs@.len() ==> #[trigger] self.outputs@[j] == old(self).outputs@[j],
                    forall|j: int| old(self).outputs@.len() <= j < self.outputs@.len() ==> #[trigger] self.outputs@[j]@.len() == 0,
                decreases num_outputs - self.outputs@.len(),
            {
                self.outputs.push(Vec::new());
            }
        }
        assert forall|i: int| 0 <= i < num_outputs implies #[trigger] self@[i] == resized(old(self)@, num_outputs as int)[i] by {
            if i < old(self).outputs@.len() {
                assert(self.outputs@[i] == old(self).outputs@[i]);
            } else {
                assert(self.outputs@[i]@.len() == 0);
                assert(self.outputs@[i]@ =~= Seq::<PatchEntry<G>>::empty());
            }
        }
        assert(self@ =~= resized(old(self)@, num_outputs as int));
    }

    /// Add (or replace) a pull on a bus: an entry on the same
    /// `(source_idx, channel)` takes the new gain, otherwise the entry is
    /// appended. No-op for a bus that does not exist.
    pub fn set_pull(&mut self, output: usize, entry: PatchEntry<G>)
        ensures
            output < old(self)@.len() ==> final(self)@ == old(self)@.update(output as int, with_entry(old(self)@[output as int], entry)),
            output >= old(self)@.len() ==> final(self)@ == old(self)@,
    {
        if output >= self.outputs.len() {
            return;
        }
        let ghost before = self@;
        let mut taps = self.outputs.remove(output);
        assert(taps@ == before[output as int]);
        match find_entry(&taps, entry.source_idx, entry.channel) {
            Some(i) => {
                proof {
                    lemma_first_where(taps@, entry_key::<G>(entry.source_idx, entry.channel), i as int);
                }
                taps.set(i, entry);
            },
            None => {
                taps.push(entry);
            },
        }
        self.outputs.insert(output, taps);
        assert(self@ =~= before.update(output as int, with_entry(before[output as int], entry)));
    }

    /// Remove every pull tapping `(source_idx, channel)` from a bus, keeping
    /// the others in order. No-op if none match or the bus does not exist.
    pub fn remove_pull(&mut self, output: usize, source_idx: usize, channel: usize)
        ensures
            output < old(self)@.len() ==> final(self)@ == old(self)@.update(
                output as int,
                old(self)@[output as int].filter(other_entry::<G>(source_idx, channel)),
            ),
            output >= old(self)@.len() ==> final(self)@ == old(self)@,
    {
        if output >= self.outputs.len() {
            return;
        }
        let ghost before = self@;
        let taps = self.outputs.remove(output);
        let ghost old_taps = taps@;
        assert(old_taps == before[output as int]);
        let mut kept: Vec<PatchEntry<G>> = Vec::new();
        let mut i: usize = 0;
        while i < taps.len()
            invariant
                taps@ == old_taps,
                i <= old_taps.len(),
                kept@ == old_taps.take(i as int).filter(other_entry::<G>(source_idx, channel)),
            decreases old_taps.len() - i,
        {
            let e = taps[i];
            proof {
                let t = old_taps.take(i + 1);
                reveal_with_fuel(Seq::filter, 1);
                assert(t.drop_last() =~= old_taps.take(i as int));
                assert(t.last() == e);
            }
            if !(e.source_idx == source_idx && e.channel == channel) {
                kept.push(e);
            }
            i += 1;
        }
        assert(old_taps.take(old_taps.len() as int) =~= old_taps);
        self.outputs.insert(output, kept);
        assert(self@ =~= before.update(output as int, before[output as int].filter(other_entry::<G>(source_idx, channel))));
    }

    /// Update the linear gain of the first pull tapping `(source_idx, channel)`.
    /// No-op if absent or the bus does not exist.
    pub fn set_pull_gain(&mut self, output: usize, source_idx: usize, channel: usize, gain_linear: G)
        ensures
            output < old(self)@.len() ==> final(self)@ == old(self)@.update(
                output as int,
                with_gain(old(self)@[output as int], source_idx, channel, gain_linear),
            ),
            output >= old(self)@.len() ==> final(self)@ == old(self)@,
    {
        if output >= self.outputs.len() {
            return;
        }
        let ghost before = self@;
        let mut taps = self.outputs.remove(output);
        assert(taps@ == before[output as int]);
        match find_entry(&taps, source_idx, channel) {
            Some(i) => {
                proof {
                    lemma_first_where(taps@, entry_key::<G>(source_idx, channel), i as int);
                }
                taps.set(i, PatchEntry { source_idx, channel, gain_linear });
            },
            None => {},
        }
        self.outputs.insert(output, taps);
        assert(self@ =~= before.update(output as int, with_gain(before[output as int], source_idx, channel, gain_linear)));
    }

    /// The current taps of a bus (read-only); empty for a bus that does not exist.
    pub fn pulls(&self, output: usize) -> (r: &[PatchEntry<G>])
        ensures
            output < self@.len() ==> r@ == self@[output as int],
            output >= self@.len() ==> r@.len() == 0,
    {
        if output < self.outputs.len() {
            self.outputs[output].as_slice()
        } else {
            &[]
        }
    }
}

} // verus!

verus! {

/// Setting the same `(source_idx, channel)` twice leaves one tap with the
/// later gain, exactly as if only the later entry had been set: identical
/// taps are replaced, never stacked.
pub proof fn lemma_set_pull_twice<G>(taps: Seq<PatchEntry<G>>, first: PatchEntry<G>, second: PatchEntry<G>)
    requires
        first.source_idx == second.source_idx,
        first.channel == second.channel,
    ensures
        with_entry(with_entry(taps, first), second) == with_entry(taps, second),
{
    let key = entry_key::<G>(first.source_idx, first.channel);
    let once = with_entry(taps, first);
    if any_where(taps, key) {
        lemma_first_exists(taps, key);
        let i = first_where(taps, key);
        assert(is_first_where(once, key, i));
        lemma_first_where(once, key, i);
        assert(with_entry(once, second) =~= with_entry(taps, second));
    } else {
        let i = taps.len() as int;
        assert forall|j: int| 0 <= j < i implies !key(#[trigger] once[j]) by {
            assert(once[j] == taps[j]);
        }
        assert(is_first_where(once, key, i));
        lemma_first_where(once, key, i);
        assert(with_entry(once, second) =~= with_entry(taps, second));
    }
}

/// After `set_pull` the entry is the first tap on its `(source_idx, channel)`.
pub proof fn lemma_set_pull_then_first<G>(taps: Seq<PatchEntry<G>>, entry: PatchEntry<G>)
    ensures
        ({
            let after = with_entry(taps, entry);
            let key = entry_key::<G>(entry.source_idx, entry.channel);
            any_where(after, key) && after[first_where(after, key)] == entry
        }),
{
    let key = entry_key::<G>(entry.source_idx, entry.channel);
    let after = with_entry(taps, entry);
    if any_where(taps, key) {
        lemma_first_exists(taps, key);
        let i = first_where(taps, key);
        assert(is_first_where(after, key, i));
        lemma_first_where(after, key, i);
    } else {
        let i = taps.len() as int;
        assert forall|j: int| 0 <= j < i implies !key(#[trigger] after[j]) by {
            assert(after[j] == taps[j]);
        }
        assert(is_first_where(after, key, i));
        lemma_first_where(after, key, i);
    }
}

} // verus!

verus! {

/// Removing the pull on `(source_idx, channel)` keeps exactly the other
/// taps: a tap is still on the bus afterwards if and only if it was there
/// before and reads another source or another channel.
pub proof fn lemma_remove_pull_keeps_others<G>(taps: Seq<PatchEntry<G>>, source_idx: usize, channel: usize)
    ensures
        forall|e: PatchEntry<G>| #[trigger] taps.filter(other_entry::<G>(source_idx, channel)).contains(e)
            <==> (taps.contains(e) && !(e.source_idx == source_idx && e.channel == channel)),
{
    let keep = other_entry::<G>(source_idx, channel);
    let kept = taps.filter(keep);
    broadcast use vstd::seq_lib::group_filter_ensures;
    assert forall|e: PatchEntry<G>| #[trigger] kept.contains(e)
        <==> (taps.contains(e) && !(e.source_idx == source_idx && e.channel == channel)) by {
        if kept.contains(e) {
            let i = choose|i: int| 0 <= i < kept.len() && kept[i] == e;
            assert(keep(kept[i]));
            taps.lemma_filter_contains_rev(keep, e);
        }
        if taps.contains(e) && !(e.source_idx == source_idx && e.channel == channel) {
            let i = choose|i: int| 0 <= i < taps.len() && taps[i] == e;
            taps.lemma_filter_contains(keep, i);
        }
    }
}

} // verus!
