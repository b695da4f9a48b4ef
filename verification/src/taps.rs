//! Tap lists: the ordered pulls that make up one scene output's content.
//!
//! A tap list holds at most the pulls the user connected; connecting a pull
//! whose `(source, channel)` is already tapped replaces the first such tap in
//! place, otherwise it is appended.

use vstd::prelude::*;

use crate::scene_output::{ChannelPull, SourceId};
use crate::seq_search::{any_where, first_where, is_first_where, lemma_first_exists, lemma_first_where};

verus! {

/// The pulls that tap `channel` of `source`.
pub open spec fn tap_key<G>(source: SourceId, channel: u32) -> spec_fn(ChannelPull<G>) -> bool {
    |p: ChannelPull<G>| p.source_id == source && p.channel == channel
}

/// The pulls that do not tap `channel` of `source`.
pub open spec fn other_tap<G>(source: SourceId, channel: u32) -> spec_fn(ChannelPull<G>) -> bool {
    |p: ChannelPull<G>| !(p.source_id == source && p.channel == channel)
}

/// The pulls that do not read `source` at all.
pub open spec fn other_source<G>(source: SourceId) -> spec_fn(ChannelPull<G>) -> bool {
    |p: ChannelPull<G>| p.source_id != source
}

/// The tap list after connecting `pull`: the first tap on the same
/// `(source, channel)` is replaced, otherwise `pull` is appended.
pub open spec fn connected<G>(taps: Seq<ChannelPull<G>>, pull: ChannelPull<G>) -> Seq<ChannelPull<G>> {
    let key = tap_key::<G>(pull.source_id, pull.channel);
    if any_where(taps, key) {
        taps.update(first_where(taps, key), pull)
    } else {
        taps.push(pull)
    }
}

/// The tap list after setting the gain of the first tap on
/// `(source, channel)` to `gain`; unchanged when there is no such tap.
pub open spec fn regained<G>(taps: Seq<ChannelPull<G>>, source: SourceId, channel: u32, gain: G) -> Seq<ChannelPull<G>> {
    let key = tap_key::<G>(source, channel);
    if any_where(taps, key) {
        taps.update(first_where(taps, key), ChannelPull { source_id: source, channel, gain_db: gain })
    } else {
        taps
    }
}

/// The gain of the first tap on `(source, channel)`, if there is one.
pub open spec fn tap_gain<G>(taps: Seq<ChannelPull<G>>, source: SourceId, channel: u32) -> Option<G> {
    let key = tap_key::<G>(source, channel);
    if any_where(taps, key) {
        Some(taps[first_where(taps, key)].gain_db)
    } else {
        None
    }
}

/// Index of the first tap on `(source, channel)`, or `None` when it is not tapped.
pub fn find_tap<G: Copy>(taps: &Vec<ChannelPull<G>>, source: SourceId, channel: u32) -> (r: Option<usize>)
    ensures
        match r {
            Some(i) => is_first_where(taps@, tap_key::<G>(source, channel), i as int),
            None => !any_where(taps@, tap_key::<G>(source, channel)),
        },
{
    let mut i: usize = 0;
    while i < taps.len()
        invariant
            i <= taps@.len(),
            forall|j: int| 0 <= j < i ==> !tap_key::<G>(source, channel)(#[trigger] taps@[j]),
        decreases taps@.len() - i,
    {
        if taps[i].source_id == source && taps[i].channel == channel {
            return Some(i);
        }
        i += 1;
    }
    None
}

/// Connect `pull`, replacing the first tap on the same `(source, channel)`.
pub fn connect_tap<G: Copy>(taps: &mut Vec<ChannelPull<G>>, pull: ChannelPull<G>)
    ensures
        final(taps)@ == connected(old(taps)@, pull),
{
    match find_tap(taps, pull.source_id, pull.channel) {
        Some(i) => {
            proof {
                lemma_first_where(taps@, tap_key::<G>(pull.source_id, pull.channel), i as int);
            }
            taps.set(i, pull);
        },
        None => {
            taps.push(pull);
        },
    }
}

/// Set the gain of the first tap on `(source, channel)`; no-op when absent.
pub fn regain_tap<G: Copy>(taps: &mut Vec<ChannelPull<G>>, source: SourceId, channel: u32, gain: G)
    ensures
        final(taps)@ == regained(old(taps)@, source, channel, gain),
{
    match find_tap(taps, source, channel) {
        Some(i) => {
            proof {
                lemma_first_where(taps@, tap_key::<G>(source, channel), i as int);
            }
            taps.set(i, ChannelPull { source_id: source, channel, gain_db: gain });
        },
        None => {},
    }
}

/// Remove every tap on `(source, channel)`, keeping the others in order.
pub fn disconnect_taps<G: Copy>(taps: &mut Vec<ChannelPull<G>>, source: SourceId, channel: u32)
    ensures
        final(taps)@ == old(taps)@.filter(other_tap::<G>(source, channel)),
{
    let ghost old_taps = taps@;
    let mut kept: Vec<ChannelPull<G>> = Vec::new();
    let mut i: usize = 0;
    while i < taps.len()
        invariant
            taps@ == old_taps,
            i <= old_taps.len(),
            kept@ == old_taps.take(i as int).filter(other_tap::<G>(source, channel)),
        decreases old_taps.len() - i,
    {
        let p = taps[i];
        proof {
            let t = old_taps.take(i + 1);
            reveal_with_fuel(Seq::filter, 1);
            assert(t.drop_last() =~= old_taps.take(i as int));
            assert(t.last() == p);
            assert(t.filter(other_tap::<G>(source, channel)) == (if other_tap::<G>(source, channel)(p) {
                old_taps.take(i as int).filter(other_tap::<G>(source, channel)).push(p)
            } else {
                old_taps.take(i as int).filter(other_tap::<G>(source, channel))
            }));
        }
        if !(p.source_id == source && p.channel == channel) {
            kept.push(p);
        }
        i += 1;
    }
    assert(old_taps.take(old_taps.len() as int) =~= old_taps);
    *taps = kept;
}

/// Remove every tap that reads `source`, keeping the others in order.
pub fn drop_source_taps<G: Copy>(taps: &mut Vec<ChannelPull<G>>, source: SourceId)
    ensures
        final(taps)@ == old(taps)@.filter(other_source::<G>(source)),
{
    let ghost old_taps = taps@;
    let mut kept: Vec<ChannelPull<G>> = Vec::new();
    let mut i: usize = 0;
    while i < taps.len()
        invariant
            taps@ == old_taps,
            i <= old_taps.len(),
            kept@ == old_taps.take(i as int).filter(other_source::<G>(source)),
        decreases old_taps.len() - i,
    {
        let p = taps[i];
        proof {
            let t = old_taps.take(i + 1);
            reveal_with_fuel(Seq::filter, 1);
            assert(t.drop_last() =~= old_taps.take(i as int));
            assert(t.last() == p);
            assert(t.filter(other_source::<G>(source)) == (if other_source::<G>(source)(p) {
                old_taps.take(i as int).filter(other_source::<G>(source)).push(p)
            } else {
                old_taps.take(i as int).filter(other_source::<G>(source))
            }));
        }
        if p.source_id != source {
            kept.push(p);
        }
        i += 1;
    }
    assert(old_taps.take(old_taps.len() as int) =~= old_taps);
    *taps = kept;
}

} // verus!

verus! {

/// After connecting a pull, its `(source, channel)` reads back the pull's gain.
pub proof fn lemma_connect_then_gain<G>(taps: Seq<ChannelPull<G>>, pull: ChannelPull<G>)
    ensures
        tap_gain(connected(taps, pull), pull.source_id, pull.channel) == Some(pull.gain_db),
{
    let key = tap_key::<G>(pull.source_id, pull.channel);
    let after = connected(taps, pull);
    if any_where(taps, key) {
        lemma_first_exists(taps, key);
        let i = first_where(taps, key);
        assert(is_first_where(taps, key, i));
        assert(is_first_where(after, key, i));
        lemma_first_where(after, key, i);
    } else {
        let i = taps.len() as int;
        assert forall|j: int| 0 <= j < i implies !key(#[trigger] after[j]) by {
            assert(after[j] == taps[j]);
        }
        assert(is_first_where(after, key, i));
        lemma_first_where(after, key, i);
    }
}

/// Connecting a pull never adds a second tap on the same `(source, channel)`:
/// the list grows by one only when that pair was not tapped, and keeps its
/// length (replacing the tap in place) when it was.
pub proof fn lemma_connect_dedupes<G>(taps: Seq<ChannelPull<G>>, pull: ChannelPull<G>)
    ensures
        any_where(taps, tap_key::<G>(pull.source_id, pull.channel)) ==> connected(taps, pull).len() == taps.len(),
        !any_where(taps, tap_key::<G>(pull.source_id, pull.channel)) ==> connected(taps, pull).len() == taps.len() + 1,
        forall|j: int| 0 <= j < taps.len() && !tap_key::<G>(pull.source_id, pull.channel)(#[trigger] taps[j])
            ==> connected(taps, pull)[j] == taps[j],
{
    let key = tap_key::<G>(pull.source_id, pull.channel);
    if any_where(taps, key) {
        lemma_first_exists(taps, key);
        let i = first_where(taps, key);
        assert(is_first_where(taps, key, i));
    }
}

/// Connecting the same `(source, channel)` twice is the same as connecting
/// it once with the second pull: the later gain wins and nothing stacks.
pub proof fn lemma_connect_twice<G>(taps: Seq<ChannelPull<G>>, first: ChannelPull<G>, second: ChannelPull<G>)
    requires
        first.source_id == second.source_id,
        first.channel == second.channel,
    ensures
        connected(connected(taps, first), second) == connected(taps, second),
{
    let key = tap_key::<G>(first.source_id, first.channel);
    let once = connected(taps, first);
    if any_where(taps, key) {
        lemma_first_exists(taps, key);
        let i = first_where(taps, key);
        assert(is_first_where(taps, key, i));
        assert(is_first_where(once, key, i));
        lemma_first_where(once, key, i);
        assert(connected(once, second) =~= connected(taps, second));
    } else {
        let i = taps.len() as int;
        assert forall|j: int| 0 <= j < i implies !key(#[trigger] once[j]) by {
            assert(once[j] == taps[j]);
        }
        assert(is_first_where(once, key, i));
        lemma_first_where(once, key, i);
        assert(connected(once, second) =~= connected(taps, second));
    }
}

/// After disconnecting a `(source, channel)` no tap on it remains, and every
/// other tap is kept.
pub proof fn lemma_disconnect_removes<G>(taps: Seq<ChannelPull<G>>, source: SourceId, channel: u32)
    ensures
        !any_where(taps.filter(other_tap::<G>(source, channel)), tap_key::<G>(source, channel)),
        tap_gain(taps.filter(other_tap::<G>(source, channel)), source, channel) is None,
        forall|p: ChannelPull<G>| #[trigger] taps.contains(p) && !tap_key::<G>(source, channel)(p)
            ==> taps.filter(other_tap::<G>(source, channel)).contains(p),
{
    let keep = other_tap::<G>(source, channel);
    let kept = taps.filter(keep);
    broadcast use vstd::seq_lib::group_filter_ensures;
    assert forall|j: int| 0 <= j < kept.len() implies !tap_key::<G>(source, channel)(#[trigger] kept[j]) by {
        assert(keep(kept[j]));
    }
}

/// After unloading a source no remaining tap reads it.
pub proof fn lemma_drop_source_removes<G>(taps: Seq<ChannelPull<G>>, source: SourceId)
    ensures
        forall|j: int| 0 <= j < taps.filter(other_source::<G>(source)).len()
            ==> (#[trigger] taps.filter(other_source::<G>(source))[j]).source_id != source,
{
    let keep = other_source::<G>(source);
    let kept = taps.filter(keep);
    broadcast use vstd::seq_lib::group_filter_ensures;
    assert forall|j: int| 0 <= j < kept.len() implies (#[trigger] kept[j]).source_id != source by {
        assert(keep(kept[j]));
    }
}

} // verus!

verus! {

/// Unloading `source` keeps exactly the pulls that read another source: a
/// pull is still there afterwards if and only if it was there before and
/// does not read `source`.
pub proof fn lemma_drop_source_keeps_others<G>(taps: Seq<ChannelPull<G>>, source: SourceId)
    ensures
        forall|p: ChannelPull<G>| #[trigger] taps.filter(other_source::<G>(source)).contains(p)
            <==> (taps.contains(p) && p.source_id != source),
{
    let keep = other_source::<G>(source);
    let kept = taps.filter(keep);
    broadcast use vstd::seq_lib::group_filter_ensures;
    assert forall|p: ChannelPull<G>| #[trigger] kept.contains(p) <==> (taps.contains(p) && p.source_id != source) by {
        if kept.contains(p) {
            let i = choose|i: int| 0 <= i < kept.len() && kept[i] == p;
            assert(keep(kept[i]));
            taps.lemma_filter_contains_rev(keep, p);
        }
        if taps.contains(p) && p.source_id != source {
            let i = choose|i: int| 0 <= i < taps.len() && taps[i] == p;
            taps.lemma_filter_contains(keep, i);
        }
    }
}

/// Setting the gain of `(source, channel)` touches one pull only: the list
/// keeps its length, every pull on another source or another channel is
/// unchanged, and the first pull on `(source, channel)` now carries `gain`.
/// Without such a pull the list is unchanged.
pub proof fn lemma_set_gain_targets_the_tap<G>(taps: Seq<ChannelPull<G>>, source: SourceId, channel: u32, gain: G)
    ensures
        regained(taps, source, channel, gain).len() == taps.len(),
        forall|j: int| 0 <= j < taps.len() && !(taps[j].source_id == source && taps[j].channel == channel)
            ==> #[trigger] regained(taps, source, channel, gain)[j] == taps[j],
        forall|j: int| 0 <= j < taps.len() && taps[j].source_id == source && taps[j].channel == channel
            && (forall|k: int| 0 <= k < j ==> !(taps[k].source_id == source && taps[k].channel == channel))
            ==> #[trigger] regained(taps, source, channel, gain)[j] == (ChannelPull { source_id: source, channel, gain_db: gain }),
        (forall|j: int| 0 <= j < taps.len() ==> !(#[trigger] taps[j].source_id == source && taps[j].channel == channel))
            ==> regained(taps, source, channel, gain) == taps,
{
    let key = tap_key::<G>(source, channel);
    let after = regained(taps, source, channel, gain);
    if any_where(taps, key) {
        lemma_first_exists(taps, key);
        let i = first_where(taps, key);
        assert forall|j: int| 0 <= j < taps.len() && taps[j].source_id == source && taps[j].channel == channel
            && (forall|k: int| 0 <= k < j ==> !(taps[k].source_id == source && taps[k].channel == channel))
            implies #[trigger] after[j] == (ChannelPull { source_id: source, channel, gain_db: gain }) by {
            if i < j {
                assert(key(taps[i]));
            } else if j < i {
                assert(!key(taps[j]));
            }
        }
        assert forall|j: int| 0 <= j < taps.len() && !(taps[j].source_id == source && taps[j].channel == channel)
            implies #[trigger] after[j] == taps[j] by {
            assert(key(taps[i]));
        }
    } else {
        assert forall|j: int| 0 <= j < taps.len() && taps[j].source_id == source && taps[j].channel == channel
            && (forall|k: int| 0 <= k < j ==> !(taps[k].source_id == source && taps[k].channel == channel))
            implies #[trigger] after[j] == (ChannelPull { source_id: source, channel, gain_db: gain }) by {
            assert(key(taps[j]));
        }
    }
}

} // verus!
