//! The engine's content registry: loaded sources, scene outputs with their
//! patch-bay pulls, and listeners.
//!
//! Each kind hands out ids from its own counter, starting at zero; ids are
//! never reused. Removing an entry keeps the order of the others. Unloading a
//! source also removes every pull that reads it.

use vstd::prelude::*;

use crate::error::SpatialAudioError;
use crate::ids::{find_id, id_list_wf, index_of_id, lemma_index_of_id, lemma_push_next, lemma_remove_keeps_wf};
use crate::scene_output::{ChannelPull, ListenerConfig, ListenerId, SceneOutputConfig, SceneOutputId, SourceConfig, SourceId};
use crate::taps::{connect_tap, connected, disconnect_taps, drop_source_taps, lemma_drop_source_removes, other_source, other_tap, regain_tap, regained};

verus! {

/// Registry of sources, scene outputs and listeners.
pub struct SceneRegistry<F> {
    source_ids: Vec<u32>,
    sources: Vec<SourceConfig>,
    next_source: u32,
    output_ids: Vec<u32>,
    outputs: Vec<SceneOutputConfig<F>>,
    next_output: u32,
    listener_ids: Vec<u32>,
    listeners: Vec<ListenerConfig<F>>,
    next_listener: u32,
}

/// Abstract state of a [`SceneRegistry`]: each kind's live ids and
/// configurations in insertion order, and the id its counter hands out next.
pub struct SceneRegistryView<F> {
    pub source_ids: Seq<u32>,
    pub sources: Seq<SourceConfig>,
    pub next_source: u32,
    pub output_ids: Seq<u32>,
    pub outputs: Seq<SceneOutputConfig<F>>,
    pub next_output: u32,
    pub listener_ids: Seq<u32>,
    pub listeners: Seq<ListenerConfig<F>>,
    pub next_listener: u32,
}

impl<F> View for SceneRegistry<F> {
    type V = SceneRegistryView<F>;

    closed spec fn view(&self) -> SceneRegistryView<F> {
        SceneRegistryView {
            source_ids: self.source_ids@,
            sources: self.sources@,
            next_source: self.next_source,
            output_ids: self.output_ids@,
            outputs: self.outputs@,
            next_output: self.next_output,
            listener_ids: self.listener_ids@,
            listeners: self.listeners@,
            next_listener: self.next_listener,
        }
    }
}

/// Sources and their counter are the same in both states.
pub open spec fn sources_unchanged<F>(a: SceneRegistryView<F>, b: SceneRegistryView<F>) -> bool {
    a.source_ids == b.source_ids && a.sources == b.sources && a.next_source == b.next_source
}

/// Scene outputs and their counter are the same in both states.
pub open spec fn outputs_unchanged<F>(a: SceneRegistryView<F>, b: SceneRegistryView<F>) -> bool {
    a.output_ids == b.output_ids && a.outputs == b.outputs && a.next_output == b.next_output
}

/// Listeners and their counter are the same in both states.
pub open spec fn listeners_unchanged<F>(a: SceneRegistryView<F>, b: SceneRegistryView<F>) -> bool {
    a.listener_ids == b.listener_ids && a.listeners == b.listeners && a.next_listener == b.next_listener
}

/// Two scene output configurations agree on everything but their pulls.
pub open spec fn same_but_pulls<F>(a: SceneOutputConfig<F>, b: SceneOutputConfig<F>) -> bool {
    a.position == b.position && a.orientation == b.orientation && a.directivity == b.directivity
        && a.movability == b.movability
}

/// `b` is `a` with the pulls of the output at position `k` replaced by `pulls`.
pub open spec fn outputs_with_pulls<F>(
    a: Seq<SceneOutputConfig<F>>,
    b: Seq<SceneOutputConfig<F>>,
    k: int,
    pulls: Seq<ChannelPull<F>>,
) -> bool {
    &&& b.len() == a.len()
    &&& forall|j: int| 0 <= j < a.len() && j != k ==> b[j] == a[j]
    &&& same_but_pulls(b[k], a[k])
    &&& b[k].pulls@ == pulls
}

/// The taps that the pulls `pulls` make on the loaded sources listed by
/// `source_ids`, in order: for each pull on a loaded source, the source's
/// position, the channel and the pull's gain. Pulls on sources that are not
/// loaded make no tap.
pub open spec fn resolved_taps<F>(source_ids: Seq<u32>, pulls: Seq<ChannelPull<F>>) -> Seq<(usize, u32, F)>
    decreases pulls.len(),
{
    if pulls.len() == 0 {
        Seq::empty()
    } else {
        let before = resolved_taps(source_ids, pulls.drop_last());
        let p = pulls.last();
        if source_ids.contains(p.source_id.0) {
            before.push((index_of_id(source_ids, p.source_id.0) as usize, p.channel, p.gain_db))
        } else {
            before
        }
    }
}

/// Drop every pull that reads `source` from each of `outputs`.
fn drop_source_everywhere<F: Copy>(outputs: &mut Vec<SceneOutputConfig<F>>, source: SourceId)
    ensures
        final(outputs)@.len() == old(outputs)@.len(),
        forall|j: int| 0 <= j < old(outputs)@.len() ==> {
            &&& same_but_pulls(#[trigger] final(outputs)@[j], old(outputs)@[j])
            &&& final(outputs)@[j].pulls@ == old(outputs)@[j].pulls@.filter(other_source::<F>(source))
        },
{
    let ghost old_outputs = outputs@;
    let n = outputs.len();
    let mut j: usize = 0;
    while j < n
        invariant
            n == old_outputs.len(),
            outputs@.len() == n,
            j <= n,
            forall|i: int| 0 <= i < j ==> {
                &&& same_but_pulls(#[trigger] outputs@[i], old_outputs[i])
                &&& outputs@[i].pulls@ == old_outputs[i].pulls@.filter(other_source::<F>(source))
            },
            forall|i: int| j <= i < n ==> #[trigger] outputs@[i] == old_outputs[i],
        decreases n - j,
    {
        let mut cfg = outputs.remove(j);
        drop_source_taps(&mut cfg.pulls, source);
        outputs.insert(j, cfg);
        j += 1;
    }
}

impl<F: Copy> SceneRegistry<F> {
    /// Internal consistency: parallel lists agree in length and every id list
    /// is strictly increasing and below its counter.
    pub closed spec fn wf(&self) -> bool {
        &&& self.source_ids@.len() == self.sources@.len()
        &&& self.output_ids@.len() == self.outputs@.len()
        &&& self.listener_ids@.len() == self.listeners@.len()
        &&& id_list_wf(self.source_ids@, self.next_source)
        &&& id_list_wf(self.output_ids@, self.next_output)
        &&& id_list_wf(self.listener_ids@, self.next_listener)
    }

    /// Ids are unique and never handed out twice: each kind's live ids are
    /// strictly increasing and all below that kind's counter, and there is
    /// one configuration per live id.
    pub proof fn lemma_ids_unique_and_fresh(&self)
        requires
            self.wf(),
        ensures
            self@.source_ids.len() == self@.sources.len(),
            self@.output_ids.len() == self@.outputs.len(),
            self@.listener_ids.len() == self@.listeners.len(),
            id_list_wf(self@.source_ids, self@.next_source),
            id_list_wf(self@.output_ids, self@.next_output),
            id_list_wf(self@.listener_ids, self@.next_listener),
    {
    }

    /// An empty registry; every counter starts at zero.
    pub fn new() -> (r: Self)
        ensures
            r.wf(),
            r@.source_ids.len() == 0 && r@.sources.len() == 0 && r@.next_source == 0,
            r@.output_ids.len() == 0 && r@.outputs.len() == 0 && r@.next_output == 0,
            r@.listener_ids.len() == 0 && r@.listeners.len() == 0 && r@.next_listener == 0,
    {
        SceneRegistry {
            source_ids: Vec::new(),
            sources: Vec::new(),
            next_source: 0,
            output_ids: Vec::new(),
            outputs: Vec::new(),
            next_output: 0,
            listener_ids: Vec::new(),
            listeners: Vec::new(),
            next_listener: 0,
        }
    }

    // ── Sources ──────────────────────────────────────────────────────

    /// Load a source. A source without channels is rejected with
    /// `InvalidScene`; once the id counter is exhausted every load fails with
    /// `General`. Otherwise the source gets the next id.
    pub fn load_source(&mut self, cfg: SourceConfig) -> (r: Result<SourceId, SpatialAudioError>)
        requires
            old(self).wf(),
        ensures
            final(self).wf(),
            cfg.channels == 0 ==> (r matches Err(SpatialAudioError::InvalidScene(_))) && final(self)@ == old(self)@,
            cfg.channels > 0 && old(self)@.next_source == u32::MAX ==> (r matches Err(SpatialAudioError::General(_)))
                && final(self)@ == old(self)@,
            cfg.channels > 0 && old(self)@.next_source < u32::MAX ==> {
                &&& r == Ok::<SourceId, SpatialAudioError>(SourceId(old(self)@.next_source))
                &&& final(self)@.source_ids == old(self)@.source_ids.push(old(self)@.next_source)
                &&& final(self)@.sources == old(self)@.sources.push(cfg)
                &&& final(self)@.next_source == old(self)@.next_source + 1
                &&& outputs_unchanged(final(self)@, old(self)@)
                &&& listeners_unchanged(final(self)@, old(self)@)
            },
    {
        if cfg.channels == 0 {
            return Err(SpatialAudioError::InvalidScene("a source must carry at least one channel".to_owned()));
        }
        if self.next_source == u32::MAX {
            return Err(SpatialAudioError::General("source id space exhausted".to_owned()));
        }
        let id = self.next_source;
        proof {
            lemma_push_next(self.source_ids@, id);
        }
        self.source_ids.push(id);
        self.sources.push(cfg);
        self.next_source = id + 1;
        Ok(SourceId(id))
    }

    /// Position of a source in [`Self::sources`], or `None` if `id` is not loaded.
    pub fn source_index(&self, id: SourceId) -> (r: Option<usize>)
        requires
            self.wf(),
        ensures
            match r {
                Some(i) => i < self@.sources.len() && self@.source_ids[i as int] == id.0
                    && index_of_id(self@.source_ids, id.0) == i,
                None => !self@.source_ids.contains(id.0),
            },
    {
        let r = find_id(&self.source_ids, id.0);
        if let Some(i) = r {
            proof {
                lemma_index_of_id(self.source_ids@, id.0, i as int);
            }
        }
        r
    }

    /// Whether `id` names a loaded source.
    pub fn has_source(&self, id: SourceId) -> (r: bool)
        requires
            self.wf(),
        ensures
            r == self@.source_ids.contains(id.0),
    {
        self.source_index(id).is_some()
    }

    /// Unload a source and drop every pull, on every scene output, that reads it.
    pub fn unload_source(&mut self, id: SourceId)
        requires
            old(self).wf(),
            old(self)@.source_ids.contains(id.0),
        ensures
            final(self).wf(),
            ({
                let k = index_of_id(old(self)@.source_ids, id.0);
                &&& final(self)@.source_ids == old(self)@.source_ids.remove(k)
                &&& final(self)@.sources == old(self)@.sources.remove(k)
            }),
            !final(self)@.source_ids.contains(id.0),
            final(self)@.next_source == old(self)@.next_source,
            final(self)@.output_ids == old(self)@.output_ids,
            final(self)@.next_output == old(self)@.next_output,
            final(self)@.outputs.len() == old(self)@.outputs.len(),
            forall|j: int| 0 <= j < old(self)@.outputs.len() ==> {
                &&& same_but_pulls(#[trigger] final(self)@.outputs[j], old(self)@.outputs[j])
                &&& final(self)@.outputs[j].pulls@ == old(self)@.outputs[j].pulls@.filter(other_source::<F>(id))
            },
            listeners_unchanged(final(self)@, old(self)@),
    {
        let k = match find_id(&self.source_ids, id.0) {
            Some(k) => k,
            None => {
                return;
            },
        };
        proof {
            lemma_index_of_id(self.source_ids@, id.0, k as int);
            lemma_remove_keeps_wf(self.source_ids@, self.next_source, k as int);
        }
        self.source_ids.remove(k);
        self.sources.remove(k);
        drop_source_everywhere(&mut self.outputs, id);
    }

    /// The loaded sources, in load order.
    pub fn sources(&self) -> (r: &[SourceConfig])
        ensures
            r@ == self@.sources,
    {
        self.sources.as_slice()
    }

    // ── Scene outputs ────────────────────────────────────────────────

    /// Whether the scene output counter can still hand out an id.
    pub fn can_add_scene_output(&self) -> (r: bool)
        ensures
            r == (self@.next_output < u32::MAX),
    {
        self.next_output < u32::MAX
    }

    /// Add a scene output; it gets the next scene output id.
    pub fn add_scene_output(&mut self, cfg: SceneOutputConfig<F>) -> (r: SceneOutputId)
        requires
            old(self).wf(),
            old(self)@.next_output < u32::MAX,
        ensures
            final(self).wf(),
            r == SceneOutputId(old(self)@.next_output),
            final(self)@.output_ids == old(self)@.output_ids.push(old(self)@.next_output),
            final(self)@.outputs == old(self)@.outputs.push(cfg),
            final(self)@.next_output == old(self)@.next_output + 1,
            sources_unchanged(final(self)@, old(self)@),
            listeners_unchanged(final(self)@, old(self)@),
    {
        let id = self.next_output;
        proof {
            lemma_push_next(self.output_ids@, id);
        }
        self.output_ids.push(id);
        self.outputs.push(cfg);
        self.next_output = id + 1;
        SceneOutputId(id)
    }

    /// Position of a scene output in [`Self::scene_outputs`], or `None` if `id` is not live.
    pub fn scene_output_index(&self, id: SceneOutputId) -> (r: Option<usize>)
        requires
            self.wf(),
        ensures
            match r {
                Some(i) => i < self@.outputs.len() && self@.output_ids[i as int] == id.0
                    && index_of_id(self@.output_ids, id.0) == i,
                None => !self@.output_ids.contains(id.0),
            },
    {
        let r = find_id(&self.output_ids, id.0);
        if let Some(i) = r {
            proof {
                lemma_index_of_id(self.output_ids@, id.0, i as int);
            }
        }
        r
    }

    /// Whether `id` names a live scene output.
    pub fn has_scene_output(&self, id: SceneOutputId) -> (r: bool)
        requires
            self.wf(),
        ensures
            r == self@.output_ids.contains(id.0),
    {
        self.scene_output_index(id).is_some()
    }

    /// Remove a scene output together with its pulls.
    pub fn remove_scene_output(&mut self, id: SceneOutputId)
        requires
            old(self).wf(),
            old(self)@.output_ids.contains(id.0),
        ensures
            final(self).wf(),
            ({
                let k = index_of_id(old(self)@.output_ids, id.0);
                &&& final(self)@.output_ids == old(self)@.output_ids.remove(k)
                &&& final(self)@.outputs == old(self)@.outputs.remove(k)
            }),
            !final(self)@.output_ids.contains(id.0),
            final(self)@.next_output == old(self)@.next_output,
            sources_unchanged(final(self)@, old(self)@),
            listeners_unchanged(final(self)@, old(self)@),
    {
        let k = match find_id(&self.output_ids, id.0) {
            Some(k) => k,
            None => {
                return;
            },
        };
        proof {
            lemma_index_of_id(self.output_ids@, id.0, k as int);
            lemma_remove_keeps_wf(self.output_ids@, self.next_output, k as int);
        }
        self.output_ids.remove(k);
        self.outputs.remove(k);
    }

    /// Move a scene output; everything else about it is kept.
    pub fn set_scene_output_position(&mut self, id: SceneOutputId, position: [F; 3])
        requires
            old(self).wf(),
            old(self)@.output_ids.contains(id.0),
        ensures
            final(self).wf(),
            ({
                let k = index_of_id(old(self)@.output_ids, id.0);
                &&& final(self)@.outputs.len() == old(self)@.outputs.len()
                &&& forall|j: int| 0 <= j < old(self)@.outputs.len() && j != k
                    ==> #[trigger] final(self)@.outputs[j] == old(self)@.outputs[j]
                &&& final(self)@.outputs[k].position == position
                &&& final(self)@.outputs[k].orientation == old(self)@.outputs[k].orientation
                &&& final(self)@.outputs[k].directivity == old(self)@.outputs[k].directivity
                &&& final(self)@.outputs[k].movability == old(self)@.outputs[k].movability
                &&& final(self)@.outputs[k].pulls == old(self)@.outputs[k].pulls
            }),
            final(self)@.output_ids == old(self)@.output_ids,
            final(self)@.next_output == old(self)@.next_output,
            sources_unchanged(final(self)@, old(self)@),
            listeners_unchanged(final(self)@, old(self)@),
    {
        let k = match find_id(&self.output_ids, id.0) {
            Some(k) => k,
            None => {
                return;
            },
        };
        proof {
            lemma_index_of_id(self.output_ids@, id.0, k as int);
        }
        let mut cfg = self.outputs.remove(k);
        cfg.position = position;
        self.outputs.insert(k, cfg);
    }

    /// The scene outputs, in creation order.
    pub fn scene_outputs(&self) -> (r: &[SceneOutputConfig<F>])
        ensures
            r@ == self@.outputs,
    {
        self.outputs.as_slice()
    }

    // ── Patch bay ────────────────────────────────────────────────────

    /// The taps of the scene output at position `k` on the loaded sources:
    /// per pull on a loaded source, in order, the source's position in
    /// [`Self::sources`], the channel and the pull's gain; pulls on sources
    /// that are no longer loaded are skipped.
    pub fn output_taps(&self, k: usize) -> (r: Vec<(usize, u32, F)>)
        requires
            self.wf(),
            k < self@.outputs.len(),
        ensures
            r@ == resolved_taps(self@.source_ids, self@.outputs[k as int].pulls@),
    {
        let pulls = &self.outputs[k].pulls;
        let mut r: Vec<(usize, u32, F)> = Vec::new();
        let mut i: usize = 0;
        while i < pulls.len()
            invariant
                self.wf(),
                pulls@ == self@.outputs[k as int].pulls@,
                i <= pulls@.len(),
                r@ == resolved_taps(self@.source_ids, pulls@.take(i as int)),
            decreases pulls@.len() - i,
        {
            let p = pulls[i];
            proof {
                assert(pulls@.take(i + 1).drop_last() =~= pulls@.take(i as int));
                assert(pulls@.take(i + 1).last() == p);
            }
            match self.source_index(p.source_id) {
                Some(idx) => r.push((idx, p.channel, p.gain_db)),
                None => {},
            }
            i += 1;
        }
        assert(pulls@.take(pulls@.len() as int) =~= pulls@);
        r
    }

    /// Connect a pull to a scene output. A pull on an already tapped
    /// `(source, channel)` replaces the first such tap in place (its gain is
    /// updated); otherwise the pull is appended.
    pub fn connect_pull(&mut self, output: SceneOutputId, pull: ChannelPull<F>)
        requires
            old(self).wf(),
            old(self)@.output_ids.contains(output.0),
        ensures
            final(self).wf(),
            ({
                let k = index_of_id(old(self)@.output_ids, output.0);
                outputs_with_pulls(old(self)@.outputs, final(self)@.outputs, k, connected(old(self)@.outputs[k].pulls@, pull))
            }),
            final(self)@.output_ids == old(self)@.output_ids,
            final(self)@.next_output == old(self)@.next_output,
            sources_unchanged(final(self)@, old(self)@),
            listeners_unchanged(final(self)@, old(self)@),
    {
        let k = match find_id(&self.output_ids, output.0) {
            Some(k) => k,
            None => {
                return;
            },
        };
        proof {
            lemma_index_of_id(self.output_ids@, output.0, k as int);
        }
        let mut cfg = self.outputs.remove(k);
        connect_tap(&mut cfg.pulls, pull);
        self.outputs.insert(k, cfg);
    }

    /// Remove every pull of a scene output that taps `channel` of `source`.
    pub fn disconnect_pull(&mut self, output: SceneOutputId, source: SourceId, channel: u32)
        requires
            old(self).wf(),
            old(self)@.output_ids.contains(output.0),
        ensures
            final(self).wf(),
            ({
                let k = index_of_id(old(self)@.output_ids, output.0);
                outputs_with_pulls(
                    old(self)@.outputs,
                    final(self)@.outputs,
                    k,
                    old(self)@.outputs[k].pulls@.filter(other_tap::<F>(source, channel)),
                )
            }),
            final(self)@.output_ids == old(self)@.output_ids,
            final(self)@.next_output == old(self)@.next_output,
            sources_unchanged(final(self)@, old(self)@),
            listeners_unchanged(final(self)@, old(self)@),
    {
        let k = match find_id(&self.output_ids, output.0) {
            Some(k) => k,
            None => {
                return;
            },
        };
        proof {
            lemma_index_of_id(self.output_ids@, output.0, k as int);
        }
        let mut cfg = self.outputs.remove(k);
        disconnect_taps(&mut cfg.pulls, source, channel);
        self.outputs.insert(k, cfg);
    }

    /// Set the gain of the first pull of a scene output that taps `channel`
    /// of `source`; no-op when there is no such pull.
    pub fn set_pull_gain(&mut self, output: SceneOutputId, source: SourceId, channel: u32, gain_db: F)
        requires
            old(self).wf(),
            old(self)@.output_ids.contains(output.0),
        ensures
            final(self).wf(),
            ({
                let k = index_of_id(old(self)@.output_ids, output.0);
                outputs_with_pulls(
                    old(self)@.outputs,
                    final(self)@.outputs,
                    k,
                    regained(old(self)@.outputs[k].pulls@, source, channel, gain_db),
                )
            }),
            final(self)@.output_ids == old(self)@.output_ids,
            final(self)@.next_output == old(self)@.next_output,
            sources_unchanged(final(self)@, old(self)@),
            listeners_unchanged(final(self)@, old(self)@),
    {
        let k = match find_id(&self.output_ids, output.0) {
            Some(k) => k,
            None => {
                return;
            },
        };
        proof {
            lemma_index_of_id(self.output_ids@, output.0, k as int);
        }
        let mut cfg = self.outputs.remove(k);
        regain_tap(&mut cfg.pulls, source, channel, gain_db);
        self.outputs.insert(k, cfg);
    }

    // ── Listeners ────────────────────────────────────────────────────

    /// Whether the listener counter can still hand out an id.
    pub fn can_add_listener(&self) -> (r: bool)
        ensures
            r == (self@.next_listener < u32::MAX),
    {
        self.next_listener < u32::MAX
    }

    /// Add a listener; it gets the next listener id.
    pub fn add_listener(&mut self, cfg: ListenerConfig<F>) -> (r: ListenerId)
        requires
            old(self).wf(),
            old(self)@.next_listener < u32::MAX,
        ensures
            final(self).wf(),
            r == ListenerId(old(self)@.next_listener),
            final(self)@.listener_ids == old(self)@.listener_ids.push(old(self)@.next_listener),
            final(self)@.listeners == old(self)@.listeners.push(cfg),
            final(self)@.next_listener == old(self)@.next_listener + 1,
            sources_unchanged(final(self)@, old(self)@),
            outputs_unchanged(final(self)@, old(self)@),
    {
        let id = self.next_listener;
        proof {
            lemma_push_next(self.listener_ids@, id);
        }
        self.listener_ids.push(id);
        self.listeners.push(cfg);
        self.next_listener = id + 1;
        ListenerId(id)
    }

    /// Position of a listener in [`Self::listeners`], or `None` if `id` is not live.
    pub fn listener_index(&self, id: ListenerId) -> (r: Option<usize>)
        requires
            self.wf(),
        ensures
            match r {
                Some(i) => i < self@.listeners.len() && self@.listener_ids[i as int] == id.0
                    && index_of_id(self@.listener_ids, id.0) == i,
                None => !self@.listener_ids.contains(id.0),
            },
    {
        let r = find_id(&self.listener_ids, id.0);
        if let Some(i) = r {
            proof {
                lemma_index_of_id(self.listener_ids@, id.0, i as int);
            }
        }
        r
    }

    /// Whether `id` names a live listener.
    pub fn has_listener(&self, id: ListenerId) -> (r: bool)
        requires
            self.wf(),
        ensures
            r == self@.listener_ids.contains(id.0),
    {
        self.listener_index(id).is_some()
    }

    /// Remove a listener.
    pub fn remove_listener(&mut self, id: ListenerId)
        requires
            old(self).wf(),
            old(self)@.listener_ids.contains(id.0),
        ensures
            final(self).wf(),
            ({
                let k = index_of_id(old(self)@.listener_ids, id.0);
                &&& final(self)@.listener_ids == old(self)@.listener_ids.remove(k)
                &&& final(self)@.listeners == old(self)@.listeners.remove(k)
            }),
            !final(self)@.listener_ids.contains(id.0),
            final(self)@.next_listener == old(self)@.next_listener,
            sources_unchanged(final(self)@, old(self)@),
            outputs_unchanged(final(self)@, old(self)@),
    {
        let k = match find_id(&self.listener_ids, id.0) {
            Some(k) => k,
            None => {
                return;
            },
        };
        proof {
            lemma_index_of_id(self.listener_ids@, id.0, k as int);
            lemma_remove_keeps_wf(self.listener_ids@, self.next_listener, k as int);
        }
        self.listener_ids.remove(k);
        self.listeners.remove(k);
    }

    /// Move and turn a listener; its device layout is kept.
    pub fn update_listener(&mut self, id: ListenerId, position: [F; 3], heading: [F; 3])
        requires
            old(self).wf(),
            old(self)@.listener_ids.contains(id.0),
        ensures
            final(self).wf(),
            ({
                let k = index_of_id(old(self)@.listener_ids, id.0);
                &&& final(self)@.listeners.len() == old(self)@.listeners.len()
                &&& forall|j: int| 0 <= j < old(self)@.listeners.len() && j != k
                    ==> #[trigger] final(self)@.listeners[j] == old(self)@.listeners[j]
                &&& final(self)@.listeners[k].position == position
                &&& final(self)@.listeners[k].heading == heading
                &&& final(self)@.listeners[k].physical_layout == old(self)@.listeners[k].physical_layout
            }),
            final(self)@.listener_ids == old(self)@.listener_ids,
            final(self)@.next_listener == old(self)@.next_listener,
            sources_unchanged(final(self)@, old(self)@),
            outputs_unchanged(final(self)@, old(self)@),
    {
        let k = match find_id(&self.listener_ids, id.0) {
            Some(k) => k,
            None => {
                return;
            },
        };
        proof {
            lemma_index_of_id(self.listener_ids@, id.0, k as int);
        }
        let mut cfg = self.listeners.remove(k);
        cfg.position = position;
        cfg.heading = heading;
        self.listeners.insert(k, cfg);
    }

    /// The listeners, in creation order.
    pub fn listeners(&self) -> (r: &[ListenerConfig<F>])
        ensures
            r@ == self@.listeners,
    {
        self.listeners.as_slice()
    }
}

} // verus!

verus! {

/// After unloading a source, no pull on any scene output reads it.
pub proof fn lemma_unload_leaves_no_pull<F>(before: Seq<SceneOutputConfig<F>>, after: Seq<SceneOutputConfig<F>>, source: SourceId)
    requires
        after.len() == before.len(),
        forall|j: int| 0 <= j < before.len() ==> (#[trigger] after[j]).pulls@ == before[j].pulls@.filter(other_source::<F>(source)),
    ensures
        forall|j: int, m: int| 0 <= j < after.len() && 0 <= m < after[j].pulls@.len()
            ==> (#[trigger] after[j].pulls@[m]).source_id != source,
{
    assert forall|j: int, m: int| 0 <= j < after.len() && 0 <= m < after[j].pulls@.len()
        implies (#[trigger] after[j].pulls@[m]).source_id != source by {
        lemma_drop_source_removes(before[j].pulls@, source);
    }
}

} // verus!
