//! Triple-buffered parameter exchange between the compute thread and the
//! audio thread.
//!
//! Each source owns three slots with three roles: the producer writes into
//! the *write* slot, publishing swaps it with the *staging* slot, and the
//! consumer's `update` swaps the staging slot into the *read* slot when it
//! holds a publication the consumer has not taken yet. The three roles always
//! name three distinct slots, so the producer never touches the slot the
//! consumer reads. No allocation happens after construction.

use vstd::prelude::*;

verus! {

/// Maximum number of spatial audio sources supported.
pub const MAX_SPATIAL_SOURCES: usize = 32;

/// Abstract state of one source's three slots.
pub struct SourceSlots<T> {
    /// Contents of the slot the producer writes into.
    pub writing: T,
    /// Contents of the slot that holds the latest publication.
    pub staged: T,
    /// Contents of the slot the consumer reads.
    pub reading: T,
    /// Whether the staging slot holds a publication the consumer has not taken.
    pub fresh: bool,
    /// Version stamped on the staging slot's contents.
    pub staged_version: u64,
    /// Version stamped on the read slot's contents.
    pub read_version: u64,
}

/// Abstract state of a [`ParameterTripleBuffer`].
#[verifier::ext_equal]
pub struct TripleBufferView<T> {
    /// Per source, the contents and versions of its slots.
    pub sources: Seq<SourceSlots<T>>,
    /// The version handed out by the most recent publication (zero before any).
    pub latest_version: u64,
}

/// The version stamped by the publication that follows `latest`.
pub open spec fn next_version(latest: u64) -> u64 {
    if latest == u64::MAX { 0 } else { (latest + 1) as u64 }
}

/// Source `s` after the producer stored `value` in its write slot.
pub open spec fn after_write<T>(v: TripleBufferView<T>, s: int, value: T) -> TripleBufferView<T> {
    let old_slots = v.sources[s];
    TripleBufferView {
        sources: v.sources.update(s, SourceSlots { writing: value, ..old_slots }),
        latest_version: v.latest_version,
    }
}

/// State after `end_write(s)`: the written slot becomes the staging slot,
/// stamped with the next version, and the former staging slot becomes the
/// write slot.
pub open spec fn after_end_write<T>(v: TripleBufferView<T>, s: int) -> TripleBufferView<T> {
    let o = v.sources[s];
    let version = next_version(v.latest_version);
    TripleBufferView {
        sources: v.sources.update(
            s,
            SourceSlots {
                writing: o.staged,
                staged: o.writing,
                reading: o.reading,
                fresh: true,
                staged_version: version,
                read_version: o.read_version,
            },
        ),
        latest_version: version,
    }
}

/// One source after `update`: a fresh publication is swapped into the read slot.
pub open spec fn slots_after_update<T>(o: SourceSlots<T>) -> SourceSlots<T> {
    if o.fresh {
        SourceSlots {
            writing: o.writing,
            staged: o.reading,
            reading: o.staged,
            fresh: false,
            staged_version: o.read_version,
            read_version: o.staged_version,
        }
    } else {
        o
    }
}

/// State after `update()`: every source takes its fresh publication.
pub open spec fn after_update<T>(v: TripleBufferView<T>) -> TripleBufferView<T> {
    TripleBufferView {
        sources: Seq::new(v.sources.len(), |s: int| slots_after_update(v.sources[s])),
        latest_version: v.latest_version,
    }
}

/// What the producer stores through `begin_write` and publishes with
/// `end_write` is exactly what the consumer reads after its next `update`,
/// stamped with the version of that publication, whatever state the buffer
/// was in before.
pub proof fn lemma_publish_then_read<T>(v: TripleBufferView<T>, s: int, value: T)
    requires
        0 <= s < v.sources.len(),
    ensures
        ({
            let published = after_end_write(after_write(v, s, value), s);
            let taken = after_update(published);
            &&& taken.sources[s].reading == value
            &&& taken.sources[s].read_version == published.latest_version
            &&& !taken.sources[s].fresh
        }),
{
}

/// Of several publications made between two updates, the consumer reads the
/// last one.
pub proof fn lemma_last_publication_wins<T>(v: TripleBufferView<T>, s: int, first: T, second: T)
    requires
        0 <= s < v.sources.len(),
    ensures
        after_update(
            after_end_write(after_write(after_end_write(after_write(v, s, first), s), s, second), s),
        ).sources[s].reading == second,
{
}

/// An update with nothing new published changes nothing: a second update in
/// a row leaves the buffer as the first one left it, so the consumer never
/// falls back to older data.
pub proof fn lemma_update_without_publication<T>(v: TripleBufferView<T>)
    ensures
        after_update(after_update(v)) == after_update(v),
{
    let once = after_update(v);
    let twice = after_update(once);
    assert(twice.sources =~= once.sources);
}

/// Updates never touch the producer's slot, and a publication on one source
/// leaves every other source as it was.
pub proof fn lemma_roles_are_independent<T>(v: TripleBufferView<T>, s: int, t: int)
    requires
        0 <= s < v.sources.len(),
        0 <= t < v.sources.len(),
        s != t,
    ensures
        after_update(v).sources[s].writing == v.sources[s].writing,
        after_end_write(v, s).sources[t] == v.sources[t],
{
}

/// Lock-free triple-buffered parameter exchange for multiple sources.
///
/// Each source has its own three slots and its own role indices. The
/// producer calls `begin_write(src)` / `end_write(src)` per source; the
/// consumer calls `update()` once per block to take every fresh publication,
/// then `read(src)` for per-source data.
pub struct ParameterTripleBuffer<T> {
    /// Slot `k` of source `s` is `buffers[3 * s + k]`.
    buffers: Vec<T>,
    /// Version stamped on each slot, laid out like `buffers`.
    versions: Vec<u64>,
    write_indices: Vec<u32>,
    read_indices: Vec<u32>,
    staging_indices: Vec<u32>,
    /// Per source: the staging slot holds a publication not yet taken.
    fresh: Vec<bool>,
    /// Version handed out by the most recent publication.
    latest_version: u64,
}

impl<T> View for ParameterTripleBuffer<T> {
    type V = TripleBufferView<T>;

    closed spec fn view(&self) -> TripleBufferView<T> {
        TripleBufferView {
            sources: Seq::new(
                self.write_indices@.len(),
                |s: int| SourceSlots {
                    writing: self.buffers@[3 * s + self.write_indices@[s]],
                    staged: self.buffers@[3 * s + self.staging_indices@[s]],
                    reading: self.buffers@[3 * s + self.read_indices@[s]],
                    fresh: self.fresh@[s],
                    staged_version: self.versions@[3 * s + self.staging_indices@[s]],
                    read_version: self.versions@[3 * s + self.read_indices@[s]],
                },
            ),
            latest_version: self.latest_version,
        }
    }
}

impl<T> ParameterTripleBuffer<T> {
    /// The three role indices of every source name three distinct slots, and
    /// the slot storage matches the number of sources.
    pub closed spec fn wf(&self) -> bool {
        let n = self.write_indices@.len();
        &&& self.read_indices@.len() == n
        &&& self.staging_indices@.len() == n
        &&& self.fresh@.len() == n
        &&& self.buffers@.len() == 3 * n
        &&& self.versions@.len() == 3 * n
        &&& forall|s: int| 0 <= s < n ==> {
            &&& #[trigger] self.write_indices@[s] < 3
            &&& self.read_indices@[s] < 3
            &&& self.staging_indices@[s] < 3
            &&& self.write_indices@[s] != self.read_indices@[s]
            &&& self.write_indices@[s] != self.staging_indices@[s]
            &&& self.read_indices@[s] != self.staging_indices@[s]
        }
    }

    /// Create a triple buffer with `num_sources` sources, every slot holding a
    /// clone of `initial`, nothing published and every version zero.
    pub fn new(num_sources: usize, initial: T) -> (r: Self)
        where T: Clone
        requires
            num_sources <= usize::MAX / 3,
        ensures
            r.wf(),
            r@.sources.len() == num_sources,
            r@.latest_version == 0,
            forall|s: int| 0 <= s < num_sources ==> {
                &&& cloned(initial, (#[trigger] r@.sources[s]).writing)
                &&& cloned(initial, r@.sources[s].staged)
                &&& cloned(initial, r@.sources[s].reading)
                &&& !r@.sources[s].fresh
                &&& r@.sources[s].staged_version == 0
                &&& r@.sources[s].read_version == 0
            },
    {
        let mut buffers: Vec<T> = Vec::new();
        let mut versions: Vec<u64> = Vec::new();
        let mut write_indices: Vec<u32> = Vec::new();
        let mut read_indices: Vec<u32> = Vec::new();
        let mut staging_indices: Vec<u32> = Vec::new();
        let mut fresh: Vec<bool> = Vec::new();
        let mut i: usize = 0;
        while i < num_sources
            invariant
                i <= num_sources <= usize::MAX / 3,
                buffers@.len() == 3 * i,
                versions@.len() == 3 * i,
                write_indices@.len() == i,
                read_indices@.len() == i,
                staging_indices@.len() == i,
                fresh@.len() == i,
                forall|j: int| 0 <= j < 3 * i ==> cloned(initial, #[trigger] buffers@[j]),
                forall|j: int| 0 <= j < 3 * i ==> #[trigger] versions@[j] == 0,
                forall|s: int| 0 <= s < i ==> {
                    &&& #[trigger] write_indices@[s] == 0
                    &&& read_indices@[s] == 1
                    &&& staging_indices@[s] == 2
                    &&& !fresh@[s]
                },
            decreases num_sources - i,
        {
            buffers.push(initial.clone());
            buffers.push(initial.clone());
            buffers.push(initial.clone());
            versions.push(0);
            versions.push(0);
            versions.push(0);
            write_indices.push(0);
            read_indices.push(1);
            staging_indices.push(2);
            fresh.push(false);
            i += 1;
        }
        let r = ParameterTripleBuffer {
            buffers,
            versions,
            write_indices,
            read_indices,
            staging_indices,
            fresh,
            latest_version: 0,
        };
        assert forall|s: int| 0 <= s < num_sources implies {
            &&& cloned(initial, (#[trigger] r@.sources[s]).writing)
            &&& cloned(initial, r@.sources[s].staged)
            &&& cloned(initial, r@.sources[s].reading)
            &&& !r@.sources[s].fresh
            &&& r@.sources[s].staged_version == 0
            &&& r@.sources[s].read_version == 0
        } by {
            assert(r.write_indices@[s] == 0);
            assert(cloned(initial, r.buffers@[3 * s]));
            assert(cloned(initial, r.buffers@[3 * s + 1]));
            assert(cloned(initial, r.buffers@[3 * s + 2]));
            assert(r.versions@[3 * s + 1] == 0);
            assert(r.versions@[3 * s + 2] == 0);
        }
        r
    }

    /// Number of sources.
    pub fn num_sources(&self) -> (r: usize)
        requires
            self.wf(),
        ensures
            r == self@.sources.len(),
    {
        self.write_indices.len()
    }

    /// Begin writing to the producer slot of a source. The returned reference
    /// points at the slot's current contents; whatever is stored through it is
    /// what `end_write` publishes.
    pub fn begin_write(&mut self, source_id: usize) -> (r: &mut T)
        requires
            old(self).wf(),
            source_id < old(self)@.sources.len(),
        ensures
            final(self).wf(),
            *r == old(self)@.sources[source_id as int].writing,
            final(self)@ == after_write(old(self)@, source_id as int, *final(r)),
    {
        let idx = self.write_indices[source_id] as usize;
        let total = self.buffers.len();
        assert(self.write_indices@[source_id as int] < 3);
        let slot = 3 * source_id + idx;
        &mut self.buffers[slot]
    }

    /// Position of slot `k` of source `s` in the slot storage.
    fn slot_index(&self, s: usize, k: u32) -> (r: usize)
        requires
            self.wf(),
            s < self@.sources.len(),
            k < 3,
        ensures
            r == 3 * s + k,
            r < self.buffers@.len(),
    {
        let total = self.buffers.len();
        3 * s + k as usize
    }

    /// Finish writing and publish the write slot of a source: it becomes the
    /// staging slot, stamped with the next version, and the former staging
    /// slot becomes the write slot.
    pub fn end_write(&mut self, source_id: usize)
        requires
            old(self).wf(),
            source_id < old(self)@.sources.len(),
        ensures
            final(self).wf(),
            final(self)@ == after_end_write(old(self)@, source_id as int),
    {
        let w = self.write_indices[source_id];
        let st = self.staging_indices[source_id];
        assert(w < 3);
        let version = self.latest_version.wrapping_add(1);
        let slot = self.slot_index(source_id, w);
        let ghost before = *self;
        self.versions.set(slot, version);
        self.staging_indices.set(source_id, w);
        self.write_indices.set(source_id, st);
        self.fresh.set(source_id, true);
        self.latest_version = version;
        let ghost n = self.write_indices@.len();
        assert forall|j: int| 0 <= j < n implies #[trigger] self@.sources[j] == after_end_write(before@, source_id as int).sources[j] by {
            if j != source_id {
                assert(before.write_indices@[j] < 3);
                assert(self.versions@[3 * j + self.staging_indices@[j]] == before.versions@[3 * j + before.staging_indices@[j]]);
                assert(self.versions@[3 * j + self.read_indices@[j]] == before.versions@[3 * j + before.read_indices@[j]]);
            } else {
                assert(self.versions@[3 * j + self.read_indices@[j]] == before.versions@[3 * j + before.read_indices@[j]]);
            }
        }
        assert(self@ =~= after_end_write(before@, source_id as int));
    }

    /// Take every fresh publication: for each source whose staging slot holds
    /// data not yet taken, swap it into the read slot. Sources with nothing
    /// new keep reading what they read before.
    pub fn update(&mut self)
        requires
            old(self).wf(),
        ensures
            final(self).wf(),
            final(self)@ == after_update(old(self)@),
    {
        let ghost before = *self;
        let n = self.write_indices.len();
        let mut s: usize = 0;
        while s < n
            invariant
                before.wf(),
                self.wf(),
                n == before.write_indices@.len(),
                s <= n,
                self.buffers@ == before.buffers@,
                self.versions@ == before.versions@,
                self.write_indices@ == before.write_indices@,
                self.latest_version == before.latest_version,
                forall|j: int| 0 <= j < s ==> if #[trigger] before.fresh@[j] {
                    &&& self.read_indices@[j] == before.staging_indices@[j]
                    &&& self.staging_indices@[j] == before.read_indices@[j]
                    &&& !self.fresh@[j]
                } else {
                    &&& self.read_indices@[j] == before.read_indices@[j]
                    &&& self.staging_indices@[j] == before.staging_indices@[j]
                    &&& self.fresh@[j] == before.fresh@[j]
                },
                forall|j: int| s <= j < n ==> {
                    &&& self.read_indices@[j] == #[trigger] before.read_indices@[j]
                    &&& self.staging_indices@[j] == before.staging_indices@[j]
                    &&& self.fresh@[j] == before.fresh@[j]
                },
            decreases n - s,
        {
            let ghost prev = *self;
            assert(self.read_indices@[s as int] == before.read_indices@[s as int]);
            if self.fresh[s] {
                let staging = self.staging_indices[s];
                let read = self.read_indices[s];
                self.read_indices.set(s, staging);
                self.staging_indices.set(s, read);
                self.fresh.set(s, false);
            }
            assert forall|j: int| 0 <= j < n && j != s implies {
                &&& self.read_indices@[j] == prev.read_indices@[j]
                &&& self.staging_indices@[j] == prev.staging_indices@[j]
                &&& self.fresh@[j] == prev.fresh@[j]
            } by {}
            s += 1;
        }
        assert forall|j: int| 0 <= j < n implies #[trigger] self@.sources[j] == after_update(before@).sources[j] by {
            assert(self.read_indices@[j] == self.read_indices@[j]);
        }
        assert(self@ =~= after_update(before@));
    }

    /// Read the current data of a source (what the last `update` took).
    pub fn read(&self, source_id: usize) -> (r: &T)
        requires
            self.wf(),
            source_id < self@.sources.len(),
        ensures
            *r == self@.sources[source_id as int].reading,
    {
        let idx = self.read_indices[source_id];
        assert(self.write_indices@[source_id as int] < 3);
        let slot = self.slot_index(source_id, idx);
        &self.buffers[slot]
    }

    /// Version stamped on the data a source currently reads.
    pub fn read_version(&self, source_id: usize) -> (r: u64)
        requires
            self.wf(),
            source_id < self@.sources.len(),
        ensures
            r == self@.sources[source_id as int].read_version,
    {
        let idx = self.read_indices[source_id];
        assert(self.write_indices@[source_id as int] < 3);
        let slot = self.slot_index(source_id, idx);
        self.versions[slot]
    }

    /// Number of published versions so far, wrapping after `u64::MAX`.
    pub fn latest_version(&self) -> (r: u64)
        ensures
            r == self@.latest_version,
    {
        self.latest_version
    }
}

} // verus!
