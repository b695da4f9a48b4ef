//! Packing of material instances for GPU-side evaluation.
//!
//! Every instance's parameter bytes are appended to one storage buffer, each
//! block padded with zeros to the 16-byte (std430) alignment, and a
//! descriptor per instance records its model, offset and size.

use vstd::prelude::*;

use crate::materials::{MaterialModelId, MaterialParameterBuffer};

verus! {

/// A GPU-compatible material descriptor (mirror of the shader-side struct).
#[derive(Clone, Copy, Debug, PartialEq, Eq, Structural)]
pub struct GpuMaterialDescriptor {
    /// Material model identifier.
    pub model_id: u32,
    /// Byte offset into the parameter storage buffer.
    pub param_offset: u32,
    /// Byte size of the parameter block.
    pub param_size: u32,
    /// Padding for 16-byte alignment.
    pub _pad: u32,
}

/// Size in bytes of one descriptor: four 32-bit words.
pub const GPU_DESCRIPTOR_BYTES: usize = 16;

/// Alignment requirement for GPU storage buffer parameters (16 bytes, std430).
pub const GPU_ALIGNMENT: usize = 16;

/// Minimal info needed for GPU layout building.
pub struct MaterialInstanceInfo {
    /// Material model identifier.
    pub model_id: MaterialModelId,
    /// Parameter payload for the material instance.
    pub parameters: MaterialParameterBuffer,
}

/// Zero bytes needed after `len` bytes to reach the next multiple of the alignment.
pub open spec fn padding_after(len: int) -> int {
    if len % 16 == 0 { 0 } else { 16 - len % 16 }
}

/// The storage buffer for parameter blocks `blocks`: each block appended in
/// order, then zero-padded to the alignment.
pub open spec fn packed_storage(blocks: Seq<Seq<u8>>) -> Seq<u8>
    decreases blocks.len(),
{
    if blocks.len() == 0 {
        Seq::empty()
    } else {
        let p = packed_storage(blocks.drop_last()) + blocks.last();
        p + Seq::new(padding_after(p.len() as int) as nat, |i: int| 0u8)
    }
}

/// The parameter blocks of `infos`, in order.
pub open spec fn parameter_blocks(infos: Seq<MaterialInstanceInfo>) -> Seq<Seq<u8>> {
    infos.map_values(|i: MaterialInstanceInfo| i.parameters@)
}

/// The descriptor of instance `i` of `infos`: its model, the offset at which
/// its block starts in the packed storage, and the block's size.
pub open spec fn descriptor_of(infos: Seq<MaterialInstanceInfo>, i: int) -> GpuMaterialDescriptor {
    GpuMaterialDescriptor {
        model_id: infos[i].model_id.0,
        param_offset: packed_storage(parameter_blocks(infos).take(i)).len() as u32,
        param_size: infos[i].parameters@.len() as u32,
        _pad: 0,
    }
}

/// Packing a prefix of the blocks never needs more room than packing all of them.
proof fn lemma_packed_prefix(blocks: Seq<Seq<u8>>, k: int)
    requires
        0 <= k <= blocks.len(),
    ensures
        packed_storage(blocks.take(k)).len() + (if k < blocks.len() { blocks[k].len() } else { 0 }) <= packed_storage(blocks).len(),
    decreases blocks.len() - k,
{
    if k < blocks.len() {
        lemma_packed_prefix(blocks, k + 1);
        assert(blocks.take(k + 1).drop_last() =~= blocks.take(k));
        assert(blocks.take(k + 1).last() == blocks[k]);
    } else {
        assert(blocks.take(k) =~= blocks);
    }
}

/// Describes the layout of material data on the GPU.
pub struct GpuMaterialLayout {
    /// All material parameter buffers concatenated into one byte array.
    pub parameter_storage: Vec<u8>,
    /// One descriptor per material instance.
    pub descriptors: Vec<GpuMaterialDescriptor>,
}

impl GpuMaterialLayout {
    /// Build the GPU material layout of `instances`: the packed parameter
    /// storage and one descriptor per instance, in order.
    pub fn build(instances: &[MaterialInstanceInfo]) -> (r: Self)
        ensures
            r.parameter_storage@ == packed_storage(parameter_blocks(instances@)),
            r.descriptors@.len() == instances@.len(),
            forall|i: int| 0 <= i < instances@.len() ==> #[trigger] r.descriptors@[i] == descriptor_of(instances@, i),
    {
        let ghost blocks = parameter_blocks(instances@);
        let mut storage: Vec<u8> = Vec::new();
        let mut descriptors: Vec<GpuMaterialDescriptor> = Vec::new();
        let mut i: usize = 0;
        while i < instances.len()
            invariant
                blocks == parameter_blocks(instances@),
                blocks.len() == instances@.len(),
                i <= instances@.len(),
                storage@ == packed_storage(blocks.take(i as int)),
                descriptors@.len() == i,
                forall|j: int| 0 <= j < i ==> #[trigger] descriptors@[j] == descriptor_of(instances@, j),
            decreases instances@.len() - i,
        {
            let info = &instances[i];
            proof {
                lemma_packed_prefix(blocks, i as int);
                assert(blocks[i as int] == info.parameters@);
            }
            let param_offset = storage.len() as u32;
            let param_size = info.parameters.data.len() as u32;
            let ghost before = storage@;
            let mut k: usize = 0;
            while k < info.parameters.data.len()
                invariant
                    k <= info.parameters@.len(),
                    storage@ == before + info.parameters@.take(k as int),
                decreases info.parameters@.len() - k,
            {
                storage.push(info.parameters.data[k]);
                k += 1;
                assert(storage@ =~= before + info.parameters@.take(k as int));
            }
            assert(info.parameters@.take(info.parameters@.len() as int) =~= info.parameters@);
            let ghost appended = storage@;
            let remainder = storage.len() % GPU_ALIGNMENT;
            if remainder != 0 {
                let padding = GPU_ALIGNMENT - remainder;
                let mut z: usize = 0;
                while z < padding
                    invariant
                        z <= padding,
                        storage@ == appended + Seq::new(z as nat, |j: int| 0u8),
                    decreases padding - z,
                {
                    storage.push(0u8);
                    z += 1;
                    assert(storage@ =~= appended + Seq::new(z as nat, |j: int| 0u8));
                }
            } else {
                assert(storage@ =~= appended + Seq::new(0, |j: int| 0u8));
            }
            proof {
                let t = blocks.take(i + 1);
                assert(t.drop_last() =~= blocks.take(i as int));
                assert(t.last() == blocks[i as int]);
            }
            descriptors.push(GpuMaterialDescriptor { model_id: info.model_id.0, param_offset, param_size, _pad: 0 });
            i += 1;
        }
        assert(blocks.take(instances@.len() as int) =~= blocks);
        GpuMaterialLayout { parameter_storage: storage, descriptors }
    }

    /// Total storage buffer size in bytes.
    pub fn storage_size(&self) -> (r: usize)
        ensures
            r == self.parameter_storage@.len(),
    {
        self.parameter_storage.len()
    }

    /// Total descriptor buffer size in bytes (16 bytes per descriptor).
    pub fn descriptor_size(&self) -> (r: usize)
        requires
            self.descriptors@.len() * 16 <= usize::MAX,
        ensures
            r == self.descriptors@.len() * 16,
    {
        self.descriptors.len() * GPU_DESCRIPTOR_BYTES
    }
}

} // verus!

verus! {

/// Packed storage always ends on the alignment.
pub proof fn lemma_packed_aligned(blocks: Seq<Seq<u8>>)
    ensures
        packed_storage(blocks).len() % 16 == 0,
    decreases blocks.len(),
{
    if blocks.len() > 0 {
        lemma_packed_aligned(blocks.drop_last());
    }
}

/// Packing a prefix of the blocks yields a prefix of the packed storage.
pub proof fn lemma_packed_prefix_of(blocks: Seq<Seq<u8>>, k: int)
    requires
        0 <= k <= blocks.len(),
    ensures
        packed_storage(blocks.take(k)).len() <= packed_storage(blocks).len(),
        packed_storage(blocks).subrange(0, packed_storage(blocks.take(k)).len() as int) == packed_storage(blocks.take(k)),
    decreases blocks.len() - k,
{
    if k == blocks.len() {
        assert(blocks.take(k) =~= blocks);
        assert(packed_storage(blocks).subrange(0, packed_storage(blocks).len() as int) =~= packed_storage(blocks));
    } else {
        lemma_packed_prefix_of(blocks, k + 1);
        let t = blocks.take(k + 1);
        assert(t.drop_last() =~= blocks.take(k));
        let small = packed_storage(blocks.take(k));
        let big = packed_storage(t);
        assert(big.subrange(0, small.len() as int) =~= small);
        assert(packed_storage(blocks).subrange(0, small.len() as int) =~= big.subrange(0, small.len() as int));
    }
}

/// Every parameter block starts on the 16-byte alignment, sits in the packed
/// storage byte for byte at its descriptor's offset, and ends before the next
/// block begins.
pub proof fn lemma_blocks_in_place(blocks: Seq<Seq<u8>>, i: int)
    requires
        0 <= i < blocks.len(),
    ensures
        packed_storage(blocks.take(i)).len() % 16 == 0,
        packed_storage(blocks.take(i)).len() + blocks[i].len() <= packed_storage(blocks.take(i + 1)).len(),
        packed_storage(blocks.take(i + 1)).len() <= packed_storage(blocks).len(),
        forall|j: int| 0 <= j < blocks[i].len() ==> #[trigger] packed_storage(blocks)[packed_storage(blocks.take(i)).len() + j]
            == blocks[i][j],
{
    lemma_packed_aligned(blocks.take(i));
    lemma_packed_prefix_of(blocks, i + 1);
    let t = blocks.take(i + 1);
    assert(t.drop_last() =~= blocks.take(i));
    assert(t.last() == blocks[i]);
    let off = packed_storage(blocks.take(i)).len() as int;
    let big = packed_storage(t);
    assert forall|j: int| 0 <= j < blocks[i].len() implies #[trigger] packed_storage(blocks)[off + j] == blocks[i][j] by {
        assert(big[off + j] == blocks[i][j]);
        assert(packed_storage(blocks).subrange(0, big.len() as int)[off + j] == big[off + j]);
    }
}

} // verus!
