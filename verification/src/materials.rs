//! Material models, parameter buffers, instances and the material registry.
//!
//! A material instance couples a model id with an opaque parameter payload.
//! The registry keeps the instances (addressed by handle) and one evaluator
//! per model id; evaluating a material is the evaluator's job, which the
//! registry hands the instance's parameters to.

use vstd::prelude::*;
use std::collections::HashMap;

use crate::error::SpatialAudioError;

verus! {

broadcast use vstd::std_specs::hash::group_hash_axioms;

/// Unique identifier for a material evaluation model.
#[derive(Clone, Copy, Debug, PartialEq, Eq, Hash, Structural)]
pub struct MaterialModelId(pub u32);

/// Model id number of the tabular 8-band material.
pub const TABULAR_MODEL_ID: u32 = 1;

/// Model id number of the Delany-Bazley porous absorber.
pub const DELANY_BAZLEY_MODEL_ID: u32 = 2;

/// Model id number of the resonant panel absorber.
pub const RESONANT_PANEL_MODEL_ID: u32 = 3;

/// Raw parameter payload of a material instance, laid out for direct
/// blitting to GPU storage buffers or CPU cache lines.
#[derive(Clone, Debug)]
pub struct MaterialParameterBuffer {
    /// Alignment-friendly byte array (e.g. std430 layout).
    pub data: Vec<u8>,
}

impl View for MaterialParameterBuffer {
    type V = Seq<u8>;

    open spec fn view(&self) -> Seq<u8> {
        self.data@
    }
}

impl MaterialParameterBuffer {
    /// Create a parameter buffer from a byte vector.
    pub fn new(data: Vec<u8>) -> (r: Self)
        ensures
            r@ == data@,
    {
        MaterialParameterBuffer { data }
    }

    /// Create an empty parameter buffer.
    pub fn empty() -> (r: Self)
        ensures
            r@.len() == 0,
    {
        MaterialParameterBuffer { data: Vec::new() }
    }

    /// Number of bytes in the parameter buffer.
    pub fn len(&self) -> (r: usize)
        ensures
            r == self@.len(),
    {
        self.data.len()
    }

    /// Whether the parameter buffer is empty.
    pub fn is_empty(&self) -> (r: bool)
        ensures
            r == (self@.len() == 0),
    {
        self.data.len() == 0
    }

    /// A byte-for-byte copy.
    pub fn duplicate(&self) -> (r: Self)
        ensures
            r@ == self@,
    {
        let mut data: Vec<u8> = Vec::new();
        let mut i: usize = 0;
        while i < self.data.len()
            invariant
                i <= self.data@.len(),
                data@ == self.data@.take(i as int),
            decreases self.data@.len() - i,
        {
            data.push(self.data[i]);
            i += 1;
            assert(data@ =~= self.data@.take(i as int));
        }
        assert(self.data@.take(self.data@.len() as int) =~= self.data@);
        MaterialParameterBuffer { data }
    }
}

/// A material instance couples a model id with its parameter buffer.
#[derive(Clone, Debug)]
pub struct AcousticMaterialInstance {
    /// Identifier of the material model (evaluator).
    pub model_id: MaterialModelId,
    /// Parameter payload for this instance.
    pub parameters: MaterialParameterBuffer,
}

impl View for AcousticMaterialInstance {
    type V = (MaterialModelId, Seq<u8>);

    open spec fn view(&self) -> (MaterialModelId, Seq<u8>) {
        (self.model_id, self.parameters@)
    }
}

impl AcousticMaterialInstance {
    /// Create a new material instance.
    pub fn new(model_id: MaterialModelId, parameters: MaterialParameterBuffer) -> (r: Self)
        ensures
            r@ == (model_id, parameters@),
    {
        AcousticMaterialInstance { model_id, parameters }
    }

    /// A copy with the same model and the same parameter bytes.
    pub fn duplicate(&self) -> (r: Self)
        ensures
            r@ == self@,
    {
        AcousticMaterialInstance { model_id: self.model_id, parameters: self.parameters.duplicate() }
    }
}

/// Static 8-band lookup table evaluator (parameters: absorption, scattering
/// and transmission, 8 single-precision values each).
pub struct Tabular8BandEvaluator;

impl Tabular8BandEvaluator {
    /// Create a new evaluator.
    pub fn new() -> (r: Self)
        ensures
            r == Tabular8BandEvaluator,
    {
        Tabular8BandEvaluator
    }

    /// The model this evaluator implements.
    pub fn model_id(&self) -> (r: MaterialModelId)
        ensures
            r == MaterialModelId(TABULAR_MODEL_ID),
    {
        MaterialModelId(TABULAR_MODEL_ID)
    }
}

/// Delany-Bazley porous absorber evaluator (parameters: flow resistivity and
/// thickness).
pub struct PorousDelanyBazleyEvaluator;

impl PorousDelanyBazleyEvaluator {
    /// Create a new evaluator.
    pub fn new() -> (r: Self)
        ensures
            r == PorousDelanyBazleyEvaluator,
    {
        PorousDelanyBazleyEvaluator
    }

    /// The model this evaluator implements.
    pub fn model_id(&self) -> (r: MaterialModelId)
        ensures
            r == MaterialModelId(DELANY_BAZLEY_MODEL_ID),
    {
        MaterialModelId(DELANY_BAZLEY_MODEL_ID)
    }
}

/// Resonant panel absorber evaluator (parameters: panel mass and cavity depth).
pub struct ResonantPanelEvaluator;

impl ResonantPanelEvaluator {
    /// Create a new evaluator.
    pub fn new() -> (r: Self)
        ensures
            r == ResonantPanelEvaluator,
    {
        ResonantPanelEvaluator
    }

    /// The model this evaluator implements.
    pub fn model_id(&self) -> (r: MaterialModelId)
        ensures
            r == MaterialModelId(RESONANT_PANEL_MODEL_ID),
    {
        MaterialModelId(RESONANT_PANEL_MODEL_ID)
    }
}

/// Sum of the parameter sizes of `instances`.
pub open spec fn total_bytes(instances: Seq<(MaterialModelId, Seq<u8>)>) -> int
    decreases instances.len(),
{
    if instances.len() == 0 {
        0
    } else {
        total_bytes(instances.drop_last()) + instances.last().1.len()
    }
}

/// Registry of material evaluators (one per model id) and material
/// instances (addressed by handle, their index).
pub struct AcousticMaterialRegistry<E> {
    evaluators: HashMap<u32, E>,
    instances: Vec<AcousticMaterialInstance>,
}

impl<E> AcousticMaterialRegistry<E> {
    /// The registered evaluators, by model id number.
    pub closed spec fn evaluator_map(&self) -> Map<u32, E> {
        self.evaluators@
    }

    /// The instances, by handle.
    pub closed spec fn instance_seq(&self) -> Seq<(MaterialModelId, Seq<u8>)> {
        self.instances@.map_values(|i: AcousticMaterialInstance| i@)
    }

    /// Create a new empty registry.
    pub fn new() -> (r: Self)
        ensures
            r.evaluator_map() == Map::<u32, E>::empty(),
            r.instance_seq().len() == 0,
    {
        let r = AcousticMaterialRegistry { evaluators: HashMap::new(), instances: Vec::new() };
        assert(r.instance_seq() =~= Seq::empty());
        r
    }

    /// Register (or replace) the evaluator of model `model_id`.
    pub fn register_evaluator(&mut self, model_id: MaterialModelId, evaluator: E)
        ensures
            final(self).evaluator_map() == old(self).evaluator_map().insert(model_id.0, evaluator),
            final(self).instance_seq() == old(self).instance_seq(),
    {
        self.evaluators.insert(model_id.0, evaluator);
    }

    /// Unregister the evaluator of a model. Returns `true` if one was removed.
    pub fn unregister_evaluator(&mut self, model_id: MaterialModelId) -> (r: bool)
        ensures
            r == old(self).evaluator_map().contains_key(model_id.0),
            final(self).evaluator_map() == old(self).evaluator_map().remove(model_id.0),
            final(self).instance_seq() == old(self).instance_seq(),
    {
        self.evaluators.remove(&model_id.0).is_some()
    }

    /// Whether an evaluator is registered for the model.
    pub fn has_evaluator(&self, model_id: MaterialModelId) -> (r: bool)
        ensures
            r == self.evaluator_map().contains_key(model_id.0),
    {
        self.evaluators.contains_key(&model_id.0)
    }

    /// Number of registered evaluators.
    pub fn evaluator_count(&self) -> (r: usize)
        ensures
            r == self.evaluator_map().len(),
    {
        self.evaluators.len()
    }

    /// Add a material instance; its handle is its index, the number of
    /// instances before it (kept to 32 bits).
    pub fn add_instance(&mut self, instance: AcousticMaterialInstance) -> (handle: u32)
        ensures
            handle == old(self).instance_seq().len() as u32,
            final(self).instance_seq() == old(self).instance_seq().push(instance@),
            final(self).evaluator_map() == old(self).evaluator_map(),
    {
        let handle = #[verifier::truncate] (self.instances.len() as u32);
        let ghost before = self.instances@;
        self.instances.push(instance);
        assert(self.instance_seq() =~= old(self).instance_seq().push(instance@));
        handle
    }

    /// Replace the parameters of an instance (hot swap). Fails with `Material`
    /// when the handle is out of range.
    pub fn update_instance(&mut self, handle: u32, params: MaterialParameterBuffer) -> (r: Result<(), SpatialAudioError>)
        ensures
            (handle as int) < old(self).instance_seq().len() ==> r is Ok && final(self).instance_seq() == old(
                self,
            ).instance_seq().update(handle as int, (old(self).instance_seq()[handle as int].0, params@)),
            (handle as int) >= old(self).instance_seq().len() ==> (r matches Err(SpatialAudioError::Material(_)))
                && final(self).instance_seq() == old(self).instance_seq(),
            final(self).evaluator_map() == old(self).evaluator_map(),
    {
        let idx = handle as usize;
        if idx >= self.instances.len() {
            return Err(SpatialAudioError::Material("instance handle out of range".to_owned()));
        }
        let mut inst = self.instances.remove(idx);
        inst.parameters = params;
        self.instances.insert(idx, inst);
        assert(self.instance_seq() =~= old(self).instance_seq().update(
            handle as int,
            (old(self).instance_seq()[handle as int].0, params@),
        ));
        Ok(())
    }

    /// A copy of an instance, or `None` when the handle is out of range.
    pub fn get_instance(&self, handle: u32) -> (r: Option<AcousticMaterialInstance>)
        ensures
            (handle as int) < self.instance_seq().len() ==> (r matches Some(i) && i@ == self.instance_seq()[handle as int]),
            (handle as int) >= self.instance_seq().len() ==> r is None,
    {
        let idx = handle as usize;
        if idx < self.instances.len() {
            Some(self.instances[idx].duplicate())
        } else {
            None
        }
    }

    /// Remove an instance; the last instance moves into the vacated slot (so
    /// its handle changes to the removed one). Returns `false`, changing
    /// nothing, when the handle is out of range.
    pub fn remove_instance(&mut self, handle: u32) -> (r: bool)
        ensures
            r == ((handle as int) < old(self).instance_seq().len()),
            r ==> final(self).instance_seq() == old(self).instance_seq().update(
                handle as int,
                old(self).instance_seq().last(),
            ).drop_last(),
            !r ==> final(self).instance_seq() == old(self).instance_seq(),
            final(self).evaluator_map() == old(self).evaluator_map(),
    {
        let idx = handle as usize;
        if idx >= self.instances.len() {
            return false;
        }
        self.instances.swap_remove(idx);
        assert(self.instance_seq() =~= old(self).instance_seq().update(handle as int, old(self).instance_seq().last()).drop_last());
        true
    }

    /// Number of material instances.
    pub fn instance_count(&self) -> (r: usize)
        ensures
            r == self.instance_seq().len(),
    {
        self.instances.len()
    }

    /// What evaluating an instance needs: its model's evaluator and its
    /// parameters. Fails with `Material` when the handle is out of range or
    /// no evaluator is registered for the instance's model.
    pub fn evaluation_target(&self, handle: u32) -> (r: Result<(&E, &MaterialParameterBuffer), SpatialAudioError>)
        ensures
            (handle as int) < self.instance_seq().len() && self.evaluator_map().contains_key(
                self.instance_seq()[handle as int].0.0,
            ) ==> (r matches Ok((e, p)) && *e == self.evaluator_map()[self.instance_seq()[handle as int].0.0]
                && p@ == self.instance_seq()[handle as int].1),
            !((handle as int) < self.instance_seq().len() && self.evaluator_map().contains_key(
                self.instance_seq()[handle as int].0.0,
            )) ==> r matches Err(SpatialAudioError::Material(_)),
    {
        let idx = handle as usize;
        if idx >= self.instances.len() {
            return Err(SpatialAudioError::Material("instance handle out of range".to_owned()));
        }
        let instance = &self.instances[idx];
        match self.evaluators.get(&instance.model_id.0) {
            Some(e) => Ok((e, &instance.parameters)),
            None => Err(SpatialAudioError::Material("no evaluator registered for the instance's model".to_owned())),
        }
    }

    /// Total byte size of all instance parameter buffers combined (the size
    /// of a GPU storage buffer holding them back to back).
    pub fn total_parameter_bytes(&self) -> (r: usize)
        requires
            total_bytes(self.instance_seq()) <= usize::MAX,
        ensures
            r == total_bytes(self.instance_seq()),
    {
        let mut sum: usize = 0;
        let mut i: usize = 0;
        while i < self.instances.len()
            invariant
                i <= self.instances@.len(),
                total_bytes(self.instance_seq()) <= usize::MAX,
                sum == total_bytes(self.instance_seq().take(i as int)),
            decreases self.instances@.len() - i,
        {
            proof {
                assert(self.instance_seq().take(i + 1).drop_last() =~= self.instance_seq().take(i as int));
                lemma_total_bytes_prefix(self.instance_seq(), i as int + 1);
            }
            sum = sum + self.instances[i].parameters.len();
            i += 1;
        }
        assert(self.instance_seq().take(self.instances@.len() as int) =~= self.instance_seq());
        sum
    }

    /// [`Self::total_parameter_bytes`] when the total fits in `usize`;
    /// `None` when it does not.
    pub fn checked_total_parameter_bytes(&self) -> (r: Option<usize>)
        ensures
            total_bytes(self.instance_seq()) <= usize::MAX ==> r == Some(total_bytes(self.instance_seq()) as usize),
            total_bytes(self.instance_seq()) > usize::MAX ==> r is None,
    {
        let mut sum: usize = 0;
        let mut i: usize = 0;
        while i < self.instances.len()
            invariant
                i <= self.instances@.len(),
                sum == total_bytes(self.instance_seq().take(i as int)),
            decreases self.instances@.len() - i,
        {
            proof {
                assert(self.instance_seq().take(i + 1).drop_last() =~= self.instance_seq().take(i as int));
            }
            match sum.checked_add(self.instances[i].parameters.len()) {
                Some(s) => sum = s,
                None => {
                    proof {
                        lemma_total_bytes_prefix(self.instance_seq(), i as int + 1);
                    }
                    return None;
                },
            }
            i += 1;
        }
        assert(self.instance_seq().take(self.instances@.len() as int) =~= self.instance_seq());
        Some(sum)
    }
}

/// A prefix never holds more bytes than the whole.
proof fn lemma_total_bytes_prefix(s: Seq<(MaterialModelId, Seq<u8>)>, k: int)
    requires
        0 <= k <= s.len(),
    ensures
        total_bytes(s.take(k)) <= total_bytes(s),
    decreases s.len() - k,
{
    if k < s.len() {
        lemma_total_bytes_prefix(s, k + 1);
        assert(s.take(k + 1).drop_last() =~= s.take(k));
    } else {
        assert(s.take(k) =~= s);
    }
}

} // verus!
