//! Compute backends that need no floating-point state of their own.

use vstd::prelude::*;

use crate::error::SpatialAudioError;

verus! {

/// Stub backend for future DSP/NPU hardware acceleration.
///
/// It performs no ray tracing: queries get worst-case results (no occlusion,
/// inverse-distance attenuation) and traced rays hit nothing. It only
/// remembers whether it was given a non-empty scene.
pub struct HardwareAcceleratorStub {
    has_scene: bool,
}

impl HardwareAcceleratorStub {
    /// Whether the last scene update carried geometry.
    pub closed spec fn scene_loaded(&self) -> bool {
        self.has_scene
    }

    /// Create a stub with no scene loaded.
    pub fn new() -> (r: Self)
        ensures
            !r.scene_loaded(),
    {
        HardwareAcceleratorStub { has_scene: false }
    }

    /// Whether the last scene update carried geometry.
    pub fn has_scene(&self) -> (r: bool)
        ensures
            r == self.scene_loaded(),
    {
        self.has_scene
    }

    /// The stub cannot follow moving geometry.
    pub fn supports_dynamic_geometry(&self) -> (r: bool)
        ensures
            !r,
    {
        false
    }

    /// Record a scene update; an empty scene is rejected with `InvalidScene`
    /// (and leaves the stub without a scene).
    pub fn update_scene(&mut self, scene_is_empty: bool) -> (r: Result<(), SpatialAudioError>)
        ensures
            final(self).scene_loaded() == !scene_is_empty,
            scene_is_empty ==> (r matches Err(SpatialAudioError::InvalidScene(_))),
            !scene_is_empty ==> r is Ok,
    {
        self.has_scene = !scene_is_empty;
        if scene_is_empty {
            return Err(SpatialAudioError::InvalidScene("empty scene provided to stub backend".to_owned()));
        }
        Ok(())
    }
}

} // verus!
