//! Unified error type of the engine.

use vstd::prelude::*;

verus! {

/// Errors that can arise during spatial audio processing.
///
/// Each variant carries a human-readable message.
#[derive(Clone, Debug, PartialEq, Eq)]
pub enum SpatialAudioError {
    /// An error reported from a compute backend.
    Backend(String),
    /// An error related to material operations.
    Material(String),
    /// The scene description is invalid for processing.
    InvalidScene(String),
    /// An error from the probe grid system.
    ProbeGrid(String),
    /// An I/O error, with the operating system's description.
    Io(String),
    /// A serialization error.
    Serialize(String),
    /// A deserialization error.
    Deserialize(String),
    /// A general error with a message string.
    General(String),
}

} // verus!
