//! Scene content model: sources, scene outputs and listeners.
//!
//! Three strictly separated layers:
//! - a source is raw multi-channel audio content;
//! - a scene output is a positioned world emitter whose audible content is
//!   the sum of explicit [`ChannelPull`] taps onto loaded sources;
//! - a listener is a world position, a heading and a physical device layout.
//!
//! Geometric quantities are held in a scalar type `F` chosen by the renderer
//! (the engine uses single-precision samples); the content model never
//! computes with them.

use vstd::prelude::*;

verus! {

/// Identifier for a loaded audio source.
#[derive(Clone, Copy, Debug, PartialEq, Eq, Hash, Structural)]
pub struct SourceId(pub u32);

/// Identifier for a positioned scene output (world-space emitter/speaker).
#[derive(Clone, Copy, Debug, PartialEq, Eq, Hash, Structural)]
pub struct SceneOutputId(pub u32);

/// Identifier for a listener (world position + physical device layout).
#[derive(Clone, Copy, Debug, PartialEq, Eq, Hash, Structural)]
pub struct ListenerId(pub u32);

/// How a scene output's position may change over time.
#[derive(Clone, Copy, Debug, PartialEq, Eq, Hash, Structural)]
pub enum Movability {
    /// Never moves after placement.
    Static,
    /// Moves freely at runtime.
    Dynamic,
    /// Position is streamed in from an outside source.
    Streaming,
}

/// One tap in the patch bay: read `channel` of `source_id` at `gain_db`.
///
/// The content of a scene output is the sum over its pulls.
#[derive(Clone, Copy, Debug, PartialEq)]
pub struct ChannelPull<G> {
    /// Which loaded source this tap reads from.
    pub source_id: SourceId,
    /// Which channel of that source (`0 .. source.channels - 1`).
    pub channel: u32,
    /// Gain in dB (the API surface is dB; the mixer works in linear gain).
    pub gain_db: G,
}

impl<G> ChannelPull<G> {
    /// Create a new patch-bay tap reading `channel` of `source_id` at `gain_db`.
    pub fn new(source_id: SourceId, channel: u32, gain_db: G) -> (pull: Self)
        ensures
            pull.source_id == source_id,
            pull.channel == channel,
            pull.gain_db == gain_db,
    {
        ChannelPull { source_id, channel, gain_db }
    }
}

/// Whether `pull` taps `channel` of `source`.
pub open spec fn pull_taps<G>(pull: ChannelPull<G>, source: SourceId, channel: u32) -> bool {
    pull.source_id == source && pull.channel == channel
}

/// Description of a loaded multi-channel audio source.
#[derive(Clone, Debug, PartialEq)]
pub struct SourceConfig {
    /// Path to the source file / stream handle.
    pub path: String,
    /// Number of channels the source carries.
    pub channels: usize,
}

/// Configuration for a positioned scene output (world-space emitter/speaker).
#[derive(Clone, Debug, PartialEq)]
pub struct SceneOutputConfig<F> {
    /// World-space position.
    pub position: [F; 3],
    /// Heading for directivity (reserved).
    pub orientation: Option<[F; 3]>,
    /// Directivity: zero is omnidirectional, one is the narrowest cone.
    pub directivity: F,
    /// Patch-bay taps that define this output's audible content.
    pub pulls: Vec<ChannelPull<F>>,
    /// How the output's position may change over time.
    pub movability: Movability,
}

impl<F: Default> SceneOutputConfig<F> {
    /// Create a scene output at `position` with the given `movability`,
    /// omnidirectional directivity (the scalar's zero) and no pulls.
    pub fn new(position: [F; 3], movability: Movability) -> (cfg: Self)
        ensures
            cfg.position == position,
            cfg.orientation is None,
            call_ensures(F::default, (), cfg.directivity),
            cfg.pulls@.len() == 0,
            cfg.movability == movability,
    {
        SceneOutputConfig {
            position,
            orientation: None,
            directivity: F::default(),
            pulls: Vec::new(),
            movability,
        }
    }
}

impl<F: Default + Copy> Default for SceneOutputConfig<F> {
    /// Omnidirectional, static output at the origin (the scalar's zero on
    /// every axis) with no pulls.
    fn default() -> (cfg: Self)
        ensures
            cfg.position[0] == cfg.position[1] && cfg.position[1] == cfg.position[2],
            call_ensures(F::default, (), cfg.position[0]),
            call_ensures(F::default, (), cfg.directivity),
            cfg.orientation is None,
            cfg.pulls@.len() == 0,
            cfg.movability == Movability::Static,
    {
        let zero = F::default();
        SceneOutputConfig {
            position: [zero, zero, zero],
            orientation: None,
            directivity: F::default(),
            pulls: Vec::new(),
            movability: Movability::Static,
        }
    }
}

/// Physical speaker layout of a listener's output device.
#[derive(Clone, Debug, PartialEq)]
pub enum PhysicalOutputLayout<F> {
    /// Two-channel stereo (L/R).
    Stereo,
    /// 5.1 surround (FL/FR/C/LFE/BL/BR).
    Surround51,
    /// 7.1.4 surround (base 7.1 + 4 height channels).
    Surround714,
    /// Quad (FL/FR/BL/BR).
    Quad,
    /// Arbitrary real-world speaker directions.
    Custom {
        /// Real-world speaker directions (unit vectors).
        positions: Vec<[F; 3]>,
    },
    /// Headphone rendering via an HRTF.
    Hrtf,
}

/// Configuration for a listener (world position + heading + device layout).
#[derive(Clone, Debug, PartialEq)]
pub struct ListenerConfig<F> {
    /// World-space position.
    pub position: [F; 3],
    /// Normalized forward vector.
    pub heading: [F; 3],
    /// Physical device layout the engine renders onto.
    pub physical_layout: PhysicalOutputLayout<F>,
}

} // verus!
