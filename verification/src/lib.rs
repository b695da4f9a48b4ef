//! Verified control plane of the Quasar spatial audio engine.
//!
//! The library holds the engine's content model and the bookkeeping that the
//! real-time audio pipeline relies on: identifiers and configurations of
//! sources, scene outputs and listeners, the patch bay and the node-graph
//! routing table, the lock-free parameter exchange protocol, crossfade
//! progress, the sample history behind the delay lines, the streaming ring
//! buffer and its caching policy, material instance bookkeeping and GPU
//! material packing, and the integer geometry of the baked probe grid.

pub mod scene_output;
pub mod error;
pub mod seq_search;
pub mod taps;
pub mod ids;
pub mod scene_registry;
pub mod patch_bay;
pub mod param_exchange;
pub mod streaming;
pub mod ring;
pub mod materials;
pub mod gpu_pipeline;
pub mod hybrid;
pub mod probe_grid;
pub mod backend;
pub mod dsp_layout;
pub mod fade;
pub mod node_graph;
pub mod delay_line;
