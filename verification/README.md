# Quasar

A modular spatial audio engine. Sources (multi-channel audio) are tapped
channel by channel into positioned scene outputs through a patch bay; each
scene output is resolved against every listener (direct path, reflections,
late reverb) and panned onto the listener's speakers.

## Layout

- `src/` — the library, verified with Verus. It holds the engine's control
  plane: the content registry (sources, scene outputs, listeners, pulls),
  the patch bay and node-graph routing, the triple-buffered parameter
  exchange between the compute and audio threads, crossfade progress, the
  sample history behind the delay lines, the
  streaming ring buffer with its caching policy, material bookkeeping and
  GPU parameter packing, the hybrid sampler's resolution plan and the probe
  grid's index geometry. Sample values, positions and gains appear there
  only as type parameters, so every contract is over integers, sequences
  and maps.
- `app/` — the runtime around the library: everything that computes with
  floating point (DSP nodes, acoustic material models, ray tracing, VBAP),
  the threads and file I/O of streaming, the GPU backend, the Nebula bake
  import, and the top-level `SpatialAudioEngine`.
- `tests/` — tests of the library.
