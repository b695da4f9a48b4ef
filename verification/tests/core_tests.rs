use quasar::backend::HardwareAcceleratorStub;
use quasar::dsp_layout::{output_channels_for_mode, AirAbsorptionOcclusionNode, DecoderMode, SpeakerLayout};
use quasar::error::SpatialAudioError;
use quasar::hybrid::{HybridProbeSampler, HybridSamplingStrategy, ResolvePlan};
use quasar::probe_grid::AcousticProbeGrid;

#[test]
fn hybrid_sampler_strategies() {
    let sampler: HybridProbeSampler<(), ()> = HybridProbeSampler::new(HybridSamplingStrategy::BakedOnly);
    assert_eq!(sampler.strategy(), HybridSamplingStrategy::BakedOnly);

    let sampler2: HybridProbeSampler<(), ()> = HybridProbeSampler::new(HybridSamplingStrategy::RealTimeOnly);
    assert_eq!(sampler2.strategy(), HybridSamplingStrategy::RealTimeOnly);

    let sampler3: HybridProbeSampler<(), ()> = HybridProbeSampler::new(HybridSamplingStrategy::HybridBlend);
    assert_eq!(sampler3.strategy(), HybridSamplingStrategy::HybridBlend);
}

#[test]
fn hybrid_plan_reports_missing_sources() {
    let mut sampler: HybridProbeSampler<u8, u16> = HybridProbeSampler::new(HybridSamplingStrategy::HybridBlend);
    assert!(matches!(sampler.resolve_plan(), Err(SpatialAudioError::Backend(_))));
    sampler.set_realtime_backend(3);
    assert!(matches!(sampler.resolve_plan(), Err(SpatialAudioError::ProbeGrid(_))));
    sampler.set_probe_grid(1);
    assert_eq!(sampler.resolve_plan(), Ok(ResolvePlan::QueryBackendThenGrid));
    sampler.set_strategy(HybridSamplingStrategy::BakedOnly);
    assert_eq!(sampler.resolve_plan(), Ok(ResolvePlan::SampleGrid));
    assert_eq!(sampler.probe_grid(), Some(&1));
    if let Some(b) = sampler.realtime_backend_mut() {
        *b = 4;
    }
    assert_eq!(sampler.realtime_backend(), Some(&4));

    let baked: HybridProbeSampler<u8, u16> = HybridProbeSampler::new(HybridSamplingStrategy::BakedOnly);
    assert!(matches!(baked.resolve_plan(), Err(SpatialAudioError::ProbeGrid(_))));
    let mut realtime: HybridProbeSampler<u8, u16> = HybridProbeSampler::new(HybridSamplingStrategy::RealTimeOnly);
    assert!(matches!(realtime.resolve_plan(), Err(SpatialAudioError::Backend(_))));
    realtime.set_realtime_backend(0);
    assert_eq!(realtime.resolve_plan(), Ok(ResolvePlan::QueryBackend));
}

#[test]
fn probe_grid_requires_one_probe_per_point() {
    let grid = AcousticProbeGrid::new((0..8).collect::<Vec<u32>>(), [0.0f32; 3], [1.0; 3], [2, 2, 2]).unwrap();
    assert_eq!(grid.len(), 8);
    assert!(!grid.is_empty());
    assert!(matches!(
        AcousticProbeGrid::new(vec![0u32; 7], [0.0f32; 3], [1.0; 3], [2, 2, 2]),
        Err(SpatialAudioError::ProbeGrid(_))
    ));
    let empty = AcousticProbeGrid::new(Vec::<u32>::new(), [0.0f32; 3], [1.0; 3], [4, 0, u32::MAX]).unwrap();
    assert!(empty.is_empty());
}

#[test]
fn probe_grid_corner_indices() {
    let grid = AcousticProbeGrid::new((0..24).collect::<Vec<u32>>(), [0.0f32; 3], [1.0; 3], [4, 3, 2]).unwrap();
    assert_eq!(grid.cell_probe_indices([1, 1, 0]), [5, 6, 9, 10, 17, 18, 21, 22]);
    assert_eq!(grid.nearest_probe_index([1, 1, 0], [true, false, true]), 18);
    assert_eq!(grid.clamp_cell([9, 1, 5]), [2, 1, 0]);
}

#[test]
fn hw_stub_tracks_scene() {
    let mut stub = HardwareAcceleratorStub::new();
    assert!(!stub.has_scene());
    assert!(!stub.supports_dynamic_geometry());
    assert!(matches!(stub.update_scene(true), Err(SpatialAudioError::InvalidScene(_))));
    assert!(!stub.has_scene());
    assert!(stub.update_scene(false).is_ok());
    assert!(stub.has_scene());
}

#[test]
fn decoder_channel_counts() {
    assert_eq!(output_channels_for_mode::<f32>(&DecoderMode::BinauralHrtf), 2);
    assert_eq!(output_channels_for_mode::<f32>(&DecoderMode::Vbap { layout: SpeakerLayout::Surround51 }), 6);
    assert_eq!(output_channels_for_mode::<f32>(&DecoderMode::Vbap { layout: SpeakerLayout::Surround714 }), 8);
    assert_eq!(output_channels_for_mode::<f32>(&DecoderMode::Vbap { layout: SpeakerLayout::Quad }), 4);
    assert_eq!(
        output_channels_for_mode(&DecoderMode::Vbap { layout: SpeakerLayout::Custom { positions: vec![[0.0f32; 3]; 5] } }),
        5
    );
    assert_eq!(output_channels_for_mode::<f32>(&DecoderMode::AmbisonicDecode { order: 3 }), 16);
    let node = AirAbsorptionOcclusionNode::new(4, 48000.0f32, 0.1f32);
    assert_eq!((node.input_channels(), node.output_channels()), (4, 4));
}

#[test]
fn probe_grid_consistency_checks() {
    let mut grid = AcousticProbeGrid::new((0..12).collect::<Vec<u32>>(), [0.0f32; 3], [1.0; 3], [3, 2, 2]).unwrap();
    assert!(grid.has_probe_per_point());
    assert!(grid.is_valid_cell([1, 0, 0]));
    assert!(!grid.is_valid_cell([2, 0, 0]));
    assert!(!grid.is_valid_cell([0, 1, 0]));
    grid.probes.pop();
    assert!(!grid.has_probe_per_point());
    let flat = AcousticProbeGrid::new(vec![0u32; 4], [0.0f32; 3], [0.0; 3], [4, 1, 1]).unwrap();
    assert!(flat.has_probe_per_point());
    assert!(!flat.is_valid_cell(flat.clamp_cell([0, 0, 0])));
}
