use std::collections::HashSet;

use quasar::scene_output::{
    ChannelPull, ListenerConfig, ListenerId, Movability, PhysicalOutputLayout, SceneOutputConfig, SceneOutputId,
    SourceConfig, SourceId,
};
use quasar::scene_registry::SceneRegistry;
use quasar::error::SpatialAudioError;

#[test]
fn id_types_are_hashable() {
    let mut set = HashSet::new();
    set.insert(SourceId(7));
    set.insert(SourceId(8));
    assert!(set.contains(&SourceId(7)));
    assert!(!set.contains(&SourceId(6)));
    assert_eq!(SourceId(7), SourceId(7));
    assert_ne!(SourceId(7), SourceId(8));

    assert_eq!(SceneOutputId(3), SceneOutputId(3));
    assert_ne!(SceneOutputId(3), SceneOutputId(4));
    assert_eq!(ListenerId(1), ListenerId(1));
    assert_ne!(ListenerId(1), ListenerId(2));
}

#[test]
fn channel_pull_new() {
    let pull = ChannelPull::new(SourceId(2), 3, -6.0f32);
    assert_eq!(pull.source_id, SourceId(2));
    assert_eq!(pull.channel, 3);
    assert!((pull.gain_db - -6.0).abs() < 1e-6);

    let pull2 = pull;
    assert_eq!(pull.source_id, pull2.source_id);
}

#[test]
fn source_config_fields() {
    let cfg = SourceConfig {
        path: "assets/8_Channel_ID.wav".to_string(),
        channels: 8,
    };
    assert_eq!(cfg.path, "assets/8_Channel_ID.wav");
    assert_eq!(cfg.channels, 8);
}

#[test]
fn scene_output_config_default() {
    let cfg: SceneOutputConfig<f32> = SceneOutputConfig::default();
    assert_eq!(cfg.position, [0.0, 0.0, 0.0]);
    assert_eq!(cfg.orientation, None);
    assert_eq!(cfg.directivity, 0.0);
    assert!(cfg.pulls.is_empty());
    assert_eq!(cfg.movability, Movability::Static);
}

#[test]
fn scene_output_config_new() {
    let cfg = SceneOutputConfig::new([1.0f32, 2.0, 3.0], Movability::Dynamic);
    assert_eq!(cfg.position, [1.0, 2.0, 3.0]);
    assert_eq!(cfg.movability, Movability::Dynamic);
    assert_eq!(cfg.directivity, 0.0);
    assert!(cfg.pulls.is_empty());
}

#[test]
fn scene_output_config_round_trip_fields() {
    let cfg = SceneOutputConfig {
        position: [4.0f32, 5.0, 6.0],
        orientation: Some([0.0, 0.0, -1.0]),
        directivity: 0.75,
        pulls: vec![ChannelPull::new(SourceId(1), 0, -3.0)],
        movability: Movability::Streaming,
    };
    assert_eq!(cfg.orientation, Some([0.0, 0.0, -1.0]));
    assert_eq!(cfg.pulls.len(), 1);
    assert_eq!(cfg.pulls[0].source_id, SourceId(1));
    assert_eq!(cfg.movability, Movability::Streaming);
}

#[test]
fn listener_config_custom_layout() {
    let cfg = ListenerConfig {
        position: [1.0f32, 1.6, 2.0],
        heading: [1.0, 0.0, 0.0],
        physical_layout: PhysicalOutputLayout::Custom {
            positions: vec![[1.0, 0.0, 0.0], [-1.0, 0.0, 0.0]],
        },
    };
    assert_eq!(cfg.position, [1.0, 1.6, 2.0]);
    match &cfg.physical_layout {
        PhysicalOutputLayout::Custom { positions } => assert_eq!(positions.len(), 2),
        other => panic!("expected Custom layout, got {other:?}"),
    }
}

#[test]
fn movability_variants() {
    assert_ne!(Movability::Static, Movability::Dynamic);
    assert_ne!(Movability::Dynamic, Movability::Streaming);
    assert_eq!(Movability::Static, Movability::Static);
}

#[test]
fn physical_layout_equality() {
    assert_eq!(
        PhysicalOutputLayout::<f32>::Surround51,
        PhysicalOutputLayout::<f32>::Surround51
    );
    assert_ne!(PhysicalOutputLayout::<f32>::Quad, PhysicalOutputLayout::<f32>::Hrtf);
    assert_eq!(
        PhysicalOutputLayout::Custom {
            positions: vec![[0.0f32, 1.0, 0.0]],
        },
        PhysicalOutputLayout::Custom {
            positions: vec![[0.0f32, 1.0, 0.0]],
        },
    );
}

fn source(path: &str, channels: usize) -> SourceConfig {
    SourceConfig {
        path: path.to_string(),
        channels,
    }
}

fn stereo_listener() -> ListenerConfig<f32> {
    ListenerConfig {
        position: [0.0, 0.0, 0.0],
        heading: [0.0, 0.0, -1.0],
        physical_layout: PhysicalOutputLayout::Stereo,
    }
}

#[test]
fn registry_round_trip() {
    let mut registry: SceneRegistry<f32> = SceneRegistry::new();

    // Load 2 sources → sequential IDs.
    let src_a = registry.load_source(source("a.wav", 2)).expect("load source");
    let src_b = registry.load_source(source("b.wav", 2)).expect("load source");
    assert_eq!(src_a.0, 0);
    assert_eq!(src_b.0, 1);

    // Reject zero-channel sources.
    assert!(registry.load_source(source("bad.wav", 0)).is_err());

    // Add a scene output with initial pulls.
    let out = registry.add_scene_output(SceneOutputConfig {
        position: [1.0, 2.0, 3.0],
        orientation: None,
        directivity: 0.0,
        pulls: vec![ChannelPull::new(src_a, 0, -3.0)],
        movability: Movability::Static,
    });
    assert_eq!(out.0, 0);

    // connect_pull appends a new tap and dedupes existing ones.
    registry.connect_pull(out, ChannelPull::new(src_b, 1, -6.0));
    registry.connect_pull(out, ChannelPull::new(src_a, 0, -9.0));
    let pulls = &registry.scene_outputs()[0].pulls;
    assert_eq!(pulls.len(), 2);
    assert!((pulls[0].gain_db - -9.0).abs() < 1e-6, "dedupe replaced gain");
    assert_eq!(pulls[1].source_id, src_b);
    assert_eq!(pulls[1].channel, 1);

    // set_pull_gain updates an existing pull.
    registry.set_pull_gain(out, src_a, 0, 0.0);
    assert!((registry.scene_outputs()[0].pulls[0].gain_db - 0.0).abs() < 1e-6);

    // set_pull_gain on an absent tap is a no-op.
    registry.set_pull_gain(out, src_a, 5, 12.0);
    assert_eq!(registry.scene_outputs()[0].pulls.len(), 2);

    // Add a listener → sequential IDs.
    let listener = registry.add_listener(stereo_listener());
    assert_eq!(listener.0, 0);

    // Mutations are reflected in stored state.
    registry.set_scene_output_position(out, [9.0, 9.0, 9.0]);
    assert_eq!(registry.scene_outputs()[0].position, [9.0, 9.0, 9.0]);

    registry.update_listener(listener, [1.0, 1.6, -2.0], [0.0, 0.0, -1.0]);
    assert_eq!(registry.listeners()[0].position, [1.0, 1.6, -2.0]);
    assert_eq!(registry.listeners()[0].heading, [0.0, 0.0, -1.0]);

    // disconnect_pull removes every matching tap.
    registry.disconnect_pull(out, src_a, 0);
    assert_eq!(registry.scene_outputs()[0].pulls.len(), 1);
    registry.disconnect_pull(out, src_b, 1);
    assert!(registry.scene_outputs()[0].pulls.is_empty());

    // Remove listener and output.
    registry.remove_listener(listener);
    assert!(registry.listeners().is_empty());
    registry.remove_scene_output(out);
    assert!(registry.scene_outputs().is_empty());

    // unload_source drops the source and any pulls referencing it.
    let out2 = registry.add_scene_output(SceneOutputConfig::new([0.0, 0.0, 0.0], Movability::Static));
    registry.connect_pull(out2, ChannelPull::new(src_a, 0, 0.0));
    registry.connect_pull(out2, ChannelPull::new(src_b, 0, 0.0));
    registry.unload_source(src_a);
    assert_eq!(registry.sources().len(), 1);
    assert_eq!(registry.scene_outputs()[0].pulls.len(), 1);
    assert_eq!(registry.scene_outputs()[0].pulls[0].source_id, src_b);
}

#[test]
fn add_ids_are_sequential_across_kinds() {
    let mut registry: SceneRegistry<f32> = SceneRegistry::new();
    let s0 = registry.load_source(source("s.wav", 1)).unwrap();
    let s1 = registry.load_source(source("s.wav", 1)).unwrap();
    let o0 = registry.add_scene_output(SceneOutputConfig::default());
    let o1 = registry.add_scene_output(SceneOutputConfig::default());
    let l0 = registry.add_listener(stereo_listener());
    let l1 = registry.add_listener(stereo_listener());
    assert_eq!((s0.0, s1.0), (0, 1));
    assert_eq!((o0.0, o1.0), (0, 1));
    assert_eq!((l0.0, l1.0), (0, 1));
}

#[test]
fn zero_channel_source_is_invalid_scene() {
    let mut registry: SceneRegistry<f32> = SceneRegistry::new();
    match registry.load_source(source("silent.wav", 0)) {
        Err(SpatialAudioError::InvalidScene(_)) => {}
        other => panic!("expected InvalidScene, got {other:?}"),
    }
    assert!(registry.sources().is_empty());
    // A rejected load does not consume an id.
    assert_eq!(registry.load_source(source("ok.wav", 1)).unwrap(), SourceId(0));
}

#[test]
fn ids_are_not_reused_after_removal() {
    let mut registry: SceneRegistry<f32> = SceneRegistry::new();
    let a = registry.load_source(source("a.wav", 1)).unwrap();
    registry.unload_source(a);
    let b = registry.load_source(source("b.wav", 1)).unwrap();
    assert_eq!(b, SourceId(1));
    assert!(!registry.has_source(a));
    assert!(registry.has_source(b));
    assert_eq!(registry.source_index(b), Some(0));
    assert_eq!(registry.source_index(a), None);
}

#[test]
fn unload_keeps_other_outputs_order_and_fields() {
    let mut registry: SceneRegistry<f32> = SceneRegistry::new();
    let a = registry.load_source(source("a.wav", 2)).unwrap();
    let b = registry.load_source(source("b.wav", 2)).unwrap();
    let o0 = registry.add_scene_output(SceneOutputConfig::new([1.0, 0.0, 0.0], Movability::Static));
    let o1 = registry.add_scene_output(SceneOutputConfig::new([2.0, 0.0, 0.0], Movability::Dynamic));
    registry.connect_pull(o0, ChannelPull::new(a, 0, -1.0));
    registry.connect_pull(o0, ChannelPull::new(b, 1, -2.0));
    registry.connect_pull(o0, ChannelPull::new(a, 1, -3.0));
    registry.connect_pull(o1, ChannelPull::new(a, 0, -4.0));
    registry.unload_source(a);
    let outs = registry.scene_outputs();
    assert_eq!(outs.len(), 2);
    assert_eq!(outs[0].pulls, vec![ChannelPull::new(b, 1, -2.0)]);
    assert!(outs[1].pulls.is_empty());
    assert_eq!(outs[1].position, [2.0, 0.0, 0.0]);
    assert_eq!(outs[1].movability, Movability::Dynamic);
    assert_eq!(registry.scene_output_index(o1), Some(1));
}

#[test]
fn output_taps_resolve_loaded_sources_only() {
    let mut reg: SceneRegistry<f32> = SceneRegistry::new();
    let a = reg.load_source(SourceConfig { path: "a.wav".to_string(), channels: 2 }).unwrap();
    let b = reg.load_source(SourceConfig { path: "b.wav".to_string(), channels: 1 }).unwrap();
    let out = reg.add_scene_output(SceneOutputConfig::new([0.0, 0.0, 0.0], Movability::Static));
    reg.connect_pull(out, ChannelPull::new(b, 0, -6.0));
    reg.connect_pull(out, ChannelPull::new(a, 1, -3.0));
    assert_eq!(reg.output_taps(0), vec![(1, 0, -6.0), (0, 1, -3.0)]);
    reg.unload_source(a);
    // b is now the first loaded source.
    assert_eq!(reg.output_taps(0), vec![(0, 0, -6.0)]);
    let stale = reg.add_scene_output(SceneOutputConfig {
        position: [0.0; 3],
        orientation: None,
        directivity: 0.0,
        pulls: vec![ChannelPull::new(a, 0, 0.0), ChannelPull::new(b, 0, 1.0)],
        movability: Movability::Dynamic,
    });
    assert_eq!(stale.0, 1);
    assert_eq!(reg.output_taps(1), vec![(0, 0, 1.0)]);
}
