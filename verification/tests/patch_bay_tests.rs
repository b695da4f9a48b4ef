use quasar::patch_bay::{tap_routable, PatchBayNode, PatchEntry};

fn db_to_linear(db: f32) -> f32 {
    10.0_f32.powf(db / 20.0)
}

#[test]
fn set_pull_replaces_identical_tap() {
    let mut bay = PatchBayNode::new(1);
    bay.set_pull(0, PatchEntry { source_idx: 0, channel: 0, gain_linear: 1.0f32 });
    bay.set_pull(0, PatchEntry { source_idx: 0, channel: 0, gain_linear: 0.5 });
    assert_eq!(bay.pulls(0).len(), 1, "identical tap must be replaced, not appended");
    assert!((bay.pulls(0)[0].gain_linear - 0.5).abs() < 1e-6);
}

#[test]
fn set_pull_gain_updates_existing_tap() {
    let mut bay = PatchBayNode::new(1);
    bay.set_pull(0, PatchEntry { source_idx: 0, channel: 0, gain_linear: 1.0f32 });
    bay.set_pull_gain(0, 0, 0, 0.25);
    assert!((bay.pulls(0)[0].gain_linear - 0.25).abs() < 1e-6);
}

#[test]
fn skips_out_of_range_pulls_silently() {
    let mut bay = PatchBayNode::new(1);
    bay.set_pull(0, PatchEntry { source_idx: 99, channel: 0, gain_linear: 1.0f32 });
    bay.set_pull(0, PatchEntry { source_idx: 0, channel: 99, gain_linear: 1.0 });
    let source_channels = [1usize];
    for e in bay.pulls(0) {
        assert!(!tap_routable(e, &source_channels));
    }
    assert!(tap_routable(&PatchEntry { source_idx: 0, channel: 0, gain_linear: 1.0f32 }, &source_channels));
}

#[test]
fn busses_mix_independently_and_resize() {
    let mut bay = PatchBayNode::new(2);
    bay.set_pull(0, PatchEntry { source_idx: 0, channel: 0, gain_linear: db_to_linear(0.0) });
    bay.set_pull(0, PatchEntry { source_idx: 0, channel: 1, gain_linear: db_to_linear(-6.0) });
    bay.set_pull(1, PatchEntry { source_idx: 1, channel: 0, gain_linear: 1.0 });
    // A bus that does not exist is ignored.
    bay.set_pull(5, PatchEntry { source_idx: 1, channel: 0, gain_linear: 1.0 });
    assert_eq!(bay.num_outputs(), 2);
    assert_eq!(bay.pulls(0).len(), 2);
    assert_eq!(bay.pulls(1).len(), 1);
    assert!(bay.pulls(5).is_empty());

    bay.remove_pull(0, 0, 0);
    assert_eq!(bay.pulls(0).len(), 1);
    assert_eq!(bay.pulls(0)[0].channel, 1);
    // Removing an absent tap changes nothing.
    bay.remove_pull(0, 3, 3);
    assert_eq!(bay.pulls(0).len(), 1);

    bay.resize(1);
    assert_eq!(bay.num_outputs(), 1);
    assert_eq!(bay.pulls(0).len(), 1);
    bay.resize(3);
    assert_eq!(bay.num_outputs(), 3);
    assert!(bay.pulls(2).is_empty());
}
