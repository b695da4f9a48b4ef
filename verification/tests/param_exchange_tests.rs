use quasar::param_exchange::{ParameterTripleBuffer, MAX_SPATIAL_SOURCES};

/// Per-source coefficients, as the engine publishes them.
#[derive(Clone, Debug, PartialEq)]
struct Coefficients {
    source_id: u32,
    direct_gain: [f32; 8],
    direct_delay_samples: f32,
    late_t60: [f32; 8],
    late_gain_db: f32,
}

fn coefficients(source_id: u32, gain: f32, delay: f32, t60: f32, late_gain_db: f32) -> Coefficients {
    Coefficients {
        source_id,
        direct_gain: [gain; 8],
        direct_delay_samples: delay,
        late_t60: [t60; 8],
        late_gain_db,
    }
}

#[test]
fn triple_buffer_write_read() {
    let initial = coefficients(0, 0.0, 0.0, 0.5, -10.0);
    let mut tb = ParameterTripleBuffer::new(1, initial);
    let updated = coefficients(1, 0.8, 12.5, 1.2, -6.0);

    *tb.begin_write(0) = updated.clone();
    tb.end_write(0);
    tb.update();

    let read = tb.read(0);
    assert_eq!(read.source_id, updated.source_id);
    assert!((read.direct_gain[0] - 0.8).abs() < 1e-6);
    assert!((read.direct_delay_samples - 12.5).abs() < 1e-6);
    assert!((read.late_t60[3] - 1.2).abs() < 1e-6);
    assert!((read.late_gain_db + 6.0).abs() < 1e-6);
}

#[test]
fn triple_buffer_no_data_loss() {
    let initial = coefficients(0, 0.0, 0.0, 0.5, -10.0);
    let mut tb = ParameterTripleBuffer::new(1, initial);
    for i in 1..=5u32 {
        *tb.begin_write(0) = coefficients(i, i as f32 * 0.1, i as f32, 0.5, -10.0);
        tb.end_write(0);
    }
    tb.update();
    let read = tb.read(0);
    assert_eq!(read.source_id, 5);
    assert!((read.direct_gain[0] - 0.5).abs() < 1e-6);
}

#[test]
fn triple_buffer_reads_never_go_backwards() {
    let mut tb = ParameterTripleBuffer::new(2, coefficients(0, 0.0, 0.0, 0.5, -10.0));
    let mut last = 0u32;
    for i in 0..100u32 {
        if i % 3 == 0 {
            *tb.begin_write(0) = coefficients(i, 0.0, 0.0, 0.5, -10.0);
            tb.end_write(0);
        }
        tb.update();
        let r = tb.read(0).source_id;
        assert!(r >= last);
        last = r;
        // Source 1 never publishes: it keeps reading its initial value.
        assert_eq!(tb.read(1).source_id, 0);
        assert_eq!(tb.read_version(1), 0);
    }
}

#[test]
fn triple_buffer_versions_follow_publications() {
    let mut tb = ParameterTripleBuffer::new(MAX_SPATIAL_SOURCES, 0u64);
    assert_eq!(tb.num_sources(), 32);
    *tb.begin_write(3) = 30;
    tb.end_write(3);
    *tb.begin_write(7) = 70;
    tb.end_write(7);
    assert_eq!(tb.latest_version(), 2);
    // Published but not yet taken.
    assert_eq!(*tb.read(3), 0);
    tb.update();
    assert_eq!(*tb.read(3), 30);
    assert_eq!(tb.read_version(3), 1);
    assert_eq!(*tb.read(7), 70);
    assert_eq!(tb.read_version(7), 2);
    // A second update with nothing new keeps the data.
    tb.update();
    assert_eq!(*tb.read(3), 30);
}
