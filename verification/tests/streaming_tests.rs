use quasar::ring::{cache_fill, EofOutcome, RingBuf, SeekOutcome, StreamHeuristic, DEFAULT_RING_CAPACITY_FRAMES};
use quasar::streaming::{policy_to_u64, u64_to_policy, PolicyOverride, StreamingPolicy};

#[test]
fn policy_packing_values() {
    assert_eq!(policy_to_u64(StreamingPolicy::Common, false), 0);
    assert_eq!(policy_to_u64(StreamingPolicy::Once, false), 1);
    assert_eq!(policy_to_u64(StreamingPolicy::Auto, false), 2);
    assert_eq!(policy_to_u64(StreamingPolicy::Auto, true), 6);
    assert_eq!(u64_to_policy(5), (StreamingPolicy::Once, true));
    assert_eq!(u64_to_policy(3), (StreamingPolicy::Auto, false));
    for p in [StreamingPolicy::Common, StreamingPolicy::Once, StreamingPolicy::Auto] {
        for promoted in [false, true] {
            assert_eq!(u64_to_policy(policy_to_u64(p, promoted)), (p, promoted));
        }
    }
}

#[test]
fn policy_override_declares_policy() {
    let mut wrapped = PolicyOverride::new(41u32, StreamingPolicy::Once);
    assert_eq!(wrapped.policy(), StreamingPolicy::Once);
    *wrapped.inner_mut() += 1;
    assert_eq!(*wrapped.inner(), 42);
}

#[test]
fn ring_capacity_follows_policy() {
    let common = RingBuf::new(1, 100, StreamingPolicy::Common);
    assert_eq!(common.cap(), 100);
    let unknown = RingBuf::new(1, u64::MAX, StreamingPolicy::Common);
    assert_eq!(unknown.cap(), DEFAULT_RING_CAPACITY_FRAMES);
    let once = RingBuf::new(2, 100, StreamingPolicy::Once);
    assert_eq!(once.cap(), 40960);
    assert_eq!(once.snapshot().len(), 2 * 40960);
    assert_eq!(once.status(), (0, 0, 100, 40960, 0, 1, false));
}

#[test]
fn write_then_sample_and_copy_out() {
    let mut ring = RingBuf::new(2, 4, StreamingPolicy::Common);
    // Frames 2..5 of a stereo stream; frame 4 and 5 wrap to ring frames 0 and 1.
    ring.commit_chunk(&[]);
    ring.write(2, &[20, 21, 30, 31, 40, 41, 50, 51]);
    let data = ring.snapshot();
    assert_eq!(data.sample(4), 20);
    assert_eq!(data.sample(0), 40);
    // Nothing committed yet: the writer is at frame 0, so frame 2 is ahead but within a chunk.
    assert_eq!(ring.sample_at(2, 1), 21);
    assert_eq!(ring.sample_at(5, 0), 50);
    // Far ahead of the writer: silent.
    assert_eq!(ring.sample_at(10_000, 0), 0);

    let mut out = vec![9u32; 5];
    // The writer is at frame 0: nothing is readable from frame 0 on.
    assert_eq!(ring.copy_out(0, &mut out), 0);
    assert_eq!(out, vec![9; 5]);
}

#[test]
fn commit_chunk_advances_writer_and_reader_copies() {
    let mut ring = RingBuf::new(1, u64::MAX, StreamingPolicy::Once);
    assert_eq!(ring.chunk_request(), 4096);
    ring.commit_chunk(&[1, 2, 3, 4, 5]);
    assert_eq!(ring.write_frame(), 5);
    let mut out = vec![0u32; 3];
    assert_eq!(ring.copy_out(1, &mut out), 3);
    assert_eq!(out, vec![2, 3, 4]);
    let mut tail = vec![7u32; 4];
    assert_eq!(ring.copy_out(3, &mut tail), 2);
    assert_eq!(tail, vec![4, 5, 7, 7]);
    ring.set_read_frame(5);
    assert_eq!(ring.chunk_request(), 4096);
}

#[test]
fn chunk_request_is_bounded_by_free_room() {
    let mut ring = RingBuf::new(1, 10, StreamingPolicy::Common);
    assert_eq!(ring.chunk_request(), 10);
    ring.commit_chunk(&[1, 2, 3, 4, 5, 6, 7]);
    assert_eq!(ring.chunk_request(), 3);
    ring.commit_chunk(&[8, 9, 10]);
    assert_eq!(ring.chunk_request(), 0);
}

#[test]
fn common_policy_caches_on_first_eof() {
    let mut ring = RingBuf::new(1, 200, StreamingPolicy::Common);
    let mut heuristic = StreamHeuristic::new();
    ring.set_read_frame(150);
    assert_eq!(ring.on_eof(&mut heuristic, 0), EofOutcome::NowCached);
    assert!(ring.is_cached());
    assert_eq!(ring.write_frame(), 350);
    assert_eq!(ring.status().4, 1);
    // Cached: seeks are served from memory.
    assert_eq!(ring.apply_seek(&mut heuristic, 0, 5), SeekOutcome::ServedFromMemory);
    // The writer is kept a full pass ahead of the reader.
    ring.keep_cached_ahead();
    assert_eq!(ring.write_frame(), 350);
}

#[test]
fn once_policy_loops_from_disk_and_never_caches() {
    let mut ring = RingBuf::new(1, 50, StreamingPolicy::Once);
    let mut heuristic = StreamHeuristic::new();
    for t in 0..5u64 {
        assert_eq!(ring.on_eof(&mut heuristic, t), EofOutcome::SeekToStart);
        assert!(!ring.is_cached());
    }
    assert_eq!(ring.status().4, 5);
    assert_eq!(ring.apply_seek(&mut heuristic, 0, 6), SeekOutcome::SeekSource);
}

#[test]
fn auto_policy_promotes_to_cache() {
    let mut ring = RingBuf::new(1, 4, StreamingPolicy::Auto);
    let mut heuristic = StreamHeuristic::new();
    // First end-of-file opens the window.
    assert_eq!(ring.on_eof(&mut heuristic, 1_000), EofOutcome::SeekToStart);
    assert_eq!(heuristic.first_wrap_micros, Some(1_000));
    // A second one within ten seconds promotes the source.
    assert_eq!(ring.on_eof(&mut heuristic, 2_000_000), EofOutcome::Promoted);
    assert_eq!(ring.policy(), (StreamingPolicy::Auto, true));
    // The next one caches it.
    assert_eq!(ring.on_eof(&mut heuristic, 3_000_000), EofOutcome::CacheWholeSource);
    let mut cache = vec![0u32; 4];
    cache_fill(&mut cache, 1, 0, &[1, 2, 3], 3);
    cache_fill(&mut cache, 1, 3, &[4], 1);
    assert_eq!(cache, vec![1, 2, 3, 4]);
    ring.set_read_frame(10);
    ring.install_cache(cache);
    assert!(ring.is_cached());
    assert_eq!(ring.cap(), 4);
    assert_eq!(ring.write_frame(), 14);
    assert_eq!(ring.sample_at(13, 0), 2);
}

#[test]
fn auto_policy_window_expires() {
    let mut ring = RingBuf::new(1, 4, StreamingPolicy::Auto);
    let mut heuristic = StreamHeuristic::new();
    assert_eq!(ring.on_eof(&mut heuristic, 0), EofOutcome::SeekToStart);
    // Eleven seconds later: too late, the window restarts.
    assert_eq!(ring.on_eof(&mut heuristic, 11_000_000), EofOutcome::SeekToStart);
    assert_eq!(heuristic.first_wrap_micros, Some(11_000_000));
    assert_eq!(ring.policy(), (StreamingPolicy::Auto, false));
}

#[test]
fn auto_policy_rewinds_cache_within_window() {
    let mut ring = RingBuf::new(1, 1000, StreamingPolicy::Auto);
    let mut heuristic = StreamHeuristic::new();
    ring.commit_chunk(&[0; 100]);
    assert_eq!(ring.apply_seek(&mut heuristic, 10, 0), SeekOutcome::SeekSource);
    assert_eq!(heuristic.first_rewind_micros, Some(0));
    assert_eq!(ring.write_frame(), 10);
    ring.commit_chunk(&[0; 50]);
    assert_eq!(ring.apply_seek(&mut heuristic, 0, 1_000), SeekOutcome::SeekSourceThenCache);
    // Seeking forward is no rewind.
    assert_eq!(ring.apply_seek(&mut heuristic, 500, 2_000), SeekOutcome::SeekSource);
}

#[test]
fn pending_seek_is_taken_once() {
    let mut ring = RingBuf::new(1, 10, StreamingPolicy::Once);
    assert_eq!(ring.take_pending_seek(), None);
    assert!(!ring.should_stop());
    ring.request_stop();
    assert!(ring.should_stop());
}

#[test]
fn ring_try_new_sizes_like_new() {
    let ring = RingBuf::try_new(2, 1000, StreamingPolicy::Common).expect("fits");
    assert_eq!(ring.cap(), 1000);
    assert_eq!(ring.channels(), 2);
    let ring = RingBuf::try_new(2, 1000, StreamingPolicy::Once).expect("fits");
    assert_eq!(ring.cap(), DEFAULT_RING_CAPACITY_FRAMES);
    let ring = RingBuf::try_new(1, u64::MAX, StreamingPolicy::Common).expect("unknown length streams");
    assert_eq!(ring.cap(), DEFAULT_RING_CAPACITY_FRAMES);
}

#[test]
fn ring_try_new_refuses_oversized_rings() {
    assert!(RingBuf::try_new(usize::MAX, 10, StreamingPolicy::Auto).is_none());
    assert!(RingBuf::try_new(4, u64::MAX - 1, StreamingPolicy::Common).is_none());
}

#[test]
fn once_ring_stays_uncached_through_every_operation() {
    let mut ring = RingBuf::new(1, 50, StreamingPolicy::Once);
    let mut heuristic = StreamHeuristic::new();
    for pass in 0..3u64 {
        ring.commit_chunk(&[1, 2, 3, 4]);
        ring.set_read_frame(ring.write_frame());
        ring.keep_cached_ahead();
        assert_eq!(ring.apply_seek(&mut heuristic, 0, pass * 10), SeekOutcome::SeekSource);
        assert_eq!(ring.on_eof(&mut heuristic, pass * 10 + 1), EofOutcome::SeekToStart);
        assert_eq!(ring.take_pending_seek(), None);
        assert!(!ring.is_cached());
        assert_eq!(ring.policy(), (StreamingPolicy::Once, false));
    }
}
