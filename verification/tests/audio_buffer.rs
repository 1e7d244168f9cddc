use improve::audio_buffer::{AudioBuffer, BufferOptions, MAX_RESOLUTION, MIN_RESOLUTION};

fn options(resolution: usize, discard: bool, overlap: bool) -> BufferOptions {
    BufferOptions { resolution, discard, overlap }
}

#[test]
fn default_options_are_a_strict_partition_of_nothing() {
    let options = BufferOptions::default();
    assert_eq!(options.resolution, 0);
    assert!(!options.discard);
    assert!(!options.overlap);
}

#[test]
fn a_new_buffer_is_empty() {
    let buffer: AudioBuffer<f32> = AudioBuffer::new(options(4, false, false));
    assert_eq!(buffer.len(), 0);
    assert!(!buffer.is_ready());
}

#[test]
fn take_reports_none_until_a_window_is_buffered() {
    let mut buffer: AudioBuffer<f32> = AudioBuffer::new(options(4, false, false));
    assert_eq!(buffer.take(), None);
    buffer.extend(vec![0.1, 0.2, 0.3]);
    assert!(!buffer.is_ready());
    assert_eq!(buffer.take(), None);
    assert_eq!(buffer.len(), 3);
    buffer.extend(vec![0.4]);
    assert!(buffer.is_ready());
    assert_eq!(buffer.take(), Some(vec![0.1, 0.2, 0.3, 0.4]));
    assert_eq!(buffer.len(), 0);
}

#[test]
fn a_starved_buffer_keeps_reporting_none() {
    let mut buffer: AudioBuffer<f32> = AudioBuffer::new(options(3, true, true));
    buffer.extend(vec![1.0, 2.0]);
    for _ in 0..5 {
        assert_eq!(buffer.take(), None);
        assert_eq!(buffer.len(), 2);
    }
}

#[test]
fn every_window_has_the_resolution() {
    for &(discard, overlap) in &[(false, false), (false, true), (true, false), (true, true)] {
        let mut buffer: AudioBuffer<u32> = AudioBuffer::new(options(5, discard, overlap));
        let mut next: u32 = 0;
        let mut windows = 0;
        for chunk in 1..20usize {
            let packet: Vec<u32> = (0..chunk as u32).map(|i| next + i).collect();
            next += chunk as u32;
            buffer.extend(packet);
            if let Some(window) = buffer.take() {
                assert_eq!(window.len(), 5);
                windows += 1;
            }
        }
        assert!(windows > 0);
    }
}

#[test]
fn strict_partition_covers_the_input_once() {
    let mut buffer: AudioBuffer<u32> = AudioBuffer::new(options(3, false, false));
    let mut out: Vec<u32> = Vec::new();
    buffer.extend(vec![0, 1]);
    assert_eq!(buffer.take(), None);
    buffer.extend(vec![2, 3, 4, 5, 6]);
    while let Some(window) = buffer.take() {
        out.extend(window);
    }
    assert_eq!(out, vec![0, 1, 2, 3, 4, 5]);
    assert_eq!(buffer.len(), 1);
    buffer.extend(vec![7, 8]);
    assert_eq!(buffer.take(), Some(vec![6, 7, 8]));
    assert_eq!(buffer.take(), None);
}

#[test]
fn discard_keeps_the_most_recent_samples() {
    let mut buffer: AudioBuffer<u32> = AudioBuffer::new(options(3, true, false));
    buffer.extend(vec![0, 1, 2, 3, 4, 5, 6, 7]);
    assert_eq!(buffer.take(), Some(vec![5, 6, 7]));
    assert_eq!(buffer.len(), 0);
    assert_eq!(buffer.take(), None);
}

#[test]
fn discard_never_leaves_more_than_a_window_behind() {
    for &overlap in &[false, true] {
        let mut buffer: AudioBuffer<u32> = AudioBuffer::new(options(4, true, overlap));
        for round in 0..10u32 {
            buffer.extend((0..(round * 3 + 1)).collect());
            buffer.take();
            assert!(buffer.len() <= 4);
        }
    }
}

#[test]
fn overlap_hands_out_the_tail_of_the_last_window_again() {
    let mut buffer: AudioBuffer<u32> = AudioBuffer::new(options(4, false, true));
    buffer.extend(vec![0, 1, 2, 3, 4, 5]);
    // Two samples beyond the window: they are what leaves the buffer.
    assert_eq!(buffer.take(), Some(vec![0, 1, 2, 3]));
    assert_eq!(buffer.len(), 4);
    assert_eq!(buffer.take(), Some(vec![2, 3, 4, 5]));
    // Nothing new has come: the same window again.
    assert_eq!(buffer.take(), Some(vec![2, 3, 4, 5]));
    buffer.extend(vec![6]);
    assert_eq!(buffer.take(), Some(vec![2, 3, 4, 5]));
    assert_eq!(buffer.take(), Some(vec![3, 4, 5, 6]));
}

#[test]
fn overlap_drops_at_most_one_window_at_a_time() {
    let mut buffer: AudioBuffer<u32> = AudioBuffer::new(options(2, false, true));
    buffer.extend(vec![0, 1, 2, 3, 4, 5, 6]);
    assert_eq!(buffer.take(), Some(vec![0, 1]));
    assert_eq!(buffer.len(), 5);
    assert_eq!(buffer.take(), Some(vec![2, 3]));
    assert_eq!(buffer.len(), 3);
    assert_eq!(buffer.take(), Some(vec![4, 5]));
    assert_eq!(buffer.len(), 2);
    assert_eq!(buffer.take(), Some(vec![5, 6]));
}

#[test]
fn overlap_with_discard_slides_by_what_arrived() {
    let mut buffer: AudioBuffer<u32> = AudioBuffer::new(options(4, true, true));
    buffer.extend(vec![0, 1, 2, 3, 4, 5]);
    assert_eq!(buffer.take(), Some(vec![2, 3, 4, 5]));
    assert_eq!(buffer.len(), 4);
    buffer.extend(vec![6, 7, 8]);
    assert_eq!(buffer.take(), Some(vec![5, 6, 7, 8]));
    assert_eq!(buffer.len(), 4);
}

#[test]
fn a_resolution_of_zero_gives_empty_windows() {
    let mut buffer: AudioBuffer<f32> = AudioBuffer::new(options(0, false, false));
    assert!(buffer.is_ready());
    assert_eq!(buffer.take(), Some(vec![]));
    buffer.extend(vec![0.5]);
    assert_eq!(buffer.take(), Some(vec![]));
    assert_eq!(buffer.len(), 1);
}

#[test]
fn samples_keep_their_values() {
    let mut buffer: AudioBuffer<f32> = AudioBuffer::new(options(2, false, false));
    buffer.extend(vec![-1.0, 0.25]);
    buffer.extend(vec![1.0]);
    assert_eq!(buffer.take(), Some(vec![-1.0, 0.25]));
    assert_eq!(buffer.len(), 1);
}

#[test]
fn the_range_of_resolutions() {
    assert_eq!(MIN_RESOLUTION, 32);
    assert_eq!(MAX_RESOLUTION, 1_048_576);
    assert!(!options(0, false, false).in_range());
    assert!(!options(31, false, false).in_range());
    assert!(options(32, false, false).in_range());
    assert!(options(8192, false, false).in_range());
    assert!(options(1_048_576, false, false).in_range());
    assert!(!options(1_048_577, false, false).in_range());
}
