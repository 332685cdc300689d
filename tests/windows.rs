use simple_whisper::windows::AudioWindows;

fn all_bounds(w: &AudioWindows) -> Vec<(usize, usize)> {
    (0..w.len()).map(|i| w.bounds(i)).collect()
}

#[test]
fn windows_cover_the_buffer_without_gaps() {
    let w = AudioWindows::new(10, 4, 1);
    assert_eq!(w.shift, 3);
    assert_eq!(w.len(), 4);
    assert_eq!(all_bounds(&w), vec![(0, 4), (3, 7), (6, 10), (9, 10)]);
}

#[test]
fn windows_without_overlap_tile_the_buffer() {
    let w = AudioWindows::new(12, 4, 0);
    assert_eq!(w.len(), 3);
    assert_eq!(all_bounds(&w), vec![(0, 4), (4, 8), (8, 12)]);
}

#[test]
fn window_count_is_the_ceiling() {
    for n in 0..50usize {
        for window in 1..8usize {
            for overlap in 0..10usize {
                let w = AudioWindows::new(n, window, overlap);
                let shift = if window > overlap { window - overlap } else { 1 };
                assert_eq!(w.len(), (n + shift - 1) / shift);
                let b = all_bounds(&w);
                if n > 0 {
                    assert_eq!(b[0].0, 0);
                    assert_eq!(b[b.len() - 1].1, n);
                    for k in 1..b.len() {
                        assert!(b[k].0 <= b[k - 1].1);
                    }
                } else {
                    assert!(b.is_empty());
                }
            }
        }
    }
}

#[test]
fn empty_audio_has_no_window() {
    assert_eq!(AudioWindows::new(0, 480000, 0).len(), 0);
}

#[test]
fn overlap_at_least_the_window_steps_one_sample() {
    let w = AudioWindows::new(5, 3, 3);
    assert_eq!(w.shift, 1);
    assert_eq!(w.len(), 5);
    assert_eq!(w.bounds(4), (4, 5));
}
