use simple_whisper::download::{use_cached, DownloadState, DownloadTracker};
use simple_whisper::event::Event;

fn progress(e: Option<Event>) -> (String, usize, usize, u32, u64, u64) {
    match e {
        Some(Event::DownloadProgress { file, offset, len, percentage, elapsed_ms, remaining_ms }) => {
            (file, offset, len, percentage, elapsed_ms, remaining_ms)
        }
        _ => panic!("expected progress"),
    }
}

#[test]
fn progress_is_extrapolated_from_mean_throughput() {
    let mut s = DownloadState::new(200, "model.bin", 1000);
    assert_eq!(progress(s.update(50, 3000)), ("model.bin".to_string(), 50, 200, 25, 2000, 6000));
    assert_eq!(s.offset, 50);
}

#[test]
fn no_progress_reports_nothing() {
    let mut s = DownloadState::new(200, "model.bin", 0);
    assert!(s.update(0, 10).is_none());
    assert_eq!(s.offset, 0);
}

#[test]
fn progress_stops_at_the_file_length() {
    let mut s = DownloadState::new(200, "f", 1000);
    assert_eq!(progress(s.update(1000, 5000)), ("f".to_string(), 200, 200, 100, 4000, 0));
    assert_eq!(progress(s.update(1, 6000)).3, 100);
}

#[test]
fn under_one_percent_counts_as_one_unit() {
    let mut s = DownloadState::new(1000, "f", 0);
    assert_eq!(progress(s.update(1, 100)), ("f".to_string(), 1, 1000, 0, 100, 9900));
}

#[test]
fn empty_file_is_complete() {
    let mut s = DownloadState::new(0, "f", 0);
    assert_eq!(progress(s.update(5, 10)), ("f".to_string(), 0, 0, 100, 10, 0));
}

#[test]
fn clock_going_back_counts_no_time() {
    let mut s = DownloadState::new(10, "f", 500);
    assert_eq!(progress(s.update(5, 100)).4, 0);
}

#[test]
fn tracker_reports_file_by_file() {
    let mut t = DownloadTracker::new();
    assert!(t.update(10, 0).is_none());
    assert!(t.finish().is_none());
    assert!(matches!(t.init(100, "a", 0), Some(Event::DownloadStarted { ref file }) if file == "a"));
    assert!(t.init(100, "b", 0).is_none());
    let mut last = 0;
    for k in 1..=10u64 {
        let p = progress(t.update(10, k * 10));
        assert_eq!(p.0, "a");
        assert!(p.3 >= last && p.3 <= 100);
        last = p.3;
    }
    assert_eq!(last, 100);
    assert!(matches!(t.finish(), Some(Event::DownloadCompleted { ref file }) if file == "a"));
    assert!(t.update(10, 0).is_none());
    assert!(matches!(t.init(5, "b", 0), Some(Event::DownloadStarted { ref file }) if file == "b"));
}

#[test]
fn cache_is_used_unless_forced() {
    assert!(use_cached(false, true));
    assert!(!use_cached(true, true));
    assert!(!use_cached(false, false));
    assert!(!use_cached(true, false));
}
