use rftp::progress::{ProgressBars, ProgressDirectory, ProgressFile};

#[test]
fn test_ratio_after_full_record() {
    let mut p = ProgressFile::new("f.txt", 100, 0);
    assert_eq!(p.get_ratio_permille(), 0);
    p.inc(10, 100);
    assert_eq!(p.get_ratio_permille(), 1000);
    assert!(!p.is_finished());
}

#[test]
fn test_finish_on_fresh_meter() {
    let mut p = ProgressFile::new("f.txt", 100, 0);
    p.finish();
    assert_eq!(p.get_ratio_permille(), 1000);
    assert!(p.is_finished());
    assert_eq!(p.get_eta(), Some(0));
}

#[test]
fn test_ratio_partial() {
    let mut p = ProgressFile::new("f.txt", 200, 0);
    p.inc(1, 50);
    assert_eq!(p.get_ratio_permille(), 250);
    p.inc(2, 50);
    assert_eq!(p.get_ratio_permille(), 500);
}

#[test]
fn test_ratio_zero_total() {
    let p = ProgressFile::new("dirlike", 0, 0);
    assert_eq!(p.get_ratio_permille(), 0);
}

#[test]
fn test_throughput_window() {
    // Four samples of 4096 bytes at t = 0.25s, 0.5s, 0.75s, 1.0s after
    // the zero-byte seed sample at t = 0.
    let mut p = ProgressFile::new("with_history.dat", 1_000_000, 0);
    p.inc(250, 4096);
    p.inc(500, 4096);
    p.inc(750, 4096);
    p.inc(1000, 4096);
    // 16384 bytes over one second: 131072 bits per second.
    assert_eq!(p.get_current_bitrate(), 131_072);
    // The derived ETA for the 1,000,000-byte total is strictly positive
    // and finite.
    let eta = p.get_eta().unwrap();
    assert!(eta > 0);
    assert_eq!(eta, (1_000_000 - 4 * 4096) / (131_072 / 8));
}

#[test]
fn test_eta_without_throughput() {
    let p = ProgressFile::new("f.txt", 100, 0);
    // Only the seed sample: no interval, no rate, no estimate.
    assert_eq!(p.get_current_bitrate(), 0);
    assert_eq!(p.get_eta(), None);
}

#[test]
fn test_history_window_eviction() {
    let mut p = ProgressFile::new("f.txt", 1_000_000, 0);
    p.inc(1000, 1000);
    // Ten seconds later, both earlier samples have left the five-second
    // window; a single sample spans no interval, so the rate is zero.
    p.inc(11_000, 1000);
    assert_eq!(p.get_current_bitrate(), 0);
}

#[test]
fn test_directory_meter() {
    let mut d = ProgressDirectory::new("/some/directory");
    assert!(!d.is_finished());
    d.inc(1234);
    d.inc(5678);
    assert_eq!(d.get_bytes_sent(), 6912);
    assert_eq!(d.get_files_sent(), 2);
    assert_eq!(d.get_title(), "/some/directory");
    d.finish();
    assert!(d.is_finished());
    // The counters stay as they were.
    assert_eq!(d.get_bytes_sent(), 6912);
    assert_eq!(d.get_files_sent(), 2);
}

#[test]
fn test_retain_incomplete() {
    let mut bars = ProgressBars::new();
    assert!(bars.is_empty());
    bars.push_file_progress(ProgressFile::new("a", 10, 0));
    let mut done = ProgressFile::new("b", 10, 0);
    done.finish();
    bars.push_file_progress(done);
    bars.push_file_progress(ProgressFile::new("c", 10, 0));
    let mut dir_done = ProgressDirectory::new("d");
    dir_done.finish();
    bars.push_directory_progress(dir_done);
    bars.push_directory_progress(ProgressDirectory::new("e"));
    assert!(!bars.is_empty());
    assert_eq!(bars.num_files(), 3);
    assert_eq!(bars.num_directories(), 2);

    bars.retain_incomplete();
    assert_eq!(bars.num_files(), 2);
    assert_eq!(bars.file_at(0).get_title(), "a");
    assert_eq!(bars.file_at(1).get_title(), "c");
    assert_eq!(bars.num_directories(), 1);
    assert_eq!(bars.directory_at(0).get_title(), "e");
}

#[test]
fn test_finish_clears_history() {
    let mut p = ProgressFile::new("f.txt", 1_000_000, 0);
    p.inc(250, 4096);
    p.inc(500, 4096);
    assert!(p.get_current_bitrate() > 0);
    p.finish();
    assert_eq!(p.get_current_bitrate(), 0);
    assert_eq!(p.get_eta(), Some(0));
    assert_eq!(p.get_title(), "f.txt");
}
