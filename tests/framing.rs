use rustique::spectrum::{bin_frequency, frame_count, frame_offsets, power_of_two, AnalysisConfig};

#[test]
fn config_accepts_powers_of_two() {
    let c = AnalysisConfig::new(44100, 4096).unwrap();
    assert_eq!(c.window_size, 4096);
    assert_eq!(c.hop_size, 2048);
    assert_eq!(c.bin_count(), 2048);
    assert!(AnalysisConfig::new(48000, 2).is_some());
}

#[test]
fn config_rejects_bad_settings() {
    assert!(AnalysisConfig::new(0, 4096).is_none());
    assert!(AnalysisConfig::new(44100, 3000).is_none());
    assert!(AnalysisConfig::new(44100, 1).is_none());
    assert!(AnalysisConfig::new(44100, 0).is_none());
    assert!(AnalysisConfig::new(44100, 1 << 21).is_none());
}

#[test]
fn powers_of_two() {
    assert!(power_of_two(1));
    assert!(power_of_two(1024));
    assert!(!power_of_two(0));
    assert!(!power_of_two(6));
    assert!(!power_of_two(1023));
}

#[test]
fn short_buffer_has_no_frames() {
    let c = AnalysisConfig::new(44100, 4096).unwrap();
    assert_eq!(frame_offsets(0, &c), Vec::<usize>::new());
    assert_eq!(frame_offsets(4095, &c), Vec::<usize>::new());
    assert_eq!(frame_count(4095, 4096, 2048), 0);
}

#[test]
fn one_window_gives_one_frame_and_a_hop_more_gives_two() {
    let c = AnalysisConfig::new(44100, 4096).unwrap();
    assert_eq!(frame_offsets(4096, &c), vec![0]);
    assert_eq!(frame_offsets(4096 + 2048, &c), vec![0, 2048]);
    assert_eq!(frame_offsets(4096 + 2047, &c), vec![0]);
    assert_eq!(frame_offsets(8192, &c), vec![0, 2048, 4096]);
    assert_eq!(frame_count(8192, 4096, 2048), 3);
}

#[test]
fn bin_frequencies_in_units() {
    // 41 * 44100 / 4096 Hz = 441.43 Hz, in 1/1600 Hz units.
    assert_eq!(bin_frequency(41, 44100, 4096), 706289);
    assert_eq!(bin_frequency(0, 44100, 4096), 0);
    assert_eq!(bin_frequency(1, 48000, 1024), 75000);
    let c = AnalysisConfig::new(44100, 4096).unwrap();
    assert_eq!(c.bin_width(), 17227);
}
