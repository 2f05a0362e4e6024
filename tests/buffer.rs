use rustique::buffer::SampleBuffer;
use rustique::spectrum::AnalysisConfig;

#[test]
fn append_keeps_arrival_order() {
    let mut b: SampleBuffer<i32> = SampleBuffer::new();
    b.append(&[1, 2, 3]);
    b.append(&[4]);
    assert_eq!(b.samples(), &[1, 2, 3, 4]);
    assert_eq!(b.len(), 4);
}

#[test]
fn drain_front_removes_head() {
    let mut b: SampleBuffer<i32> = SampleBuffer::new();
    b.append(&[1, 2, 3, 4, 5]);
    b.drain_front(2);
    assert_eq!(b.samples(), &[3, 4, 5]);
}

#[test]
fn drain_front_clamps_to_length() {
    let mut b: SampleBuffer<i32> = SampleBuffer::new();
    b.append(&[1, 2, 3]);
    b.drain_front(10);
    assert_eq!(b.len(), 0);
    b.drain_front(1);
    assert_eq!(b.len(), 0);
}

#[test]
fn complete_pass_keeps_short_buffer() {
    let config = AnalysisConfig::new(44100, 8).unwrap();
    let mut b: SampleBuffer<f32> = SampleBuffer::new();
    b.append(&[0.5; 7]);
    b.complete_pass(&config);
    assert_eq!(b.len(), 7);
}

#[test]
fn complete_pass_drains_one_hop() {
    let config = AnalysisConfig::new(44100, 4096).unwrap();
    let mut b: SampleBuffer<f32> = SampleBuffer::new();
    let chunk: Vec<f32> = (0..8192).map(|i| i as f32).collect();
    b.append(&chunk);
    b.complete_pass(&config);
    assert_eq!(b.len(), 8192 - 2048);
    assert_eq!(b.samples()[0], 2048.0);
    b.complete_pass(&config);
    assert_eq!(b.len(), 8192 - 4096);
    assert_eq!(b.samples()[0], 4096.0);
}

#[test]
fn complete_pass_on_exact_window() {
    let config = AnalysisConfig::new(48000, 1024).unwrap();
    let mut b: SampleBuffer<f32> = SampleBuffer::new();
    b.append(&[0.0; 1024]);
    b.complete_pass(&config);
    assert_eq!(b.len(), 512);
    b.complete_pass(&config);
    assert_eq!(b.len(), 512);
}
