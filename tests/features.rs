use orb::append::AppendBuffer;
use orb::config::{OrbConfig, OrbParams};
use orb::descriptor::{hamming_distance, popcount_u32};
use orb::detect::detect_corners;
use orb::host::HostPipeline;
use orb::kernels::{describe_corner, grayscale, peak_scores};
use orb::matching::match_descriptors;
use orb::program::FrameError;
use orb::readback::Corner;

#[test]
fn append_drops_past_capacity() {
    let mut b = AppendBuffer::new(2, 0u32);
    assert_eq!(b.append(10), Some(0));
    assert_eq!(b.append(11), Some(1));
    assert_eq!(b.append(12), None);
    assert_eq!(b.counter_value(), 3);
    assert_eq!(b.written_len(), 2);
    assert_eq!(b.records_vec(), vec![10, 11]);
    b.clear();
    assert_eq!(b.written_len(), 0);
    assert_eq!(b.append(13), Some(0));
    assert_eq!(b.record(0), 13);
}

#[test]
fn popcount_and_hamming() {
    assert_eq!(popcount_u32(0), 0);
    assert_eq!(popcount_u32(0b1011), 3);
    assert_eq!(popcount_u32(u32::MAX), 32);
    let zero = [0u32; 8];
    let ones = [u32::MAX; 8];
    assert_eq!(hamming_distance(&zero, &ones), 256);
    assert_eq!(hamming_distance(&ones, &ones), 0);
    let mut one_bit = zero;
    one_bit[5] = 1 << 17;
    assert_eq!(hamming_distance(&zero, &one_bit), 1);
}

#[test]
fn matching_accepts_within_threshold() {
    let a = [0u32; 8];
    let mut b = a;
    b[0] = 0b111;
    let mut far = a;
    far[1] = 0xffff;
    let latest = vec![a, far];
    let previous = vec![b, a, far];
    let m = match_descriptors(&latest, 2, &previous, 3, 3, 10);
    // (0,0): distance 3, (0,1): 0, (1,2): 0; (0,2), (1,0), (1,1) are 16 or more apart.
    assert_eq!(m.records_vec(), vec![0 + 65536 * 0, 0 + 65536 * 1, 1 + 65536 * 2]);
    let strict = match_descriptors(&latest, 2, &previous, 3, 2, 10);
    assert_eq!(strict.records_vec(), vec![65536, 1 + 65536 * 2]);
}

#[test]
fn matching_ignores_slots_past_counts() {
    let a = [0u32; 8];
    let m = match_descriptors(&vec![a, a], 1, &vec![a, a], 0, 0, 10);
    assert_eq!(m.counter_value(), 0);
    let m = match_descriptors(&vec![a, a], 2, &vec![a, a], 2, 0, 3);
    assert_eq!(m.counter_value(), 4);
    assert_eq!(m.records_vec(), vec![0, 65536, 1]);
}

#[test]
fn detector_clamps_to_capacity() {
    // Every pixel of a 4x4 grid qualifies; the list holds five.
    let scores = vec![9u32; 16];
    let b = detect_corners(&scores, 4, 4, 0, 5);
    assert_eq!(b.counter_value(), 16);
    assert_eq!(b.written_len(), 5);
    let expect: Vec<Corner> = vec![
        Corner { x: 0, y: 0 },
        Corner { x: 1, y: 0 },
        Corner { x: 2, y: 0 },
        Corner { x: 3, y: 0 },
        Corner { x: 0, y: 1 },
    ];
    assert_eq!(b.records_vec(), expect);
}

#[test]
fn detector_keeps_scores_above_threshold() {
    let mut scores = vec![0u32; 12];
    scores[1 * 4 + 2] = 50;
    scores[2 * 4 + 0] = 5;
    let b = detect_corners(&scores, 4, 3, 5, 8);
    assert_eq!(b.records_vec(), vec![Corner { x: 2, y: 1 }]);
}

fn bright_pixel(frame: &mut Vec<u8>, width: usize, x: usize, y: usize) {
    let i = 4 * (y * width + x);
    frame[i] = 255;
    frame[i + 1] = 255;
    frame[i + 2] = 255;
    frame[i + 3] = 255;
}

#[test]
fn grayscale_means_channels() {
    let mut frame = vec![0u8; 2 * 2 * 4];
    bright_pixel(&mut frame, 2, 1, 0);
    // One pixel of pure red: (255 + 0 + 0) / 3.
    frame[4 * (1 * 2 + 0)] = 255;
    let g = grayscale(&frame, 2, 2);
    assert_eq!(g, vec![0, 255, 85, 0]);
}

#[test]
fn peak_score_of_single_bright_pixel() {
    let mut g = vec![0u8; 9];
    g[4] = 200;
    g[0] = 50;
    let s = peak_scores(&g, 3, 3);
    assert_eq!(s, vec![50, 0, 0, 0, 200, 0, 0, 0, 0]);
}

#[test]
fn descriptor_of_flat_surface_is_zero() {
    let g = vec![7u8; 32 * 32];
    assert_eq!(describe_corner(&g, 32, 32, Corner { x: 10, y: 10 }), [0u32; 8]);
}

#[test]
fn descriptor_of_dark_corner_on_bright_surface_is_full() {
    let mut g = vec![100u8; 32 * 32];
    g[16 * 32 + 16] = 0;
    let d = describe_corner(&g, 32, 32, Corner { x: 16, y: 16 });
    // Every sample but the corner's own (offset 0, 0: bit 136) is brighter.
    let mut expect = [u32::MAX; 8];
    expect[4] &= !(1 << 8);
    assert_eq!(d, expect);
}

fn config(max_features: u32, corner_threshold: u32) -> OrbConfig {
    OrbConfig { width: 64, height: 64, max_features, max_matches: 64, corner_threshold, match_threshold: 8 }
}

fn params(record_keyframe: bool, compute_matches: bool) -> OrbParams {
    OrbParams { record_keyframe, compute_matches }
}

#[test]
fn black_frame_yields_no_corners_or_matches() {
    let mut p = HostPipeline::new(config(16, 255)).ok().unwrap();
    let frame = vec![0u8; 64 * 64 * 4];
    assert_eq!(p.run_cycle(&frame, params(true, true)), Ok(()));
    assert_eq!(p.run_cycle(&frame, params(false, true)), Ok(()));
    assert_eq!(p.latest().corners().written_len(), 0);
    assert_eq!(p.read_corners().len(), 0);
    assert_eq!(p.read_descriptors().len(), 0);
    assert_eq!(p.matches().written_len(), 0);
    assert_eq!(p.read_matches().len(), 0);
}

#[test]
fn single_bright_pixel_yields_one_corner() {
    let mut p = HostPipeline::new(config(1, 10)).ok().unwrap();
    let mut frame = vec![0u8; 64 * 64 * 4];
    bright_pixel(&mut frame, 64, 27, 43);
    assert_eq!(p.run_cycle(&frame, params(false, false)), Ok(()));
    assert_eq!(p.latest().corners().written_len(), 1);
    assert_eq!(p.read_corners(), vec![Corner { x: 27, y: 43 }]);
}

#[test]
fn single_pixel_at_frame_border() {
    let mut p = HostPipeline::new(config(4, 10)).ok().unwrap();
    let mut frame = vec![0u8; 64 * 64 * 4];
    bright_pixel(&mut frame, 64, 63, 0);
    p.run_cycle(&frame, params(false, false)).unwrap();
    assert_eq!(p.read_corners(), vec![Corner { x: 63, y: 0 }]);
}

#[test]
fn repeated_cycle_gives_same_output() {
    let mut p = HostPipeline::new(config(8, 10)).ok().unwrap();
    let mut frame = vec![0u8; 64 * 64 * 4];
    bright_pixel(&mut frame, 64, 3, 4);
    bright_pixel(&mut frame, 64, 20, 9);
    p.run_cycle(&frame, params(false, false)).unwrap();
    let corners = p.latest().corners().records_vec();
    let descriptors = p.latest().descriptors().clone();
    p.run_cycle(&frame, params(false, false)).unwrap();
    assert_eq!(corners.len(), 2);
    assert_eq!(p.latest().corners().records_vec(), corners);
    assert_eq!(p.latest().descriptors()[..2], descriptors[..2]);
}

#[test]
fn keyframe_stays_until_next_record() {
    let mut p = HostPipeline::new(config(8, 10)).ok().unwrap();
    let mut a = vec![0u8; 64 * 64 * 4];
    bright_pixel(&mut a, 64, 5, 5);
    let mut b = vec![0u8; 64 * 64 * 4];
    bright_pixel(&mut b, 64, 7, 30);
    bright_pixel(&mut b, 64, 25, 2);
    p.run_cycle(&a, params(true, false)).unwrap();
    let kept = p.latest().corners().records_vec();
    p.run_cycle(&b, params(false, true)).unwrap();
    p.run_cycle(&b, params(false, false)).unwrap();
    assert_eq!(p.latest().corners().written_len(), 2);
    assert_eq!(p.previous().corners().records_vec(), kept);
    assert_eq!(kept, vec![Corner { x: 5, y: 5 }]);
    p.run_cycle(&b, params(true, false)).unwrap();
    assert_eq!(p.previous().corners().written_len(), 2);
}

#[test]
fn matches_against_keyframe_are_within_threshold() {
    let mut p = HostPipeline::new(config(8, 10)).ok().unwrap();
    let mut frame = vec![0u8; 64 * 64 * 4];
    bright_pixel(&mut frame, 64, 3, 4);
    bright_pixel(&mut frame, 64, 20, 9);
    p.run_cycle(&frame, params(true, false)).unwrap();
    p.run_cycle(&frame, params(false, true)).unwrap();
    let latest = p.latest().descriptors();
    let previous = p.previous().descriptors();
    let records = p.matches().records_vec();
    assert!(records.contains(&(0 + 65536 * 0)));
    assert!(records.contains(&(1 + 65536 * 1)));
    for r in records {
        let (i, j) = ((r % 65536) as usize, (r / 65536) as usize);
        assert!(i < 2 && j < 2);
        assert!(hamming_distance(&latest[i], &previous[j]) <= 8);
    }
}

#[test]
fn wrong_frame_length_is_refused() {
    let mut p = HostPipeline::new(config(8, 10)).ok().unwrap();
    assert_eq!(p.run_cycle(&vec![0u8; 10], params(true, true)), Err(FrameError::WrongLength));
    assert_eq!(p.latest().corners().counter_value(), 0);
}

#[test]
fn host_reads_are_clamped() {
    let c = OrbConfig { width: 16, height: 16, max_features: 3, max_matches: 4, corner_threshold: 0, match_threshold: 256 };
    let mut p = HostPipeline::new(c).ok().unwrap();
    let mut frame = vec![0u8; 16 * 16 * 4];
    for (gx, gy) in [(1, 1), (5, 1), (1, 5), (5, 5), (3, 7)] {
        bright_pixel(&mut frame, 16, gx, gy);
    }
    p.run_cycle(&frame, params(true, false)).unwrap();
    assert_eq!(p.latest().corners().counter_value(), 5);
    assert_eq!(p.read_corners(), vec![Corner { x: 1, y: 1 }, Corner { x: 5, y: 1 }, Corner { x: 1, y: 5 }]);
    assert_eq!(p.read_descriptors().len(), 3);
    p.run_cycle(&frame, params(false, true)).unwrap();
    // Threshold 256 accepts all nine pairs; the list keeps four.
    assert_eq!(p.matches().counter_value(), 9);
    assert_eq!(p.read_matches(), vec![(0, 0), (0, 1), (0, 2), (1, 0)]);
}

#[test]
fn one_pixel_wide_frame() {
    let c = OrbConfig { width: 1, height: 4, max_features: 4, max_matches: 4, corner_threshold: 10, match_threshold: 0 };
    let mut p = HostPipeline::new(c).ok().unwrap();
    let mut frame = vec![0u8; 4 * 4];
    bright_pixel(&mut frame, 1, 0, 2);
    p.run_cycle(&frame, params(false, false)).unwrap();
    assert_eq!(p.read_corners(), vec![Corner { x: 0, y: 2 }]);
}
