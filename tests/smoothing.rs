use drone_detector::history::HISTORY_LEN;
use drone_detector::smoother::DetectionSmoother;

#[test]
fn starts_full_of_absent_labels() {
    let s = DetectionSmoother::new();
    assert_eq!(s.history(), vec![0u8; HISTORY_LEN]);
    assert!(!s.is_detected());
    assert_eq!(s.history_sum(), 0);
}

#[test]
fn turns_true_at_second_positive_label() {
    let mut s = DetectionSmoother::new();
    for _ in 0..5 {
        assert!(!s.observe(0));
    }
    assert!(!s.observe(1));
    for _ in 0..10 {
        assert!(!s.observe(0));
    }
    assert!(s.observe(1));
    assert_eq!(s.latest(), 1);
}

#[test]
fn falls_back_once_rolling_sum_drops_to_one() {
    let mut s = DetectionSmoother::new();
    assert!(!s.observe(1));
    assert!(s.observe(1));
    for _ in 0..18 {
        assert!(s.observe(0));
    }
    // The first positive label leaves the history here.
    assert!(!s.observe(0));
}

#[test]
fn history_is_bounded_and_fifo() {
    let mut s = DetectionSmoother::new();
    let labels: Vec<u8> = (0..45u8).map(|i| i % 7).collect();
    for &l in &labels {
        s.observe(l);
        assert_eq!(s.history().len(), HISTORY_LEN);
    }
    assert_eq!(s.history(), labels[labels.len() - HISTORY_LEN..].to_vec());
    let expected: u32 = labels[labels.len() - HISTORY_LEN..].iter().map(|&x| x as u32).sum();
    assert_eq!(s.history_sum(), expected);
}

#[test]
fn large_labels_do_not_overflow_the_sum() {
    let mut s = DetectionSmoother::new();
    for _ in 0..30 {
        assert!(s.observe(255));
    }
    assert_eq!(s.history_sum(), 255 * 20);
}
