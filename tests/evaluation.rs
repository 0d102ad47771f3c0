use drone_detector::evaluation::Evaluation;

#[test]
fn accuracy_over_hundred_windows_with_stub_inference() {
    // Stub inference: positive on windows 40..60 and on a lone window 80.
    let predict = |k: usize| -> u8 { if (40..60).contains(&k) || k == 80 { 1 } else { 0 } };
    let truth = |k: usize| k >= 40;
    let mut ev = Evaluation::new();
    let mut states = Vec::new();
    for k in 0..100 {
        states.push(ev.record(predict(k), truth(k)));
    }
    assert_eq!(ev.predictions(), 100);
    // Smoothed state: rolling sum of the last 20 labels is at least 2, which
    // holds from window 41 (second positive) through window 77 (labels 58
    // and 59 still in the history).
    for (k, &s) in states.iter().enumerate() {
        let lo = k.saturating_sub(19);
        let rolling: u32 = (lo..=k).map(|i| predict(i) as u32).sum();
        assert_eq!(s, rolling >= 2, "window {k}");
        assert_eq!(s, (41..=77).contains(&k), "window {k}");
    }
    let expected_correct = (0..40).count() + (41..=77).count();
    assert_eq!(expected_correct, 77);
    assert_eq!(ev.correct() as usize, expected_correct);
    let acc = ev.correct() as f64 / ev.predictions() as f64;
    assert!((acc - 0.77).abs() < 1e-9);
}

#[test]
fn skipped_windows_count_nowhere() {
    let mut ev = Evaluation::new();
    assert!(!ev.record(1, false));
    // A window whose inference failed is not recorded at all.
    assert!(ev.record(1, true));
    assert_eq!(ev.predictions(), 2);
    assert_eq!(ev.correct(), 2);
    assert_eq!(ev.latest_label(), 1);
}
