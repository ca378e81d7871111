use drumbox64::sequencer::step_duration_ms;

#[test]
fn straight_timing_120bpm() {
    // 16th note at 120 BPM = 125 ms
    assert_eq!(step_duration_ms(0, 120, 0), 125);
    assert_eq!(step_duration_ms(1, 120, 0), 125);
    assert_eq!(step_duration_ms(15, 120, 0), 125);
}

#[test]
fn bar_length_120bpm() {
    // 16 steps at 120 BPM should sum to 2000 ms (one bar of 4/4)
    let total: u64 = (0..16).map(|s| step_duration_ms(s, 120, 0)).sum();
    assert_eq!(total, 2000);
}

#[test]
fn swing_pair_sums_to_two_base() {
    for swing in [20u8, 50, 54, 80] {
        let even = step_duration_ms(0, 120, swing);
        let odd = step_duration_ms(1, 120, swing);
        assert_eq!(even + odd, 250, "swing={swing}: {even}+{odd}≠250");
    }
}

#[test]
fn swing_54_classic_ratio() {
    let short = step_duration_ms(0, 120, 54) as f64;
    let long = step_duration_ms(1, 120, 54) as f64;
    let ratio = long / short;
    // Original C64 code gives ~3:1 for 54% swing at 120 BPM
    assert!(ratio > 2.5 && ratio < 4.5, "ratio={ratio:.2}");
}

#[test]
fn tempo_extremes() {
    assert!(step_duration_ms(0, 40, 0) > 0);
    assert!(step_duration_ms(0, 280, 0) > 0);
}

#[test]
fn swing_exact_values_120bpm() {
    // base 125 ms, 54% swing: offset 67 ms
    assert_eq!(step_duration_ms(0, 120, 54), 58);
    assert_eq!(step_duration_ms(1, 120, 54), 192);
    // 99% swing is capped so the short step keeps 4 ms
    assert_eq!(step_duration_ms(2, 120, 99), 4);
    assert_eq!(step_duration_ms(3, 120, 99), 246);
}

#[test]
fn tempo_is_clamped() {
    assert_eq!(step_duration_ms(0, 10, 0), step_duration_ms(0, 40, 0));
    assert_eq!(step_duration_ms(0, 40, 0), 375);
    assert_eq!(step_duration_ms(0, 1000, 0), step_duration_ms(0, 280, 0));
    assert_eq!(step_duration_ms(0, 280, 0), 53);
}

#[test]
fn swung_bar_keeps_length() {
    for swing in [0u8, 33, 54, 99] {
        let total: u64 = (0..16).map(|s| step_duration_ms(s, 133, swing)).sum();
        assert_eq!(total, 16 * (15_000 / 133));
    }
}
