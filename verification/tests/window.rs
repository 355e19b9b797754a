use garden_esp::window::{SampleWindow, MAX_STEP_CENTI, WINDOW_CAPACITY};

#[test]
fn first_reading_is_its_own_average() {
    let mut w = SampleWindow::new();
    assert_eq!(w.len(), 0);
    assert_eq!(w.last(), None);
    assert_eq!(w.record(2106), Some(2106));
    assert_eq!(w.len(), 1);
    assert_eq!(w.last(), Some(2106));
}

#[test]
fn spike_is_rejected_and_changes_nothing() {
    let mut w = SampleWindow::new();
    assert_eq!(w.record(2000), Some(2000));
    assert!(w.is_spike(2501));
    assert_eq!(w.record(2501), None);
    assert_eq!(w.len(), 1);
    assert_eq!(w.last(), Some(2000));
    assert_eq!(w.record(1499), None);
    assert_eq!(w.len(), 1);
}

#[test]
fn step_of_exactly_five_degrees_is_accepted() {
    let mut w = SampleWindow::new();
    w.record(2000);
    assert!(!w.is_spike(2000 + MAX_STEP_CENTI));
    assert_eq!(w.record(2500), Some(2250));
    assert_eq!(w.record(2000), Some(2166));
}

#[test]
fn average_truncates_toward_zero() {
    let mut w = SampleWindow::new();
    assert_eq!(w.record(-100), Some(-100));
    // (-100 + -101) / 2 = -100.5, truncated toward zero
    assert_eq!(w.record(-101), Some(-100));
    // (-100 - 101 - 102) / 3 = -101
    assert_eq!(w.record(-102), Some(-101));
}

#[test]
fn window_keeps_the_last_ten_readings() {
    let mut w = SampleWindow::new();
    for i in 0..10 {
        w.record(1000 + 10 * i);
    }
    assert_eq!(w.len(), WINDOW_CAPACITY);
    // readings 1000..=1090, mean 1045
    assert_eq!(w.last(), Some(1090));
    // 1000 leaves, 1100 enters: 1010..=1100, mean 1055
    assert_eq!(w.record(1100), Some(1055));
    assert_eq!(w.len(), WINDOW_CAPACITY);
    assert_eq!(w.last(), Some(1100));
    for i in 0..15 {
        w.record(1100);
        let _ = i;
    }
    assert_eq!(w.record(1100), Some(1100));
}

#[test]
fn wrapped_window_checks_spikes_against_the_newest_reading() {
    let mut w = SampleWindow::new();
    for _ in 0..10 {
        w.record(0);
    }
    for i in 1..=9 {
        w.record(400 * i);
    }
    assert_eq!(w.last(), Some(3600));
    // 0 leaves; 400..=3600 and 3200 remain: (18000 + 3200) / 10
    assert_eq!(w.record(3200), Some(2120));
    assert_eq!(w.record(4000), None);
}

#[test]
fn average_stays_between_smallest_and_largest() {
    let mut w = SampleWindow::new();
    let readings = [2000, 2400, 2100, 2500, 2050, 2300, 2001, 2399, 2200, 2450, 2010, 2490];
    let mut seen: Vec<i32> = Vec::new();
    for r in readings {
        let avg = w.record(r).unwrap();
        seen.push(r);
        let start = if seen.len() > 10 { seen.len() - 10 } else { 0 };
        let win = &seen[start..];
        let lo = *win.iter().min().unwrap();
        let hi = *win.iter().max().unwrap();
        assert!(lo <= avg && avg <= hi);
        let sum: i64 = win.iter().map(|&v| v as i64).sum();
        assert_eq!(avg as i64, sum / win.len() as i64);
    }
}
