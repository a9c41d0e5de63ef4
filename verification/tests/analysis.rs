use gsw::analysis::trends::GoroutineTrend;

fn growth_per_minute(trend: &GoroutineTrend) -> Option<f64> {
    trend
        .growth_window()
        .map(|(first, last, elapsed)| (last as f64 - first as f64) / elapsed as f64 * 60.0)
}

#[test]
fn flags_sustained_goroutine_growth() {
    let mut trend = GoroutineTrend::default();
    for minute in 0..=5 {
        trend.record(minute * 60, 10 + minute * 12);
    }
    assert!(trend.is_suspicious());
    assert!(growth_per_minute(&trend).unwrap() >= 12.0);
}

#[test]
fn ignores_short_spikes() {
    let mut trend = GoroutineTrend::default();
    trend.record(0, 10);
    trend.record(30, 100);
    assert!(!trend.is_suspicious());
}

#[test]
fn window_keeps_the_newest_samples() {
    let mut trend = GoroutineTrend::default();
    for i in 0..130u64 {
        trend.record(i, i);
    }
    assert_eq!(trend.len(), 120);
    assert_eq!(trend.growth_window(), Some((10, 129, 119)));
}

#[test]
fn slow_growth_is_not_a_leak() {
    let mut trend = GoroutineTrend::default();
    trend.record(0, 100);
    trend.record(6000, 160);
    assert!(!trend.is_suspicious());
    let mut trend = GoroutineTrend::default();
    trend.record(0, 100);
    trend.record(3000, 150);
    assert!(trend.is_suspicious());
    assert_eq!(GoroutineTrend::default().growth_window(), None);
}
