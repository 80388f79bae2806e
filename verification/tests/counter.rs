use reactive_widgets::counter::{Counter, SHORT_MAX};
use reactive_widgets::progress::{ProgressBar, DEFAULT_MAX};

#[test]
fn new_counter_reads_zero() {
    let counter = Counter::new();
    assert_eq!(counter.count(), 0);
    assert_eq!(counter.double_count(), 0);
    assert!(!counter.is_odd());
}

#[test]
fn count_follows_the_clicks() {
    let mut counter = Counter::new();
    for clicks in 1..=25 {
        counter.increment();
        assert_eq!(counter.count(), clicks);
        assert_eq!(counter.double_count(), 2 * clicks);
        assert_eq!(counter.is_odd(), clicks % 2 == 1);
    }
}

#[test]
fn three_clicks() {
    let mut counter = Counter::new();
    counter.increment();
    counter.increment();
    counter.increment();
    assert_eq!(counter.count(), 3);
    assert_eq!(counter.double_count(), 6);
    assert!(counter.is_odd());
}

#[test]
fn progress_bars_all_show_the_one_count() {
    let mut counter = Counter::new();
    for _ in 0..7 {
        counter.increment();
    }
    let bars = counter.progress_bars();
    assert_eq!(
        bars,
        vec![
            ProgressBar { max: 50, progress: 7 },
            ProgressBar { max: 100, progress: 7 },
            ProgressBar { max: 50, progress: 14 },
        ]
    );
    assert_eq!(bars[0].progress, bars[1].progress);
    assert_eq!(bars[2].progress, 2 * bars[0].progress);
}

#[test]
fn progress_bars_follow_every_click() {
    let mut counter = Counter::new();
    for clicks in 0..40 {
        let bars = counter.progress_bars();
        assert_eq!(bars.len(), 3);
        assert_eq!(bars[0], ProgressBar::with_max(SHORT_MAX, clicks));
        assert_eq!(bars[1], ProgressBar::new(clicks));
        assert_eq!(bars[2], ProgressBar::with_max(SHORT_MAX, 2 * clicks));
        counter.increment();
    }
}

#[test]
fn doubled_value_is_not_clamped_to_the_bound() {
    let mut counter = Counter::new();
    for _ in 0..30 {
        counter.increment();
    }
    let bars = counter.progress_bars();
    assert_eq!(bars[2].max, 50);
    assert_eq!(bars[2].progress, 60);
}

#[test]
fn bounds_of_the_indicators() {
    assert_eq!(SHORT_MAX, 50);
    assert_eq!(DEFAULT_MAX, 100);
}
