use reactive_widgets::progress::{ProgressBar, DEFAULT_MAX};

#[test]
fn default_bound_is_one_hundred() {
    let bar = ProgressBar::new(42);
    assert_eq!(bar.max, 100);
    assert_eq!(bar.max, DEFAULT_MAX);
    assert_eq!(bar.progress, 42);
}

#[test]
fn given_bound_is_kept() {
    let bar = ProgressBar::with_max(50, 10);
    assert_eq!(bar, ProgressBar { max: 50, progress: 10 });
}

#[test]
fn progress_is_not_clamped() {
    assert_eq!(ProgressBar::with_max(50, 51).progress, 51);
    assert_eq!(ProgressBar::new(i32::MAX).progress, i32::MAX);
    assert_eq!(ProgressBar::new(-1).progress, -1);
    assert_eq!(ProgressBar::with_max(0, 3).progress, 3);
}

#[test]
fn observed_value_follows_the_source_and_keeps_the_bound() {
    let bar = ProgressBar::with_max(50, 0);
    let later = bar.observe(8);
    assert_eq!(later, ProgressBar { max: 50, progress: 8 });
    assert_eq!(later.observe(120), ProgressBar { max: 50, progress: 120 });
    assert_eq!(bar.progress, 0);
}
