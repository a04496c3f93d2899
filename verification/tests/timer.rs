use std::time::Duration;

use hematite::utils::timer::{Timer, TimerMode};

#[test]
fn once_timer_fires_once() {
    let mut timer = Timer::new(Duration::from_nanos(100), TimerMode::Once);
    assert!(!timer.tick_at(99));
    assert!(!timer.has_finished());
    assert!(timer.tick_at(100));
    assert!(timer.has_finished());
    assert!(!timer.tick_at(500));
}

#[test]
fn repeating_timer_keeps_its_rhythm() {
    let mut timer = Timer::new(Duration::from_nanos(100), TimerMode::Repeating);
    assert!(timer.tick_at(130));
    assert!(!timer.tick_at(190));
    assert!(timer.tick_at(200));
    assert!(!timer.has_finished());
}

#[test]
fn reset_starts_a_new_period() {
    let mut timer = Timer::new(Duration::from_nanos(100), TimerMode::Once);
    assert!(timer.tick_at(100));
    timer.reset_at(150);
    assert!(!timer.has_finished());
    assert!(!timer.tick_at(200));
    assert!(timer.tick_at(250));
}

#[test]
fn zero_duration_timer_fires_on_first_tick() {
    let mut timer = Timer::new(Duration::from_nanos(0), TimerMode::Once);
    assert!(timer.tick());
    timer.reset();
    assert!(!timer.has_finished());
}
