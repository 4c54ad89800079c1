use dais::timer::{format_duration, timer_phase_name, TimerMode, TimerPhase, TimerState};

const SEC: u128 = 1_000_000_000;

fn countdown(duration: u128, elapsed: u128, warning: Option<u128>) -> TimerState {
    TimerState {
        mode: TimerMode::Countdown,
        duration: Some(duration * SEC),
        elapsed: elapsed * SEC,
        running: true,
        warning_threshold: warning.map(|w| w * SEC),
    }
}

#[test]
fn timer_phases() {
    assert_eq!(TimerState::default().phase(), TimerPhase::Normal);
    assert_eq!(countdown(60, 10, Some(5)).phase(), TimerPhase::Normal);
    assert_eq!(countdown(60, 55, Some(5)).phase(), TimerPhase::Warning);
    assert_eq!(countdown(60, 60, Some(5)).phase(), TimerPhase::Overrun);
    assert_eq!(countdown(60, 59, None).phase(), TimerPhase::Normal);
}

#[test]
fn display_time_counts_down_to_zero() {
    assert_eq!(countdown(60, 10, None).display_time(), 50 * SEC);
    assert_eq!(countdown(60, 70, None).display_time(), 0);
    let mut timer = countdown(60, 10, None);
    timer.mode = TimerMode::Elapsed;
    assert_eq!(timer.display_time(), 10 * SEC);
    timer.mode = TimerMode::Countdown;
    timer.duration = None;
    assert_eq!(timer.display_time(), 10 * SEC);
}

#[test]
fn clock_text() {
    assert_eq!(format_duration(0), "00:00");
    assert_eq!(format_duration(65 * SEC + 999_999_999), "01:05");
    assert_eq!(format_duration(6000 * SEC), "100:00");
    assert_eq!(timer_phase_name(TimerPhase::Overrun), "overrun");
}

#[test]
fn slide_time_accumulates_when_returning_to_slide() {
    let mut times = dais::timer::SlideTimes::new(3);
    assert_eq!(times.resume(0), 0);
    times.record(0, 1_500);
    assert_eq!(times.current, 1_500);

    // Move to slide 1, spend some time there.
    assert_eq!(times.resume(1), 0);
    times.record(1, 700);

    // Back on slide 0 the clock resumes where it stopped.
    assert_eq!(times.resume(0), 1_500);
    assert_eq!(times.current, 1_500);
    times.record(0, 2_000);
    assert_eq!(times.by_slide, vec![2_000, 700, 0]);

    // A slide out of range has no recorded time.
    assert_eq!(times.resume(7), 0);
    times.record(7, 42);
    assert_eq!(times.current, 42);
    assert_eq!(times.by_slide, vec![2_000, 700, 0]);
}
