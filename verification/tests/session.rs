use dais::session::QuitState;
use dais::timer::TimerState;

#[test]
fn quit_exits_presentation_mode_first() {
    let mut state = QuitState::new();
    state.presentation_mode = true;

    // Quit should exit presentation mode, not quit
    let should_quit = state.on_command(true);
    assert!(!should_quit);
    assert!(!state.presentation_mode);

    // Second Quit triggers confirmation prompt
    let should_quit = state.on_command(true);
    assert!(!should_quit);
    assert!(state.quit_requested);

    // Third Quit actually quits
    let should_quit = state.on_command(true);
    assert!(should_quit);
}

#[test]
fn quit_command_requires_confirmation() {
    let mut state = QuitState::new();
    // First quit shows confirmation
    assert!(!state.on_command(true));
    assert!(state.quit_requested);

    // Second quit confirms
    assert!(state.on_command(true));
}

#[test]
fn quit_cancelled_by_other_command() {
    let mut state = QuitState::new();
    // First quit shows confirmation
    state.on_command(true);
    assert!(state.quit_requested);

    // Any other command cancels quit
    assert!(!state.on_command(false));
    assert!(!state.quit_requested);
}

#[test]
fn no_quit_returns_false() {
    let mut state = QuitState::new();
    assert!(!state.on_command(false));
}

#[test]
fn quit_closes_overview_before_asking() {
    let mut state = QuitState::new();
    state.overview_visible = true;
    assert!(!state.on_command(true));
    assert!(!state.overview_visible);
    assert!(!state.quit_requested);
}

#[test]
fn timer_start_pause_reset() {
    let mut timer = TimerState::default();
    assert!(!timer.running);

    assert!(timer.start());
    assert!(timer.running);
    assert!(!timer.start());

    timer.elapsed = 5_000_000_000;
    timer.pause();
    assert!(!timer.running);
    assert_eq!(timer.elapsed, 5_000_000_000);

    timer.reset();
    assert!(!timer.running);
    assert_eq!(timer.elapsed, 0);
}

#[test]
fn toggle_timer_starts_and_pauses() {
    let mut timer = TimerState::default();
    assert!(!timer.running);

    // First toggle: starts the timer
    assert!(timer.toggle());
    assert!(timer.running);

    // Second toggle: pauses the timer
    assert!(!timer.toggle());
    assert!(!timer.running);

    // Third toggle: starts again
    timer.toggle();
    assert!(timer.running);
}

#[test]
fn toggle_timer_does_not_cancel_itself_in_single_tick() {
    let mut timer = TimerState::default();
    // Two toggles in a row net to "no change"
    timer.toggle();
    timer.toggle();
    assert!(!timer.running, "two toggles should cancel out");
}
