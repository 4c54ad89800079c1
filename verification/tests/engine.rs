use std::collections::HashMap;

use dais::engine::{EngineCommand, EngineState};
use dais::modes::PresentationModes;
use dais::navigation::SlideNavigation;
use dais::session::QuitState;
use dais::slide_group::build_slide_groups;
use dais::timer::TimerState;

fn engine(pages: usize) -> EngineState {
    let groups = build_slide_groups(pages, &Vec::new(), &HashMap::new());
    EngineState {
        nav: SlideNavigation::new(pages, groups),
        modes: PresentationModes::new(),
        session: QuitState::new(),
        timer: TimerState::new(),
    }
}

#[test]
fn engine_steps_navigate_and_quit_after_confirmation() {
    let mut e = engine(5);
    assert!(!e.apply(EngineCommand::NextSlide).quit);
    assert_eq!(e.nav.current_page, 1);
    e.apply(EngineCommand::GoToSlide(9));
    assert_eq!(e.nav.current_page, 4);

    e.apply(EngineCommand::TogglePresentationMode);
    assert!(e.session.presentation_mode);
    let effect = e.apply(EngineCommand::Quit);
    assert!(!effect.quit && !e.session.presentation_mode);
    let effect = e.apply(EngineCommand::Quit);
    assert!(!effect.quit && e.session.quit_requested);
    // Any other command withdraws the pending quit.
    e.apply(EngineCommand::PreviousSlide);
    assert!(!e.session.quit_requested);
    e.apply(EngineCommand::Quit);
    let effect = e.apply(EngineCommand::Quit);
    assert!(effect.quit && effect.save);
}

#[test]
fn engine_steps_switch_modes() {
    let mut e = engine(3);
    assert!(e.modes.laser_active);
    e.apply(EngineCommand::ToggleInk);
    assert!(e.modes.ink_active && !e.modes.laser_active);
    e.apply(EngineCommand::ToggleWhiteboard);
    e.apply(EngineCommand::ToggleBlackout);
    assert!(e.nav.blacked_out && !e.modes.whiteboard_active);
    e.apply(EngineCommand::ToggleNotesEdit);
    assert!(e.modes.notes_editing && e.modes.notes_visible);
    e.apply(EngineCommand::SetCurrentSlideNotes("Remember".to_string()));
    assert_eq!(e.nav.current_notes.as_deref(), Some("Remember"));
    assert!(e.apply(EngineCommand::SaveSidecar).save);
}

#[test]
fn engine_timer_steps_report_start() {
    let mut e = engine(2);
    assert!(e.apply(EngineCommand::ToggleTimer).timer_started);
    assert!(e.timer.running);
    assert!(!e.apply(EngineCommand::StartTimer).timer_started);
    e.apply(EngineCommand::ToggleTimer);
    assert!(!e.timer.running);
    assert!(e.apply(EngineCommand::StartTimer).timer_started);
    e.apply(EngineCommand::ResetTimer);
    assert!(!e.timer.running);
    assert_eq!(e.timer.elapsed, 0);
}
