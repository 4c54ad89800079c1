//! One command of the presentation engine applied to the presentation state:
//! navigation, display modes, presentation aids, text box selection, the
//! timer, the panels, and quitting.
//!
//! Commands carrying slide positions (pointer, spotlight, zoom, ink points, text
//! box geometry) appear here without their positions: the state only records
//! whether a position is set. Ink strokes, font sizes and the clock stay with
//! the caller, which performs the effects that a step reports.
use crate::modes::{
    after_begin_text_box_edit, after_blackout, after_cycle_style, after_delete_text_box,
    after_place_text_box, after_select_text_box, after_set_pointer, after_set_spotlight,
    after_set_zoom, after_toggle_ink, after_toggle_laser, after_toggle_notes_edit,
    after_toggle_notes_panel, after_toggle_screen_share, after_toggle_spotlight,
    after_toggle_text_box_mode, after_toggle_whiteboard, after_toggle_zoom, modes_consistent,
    without_selection, PresentationModes,
};
use crate::navigation::{position, SlideNavigation};
use crate::session::{quit_step, QuitState};
use crate::slide_group::SlideGroup;
use crate::text::trim;
use crate::timer::TimerState;
use vstd::prelude::*;

verus! {

/// A command the engine applies without slide positions.
#[derive(Debug)]
pub enum EngineCommand {
    NextSlide,
    PreviousSlide,
    NextOverlay,
    PreviousOverlay,
    FirstSlide,
    LastSlide,
    GoToSlide(usize),
    ToggleFreeze,
    ToggleBlackout,
    ToggleWhiteboard,
    ToggleScreenShareMode,
    TogglePresentationMode,
    ToggleLaser,
    CycleLaserStyle,
    /// `SetPointerPosition`, its position left to the caller.
    SetPointerPosition,
    ToggleInk,
    ToggleSpotlight,
    /// `SetSpotlightPosition`, its position left to the caller.
    SetSpotlightPosition,
    ToggleZoom,
    /// `SetZoomRegion`, its region left to the caller.
    SetZoomRegion,
    ToggleTextBoxMode,
    /// `PlaceTextBox`, its rectangle left to the caller.
    PlaceTextBox,
    SelectTextBox(u64),
    DeselectTextBox,
    BeginTextBoxEdit(u64),
    DeleteTextBox(u64),
    StartTimer,
    PauseTimer,
    ToggleTimer,
    ResetTimer,
    ToggleSlideOverview,
    ToggleNotesPanel,
    ToggleNotesEdit,
    SetCurrentSlideNotes(String),
    Quit,
    SaveSidecar,
}

/// What the caller does after a step.
#[derive(Debug, Clone, Copy, PartialEq, Eq, Structural)]
pub struct EngineEffect {
    /// Leave the application.
    pub quit: bool,
    /// Save the sidecar file.
    pub save: bool,
    /// The timer started: start measuring from its elapsed time.
    pub timer_started: bool,
}

/// The state the engine's commands change.
#[derive(Debug)]
pub struct EngineState {
    pub nav: SlideNavigation,
    pub modes: PresentationModes,
    pub session: QuitState,
    pub timer: TimerState,
}

/// The state is consistent: the navigation's and the modes' own consistency.
pub open spec fn engine_wf(s: EngineState) -> bool {
    s.nav.wf() && modes_consistent(s.modes)
}

/// The navigation after `SetCurrentSlideNotes(text)`: the current slide's notes
/// are the text (none when it is blank), in the current group too, and nothing
/// else changes.
pub open spec fn notes_set(a: SlideNavigation, b: SlideNavigation, text: Seq<char>) -> bool {
    &&& b.wf()
    &&& trim(text).len() == 0 ==> b.current_notes is None
    &&& trim(text).len() != 0 ==> (b.current_notes matches Some(n) && n@ == text)
    &&& a.current_logical_slide < a.slide_groups@.len() ==> b.slide_groups@ == a.slide_groups@.update(
        a.current_logical_slide as int,
        SlideGroup { notes: b.current_notes, ..a.slide_groups@[a.current_logical_slide as int] },
    )
    &&& a.current_logical_slide >= a.slide_groups@.len() ==> b.slide_groups == a.slide_groups
    &&& position(b) == position(a)
    &&& b.frozen == a.frozen
    &&& b.frozen_page == a.frozen_page
    &&& b.total_pages == a.total_pages
    &&& b.total_logical_slides == a.total_logical_slides
}

/// The last logical slide's index (0 without slides).
pub open spec fn last_index(n: SlideNavigation) -> int {
    if n.total_logical_slides == 0 {
        0
    } else {
        n.total_logical_slides - 1
    }
}

/// One engine step: a Quit first passes through the quit logic (which may ask
/// to save and quit) and any other command withdraws a pending Quit; then the
/// command changes its part of the state.
pub open spec fn engine_step(a: EngineState, cmd: EngineCommand, b: EngineState, e: EngineEffect) -> bool {
    let (s1, quits) = quit_step(a.session, cmd is Quit);
    let same_nav = b.nav == a.nav;
    let same_modes = b.modes == a.modes;
    let same_session = b.session == s1;
    let same_timer = b.timer == a.timer;
    &&& e.quit == quits
    &&& e.save == (quits || cmd is SaveSidecar)
    &&& (e.timer_started ==> (cmd is StartTimer || cmd is ToggleTimer))
    &&& match cmd {
        EngineCommand::NextSlide | EngineCommand::NextOverlay => b.nav == a.nav.spec_advance()
            && same_modes && same_session && same_timer,
        EngineCommand::PreviousSlide | EngineCommand::PreviousOverlay => b.nav
            == a.nav.spec_rewind() && same_modes && same_session && same_timer,
        EngineCommand::FirstSlide => b.nav == a.nav.spec_go_to_group(0) && same_modes
            && same_session && same_timer,
        EngineCommand::LastSlide => b.nav == a.nav.spec_go_to_group(last_index(a.nav))
            && same_modes && same_session && same_timer,
        EngineCommand::GoToSlide(i) => b.nav == a.nav.spec_go_to_group(i as int) && same_modes
            && same_session && same_timer,
        EngineCommand::ToggleFreeze => b.nav == (SlideNavigation {
            frozen: !a.nav.frozen,
            frozen_page: if a.nav.frozen {
                None
            } else {
                Some(a.nav.current_page)
            },
            ..a.nav
        }) && same_modes && same_session && same_timer,
        EngineCommand::ToggleBlackout => b.nav == (SlideNavigation {
            blacked_out: !a.nav.blacked_out,
            ..a.nav
        }) && b.modes == after_blackout(a.modes, !a.nav.blacked_out) && same_session
            && same_timer,
        EngineCommand::ToggleWhiteboard => b.nav == (SlideNavigation {
            blacked_out: a.nav.blacked_out && a.modes.whiteboard_active,
            ..a.nav
        }) && b.modes == after_toggle_whiteboard(a.modes) && same_session && same_timer,
        EngineCommand::ToggleScreenShareMode => same_nav && b.modes == after_toggle_screen_share(
            a.modes,
        ) && same_session && same_timer,
        EngineCommand::TogglePresentationMode => same_nav && same_modes && b.session == (QuitState {
            presentation_mode: !s1.presentation_mode,
            ..s1
        }) && same_timer,
        EngineCommand::ToggleLaser => same_nav && b.modes == after_toggle_laser(a.modes)
            && same_session && same_timer,
        EngineCommand::CycleLaserStyle => same_nav && b.modes == after_cycle_style(a.modes)
            && same_session && same_timer,
        EngineCommand::SetPointerPosition => same_nav && b.modes == after_set_pointer(a.modes)
            && same_session && same_timer,
        EngineCommand::ToggleInk => same_nav && b.modes == after_toggle_ink(a.modes) && same_session
            && same_timer,
        EngineCommand::ToggleSpotlight => same_nav && b.modes == after_toggle_spotlight(a.modes)
            && same_session && same_timer,
        EngineCommand::SetSpotlightPosition => same_nav && b.modes == after_set_spotlight(a.modes)
            && same_session && same_timer,
        EngineCommand::ToggleZoom => same_nav && b.modes == after_toggle_zoom(a.modes)
            && same_session && same_timer,
        EngineCommand::SetZoomRegion => same_nav && b.modes == after_set_zoom(a.modes)
            && same_session && same_timer,
        EngineCommand::ToggleTextBoxMode => same_nav && b.modes == after_toggle_text_box_mode(
            a.modes,
        ) && same_session && same_timer,
        EngineCommand::PlaceTextBox => same_nav && b.modes == after_place_text_box(a.modes)
            && same_session && same_timer,
        EngineCommand::SelectTextBox(id) => same_nav && b.modes == after_select_text_box(
            a.modes,
            id,
        ) && same_session && same_timer,
        EngineCommand::DeselectTextBox => same_nav && b.modes == without_selection(a.modes)
            && same_session && same_timer,
        EngineCommand::BeginTextBoxEdit(id) => same_nav && b.modes == after_begin_text_box_edit(
            a.modes,
            id,
        ) && same_session && same_timer,
        EngineCommand::DeleteTextBox(id) => same_nav && b.modes == after_delete_text_box(
            a.modes,
            id,
        ) && same_session && same_timer,
        EngineCommand::StartTimer => same_nav && same_modes && same_session && b.timer
            == (TimerState { running: true, ..a.timer }) && e.timer_started == !a.timer.running,
        EngineCommand::PauseTimer => same_nav && same_modes && same_session && b.timer
            == (TimerState { running: false, ..a.timer }),
        EngineCommand::ToggleTimer => same_nav && same_modes && same_session && b.timer
            == (TimerState { running: !a.timer.running, ..a.timer }) && e.timer_started
            == !a.timer.running,
        EngineCommand::ResetTimer => same_nav && same_modes && same_session && b.timer
            == (TimerState { running: false, elapsed: 0, ..a.timer }),
        EngineCommand::ToggleSlideOverview => same_nav && same_modes && b.session == (QuitState {
            overview_visible: !s1.overview_visible,
            ..s1
        }) && same_timer,
        EngineCommand::ToggleNotesPanel => same_nav && b.modes == after_toggle_notes_panel(a.modes)
            && same_session && same_timer,
        EngineCommand::ToggleNotesEdit => same_nav && b.modes == after_toggle_notes_edit(a.modes)
            && same_session && same_timer,
        EngineCommand::SetCurrentSlideNotes(text) => notes_set(a.nav, b.nav, text@) && same_modes
            && same_session && same_timer,
        EngineCommand::Quit | EngineCommand::SaveSidecar => same_nav && same_modes && same_session
            && same_timer,
    }
}

impl EngineState {
    /// Applies a navigation command.
    fn apply_navigation(&mut self, cmd: EngineCommand) -> (e: EngineEffect)
        requires
            engine_wf(*old(self)),
            cmd is NextSlide || cmd is NextOverlay || cmd is PreviousSlide || cmd is PreviousOverlay || cmd is FirstSlide || cmd is LastSlide || cmd is GoToSlide || cmd is ToggleFreeze || cmd is SetCurrentSlideNotes,
            cmd is PlaceTextBox ==> old(self).modes.next_text_box_id < u64::MAX,
        ensures
            engine_wf(*final(self)),
            engine_step(*old(self), cmd, *final(self), e),
    {
        let is_quit = matches!(cmd, EngineCommand::Quit);
        let quit = self.session.on_command(is_quit);
        let mut save = quit;
        let mut timer_started = false;
        proof {
            crate::modes::law_commands_keep_modes_consistent(self.modes, 0, false);
        }
        match cmd {
            EngineCommand::NextSlide | EngineCommand::NextOverlay => self.nav.advance_step(),
            EngineCommand::PreviousSlide | EngineCommand::PreviousOverlay => self.nav.rewind_step(),
            EngineCommand::FirstSlide => self.nav.first_slide(),
            EngineCommand::LastSlide => self.nav.last_slide(),
            EngineCommand::GoToSlide(i) => self.nav.go_to_group(i),
            EngineCommand::ToggleFreeze => self.nav.toggle_freeze(),
            EngineCommand::SetCurrentSlideNotes(text) => self.nav.set_current_slide_notes(
                text.as_str(),
            ),
            _ => {},
        }
        EngineEffect { quit, save, timer_started }
    }

    /// Applies a display command.
    fn apply_display(&mut self, cmd: EngineCommand) -> (e: EngineEffect)
        requires
            engine_wf(*old(self)),
            cmd is ToggleBlackout || cmd is ToggleWhiteboard || cmd is ToggleScreenShareMode || cmd is TogglePresentationMode || cmd is ToggleSlideOverview || cmd is ToggleNotesPanel || cmd is ToggleNotesEdit,
            cmd is PlaceTextBox ==> old(self).modes.next_text_box_id < u64::MAX,
        ensures
            engine_wf(*final(self)),
            engine_step(*old(self), cmd, *final(self), e),
    {
        let is_quit = matches!(cmd, EngineCommand::Quit);
        let quit = self.session.on_command(is_quit);
        let mut save = quit;
        let mut timer_started = false;
        proof {
            crate::modes::law_commands_keep_modes_consistent(self.modes, 0, false);
        }
        match cmd {
            EngineCommand::ToggleBlackout => {
                proof {
                    crate::modes::law_commands_keep_modes_consistent(
                        self.modes,
                        0,
                        !self.nav.blacked_out,
                    );
                }
                self.modes.toggle_blackout(&mut self.nav);
            },
            EngineCommand::ToggleWhiteboard => self.modes.toggle_whiteboard(&mut self.nav),
            EngineCommand::ToggleScreenShareMode => self.modes.toggle_screen_share(),
            EngineCommand::TogglePresentationMode => self.session.toggle_presentation_mode(),
            EngineCommand::ToggleSlideOverview => self.session.toggle_overview(),
            EngineCommand::ToggleNotesPanel => self.modes.toggle_notes_panel(),
            EngineCommand::ToggleNotesEdit => self.modes.toggle_notes_edit(),
            _ => {},
        }
        EngineEffect { quit, save, timer_started }
    }

    /// Applies a aid command.
    fn apply_aid(&mut self, cmd: EngineCommand) -> (e: EngineEffect)
        requires
            engine_wf(*old(self)),
            cmd is ToggleLaser || cmd is CycleLaserStyle || cmd is SetPointerPosition || cmd is ToggleInk || cmd is ToggleSpotlight || cmd is SetSpotlightPosition || cmd is ToggleZoom || cmd is SetZoomRegion,
            cmd is PlaceTextBox ==> old(self).modes.next_text_box_id < u64::MAX,
        ensures
            engine_wf(*final(self)),
            engine_step(*old(self), cmd, *final(self), e),
    {
        let is_quit = matches!(cmd, EngineCommand::Quit);
        let quit = self.session.on_command(is_quit);
        let mut save = quit;
        let mut timer_started = false;
        proof {
            crate::modes::law_commands_keep_modes_consistent(self.modes, 0, false);
        }
        match cmd {
            EngineCommand::ToggleLaser => self.modes.toggle_laser(),
            EngineCommand::CycleLaserStyle => self.modes.cycle_laser_style(),
            EngineCommand::SetPointerPosition => self.modes.set_pointer_position(),
            EngineCommand::ToggleInk => self.modes.toggle_ink(),
            EngineCommand::ToggleSpotlight => self.modes.toggle_spotlight(),
            EngineCommand::SetSpotlightPosition => self.modes.set_spotlight_position(),
            EngineCommand::ToggleZoom => self.modes.toggle_zoom(),
            EngineCommand::SetZoomRegion => self.modes.set_zoom_region(),
            _ => {},
        }
        EngineEffect { quit, save, timer_started }
    }

    /// Applies a text box command.
    fn apply_text_box(&mut self, cmd: EngineCommand) -> (e: EngineEffect)
        requires
            engine_wf(*old(self)),
            cmd is ToggleTextBoxMode || cmd is PlaceTextBox || cmd is SelectTextBox || cmd is DeselectTextBox || cmd is BeginTextBoxEdit || cmd is DeleteTextBox,
            cmd is PlaceTextBox ==> old(self).modes.next_text_box_id < u64::MAX,
        ensures
            engine_wf(*final(self)),
            engine_step(*old(self), cmd, *final(self), e),
    {
        let is_quit = matches!(cmd, EngineCommand::Quit);
        let quit = self.session.on_command(is_quit);
        let mut save = quit;
        let mut timer_started = false;
        proof {
            crate::modes::law_commands_keep_modes_consistent(self.modes, 0, false);
        }
        match cmd {
            EngineCommand::ToggleTextBoxMode => self.modes.toggle_text_box_mode(),
            EngineCommand::PlaceTextBox => {
                self.modes.place_text_box();
            },
            EngineCommand::SelectTextBox(id) => {
                proof {
                    crate::modes::law_commands_keep_modes_consistent(self.modes, id, false);
                }
                self.modes.select_text_box(id)
            },
            EngineCommand::DeselectTextBox => self.modes.deselect_text_box(),
            EngineCommand::BeginTextBoxEdit(id) => {
                proof {
                    crate::modes::law_commands_keep_modes_consistent(self.modes, id, false);
                }
                self.modes.begin_text_box_edit(id)
            },
            EngineCommand::DeleteTextBox(id) => {
                proof {
                    crate::modes::law_commands_keep_modes_consistent(self.modes, id, false);
                }
                self.modes.delete_text_box(id)
            },
            _ => {},
        }
        EngineEffect { quit, save, timer_started }
    }

    /// Applies a timer command.
    fn apply_timer(&mut self, cmd: EngineCommand) -> (e: EngineEffect)
        requires
            engine_wf(*old(self)),
            cmd is StartTimer || cmd is PauseTimer || cmd is ToggleTimer || cmd is ResetTimer || cmd is Quit || cmd is SaveSidecar,
            cmd is PlaceTextBox ==> old(self).modes.next_text_box_id < u64::MAX,
        ensures
            engine_wf(*final(self)),
            engine_step(*old(self), cmd, *final(self), e),
    {
        let is_quit = matches!(cmd, EngineCommand::Quit);
        let quit = self.session.on_command(is_quit);
        let mut save = quit;
        let mut timer_started = false;
        proof {
            crate::modes::law_commands_keep_modes_consistent(self.modes, 0, false);
        }
        match cmd {
            EngineCommand::StartTimer => {
                timer_started = self.timer.start();
            },
            EngineCommand::PauseTimer => self.timer.pause(),
            EngineCommand::ToggleTimer => {
                timer_started = self.timer.toggle();
            },
            EngineCommand::ResetTimer => self.timer.reset(),
            EngineCommand::Quit => {},
            EngineCommand::SaveSidecar => {
                save = true;
            },
            _ => {},
        }
        EngineEffect { quit, save, timer_started }
    }

    /// Applies one command and reports what the caller is to do.
    pub fn apply(&mut self, cmd: EngineCommand) -> (e: EngineEffect)
        requires
            engine_wf(*old(self)),
            cmd is PlaceTextBox ==> old(self).modes.next_text_box_id < u64::MAX,
        ensures
            engine_wf(*final(self)),
            engine_step(*old(self), cmd, *final(self), e),
    {
        match cmd {
            EngineCommand::NextSlide | EngineCommand::NextOverlay | EngineCommand::PreviousSlide | EngineCommand::PreviousOverlay | EngineCommand::FirstSlide | EngineCommand::LastSlide | EngineCommand::GoToSlide(_) | EngineCommand::ToggleFreeze | EngineCommand::SetCurrentSlideNotes(_) => self.apply_navigation(cmd),
            EngineCommand::ToggleBlackout | EngineCommand::ToggleWhiteboard | EngineCommand::ToggleScreenShareMode | EngineCommand::TogglePresentationMode | EngineCommand::ToggleSlideOverview | EngineCommand::ToggleNotesPanel | EngineCommand::ToggleNotesEdit => self.apply_display(cmd),
            EngineCommand::ToggleLaser | EngineCommand::CycleLaserStyle | EngineCommand::SetPointerPosition | EngineCommand::ToggleInk | EngineCommand::ToggleSpotlight | EngineCommand::SetSpotlightPosition | EngineCommand::ToggleZoom | EngineCommand::SetZoomRegion => self.apply_aid(cmd),
            EngineCommand::ToggleTextBoxMode | EngineCommand::PlaceTextBox | EngineCommand::SelectTextBox(_) | EngineCommand::DeselectTextBox | EngineCommand::BeginTextBoxEdit(_) | EngineCommand::DeleteTextBox(_) => self.apply_text_box(cmd),
            EngineCommand::StartTimer | EngineCommand::PauseTimer | EngineCommand::ToggleTimer | EngineCommand::ResetTimer | EngineCommand::Quit | EngineCommand::SaveSidecar => self.apply_timer(cmd),
        }
    }
}

/// Over any run of commands the state stays consistent: laser and ink are never
/// on together, and notes are never edited in a hidden panel.
pub proof fn law_engine_keeps_state_consistent(
    a: EngineState,
    cmd: EngineCommand,
    b: EngineState,
    e: EngineEffect,
)
    requires
        engine_wf(a),
        engine_step(a, cmd, b, e),
        b.nav.wf(),
    ensures
        modes_consistent(b.modes),
        !(b.modes.laser_active && b.modes.ink_active),
        b.modes.notes_editing ==> b.modes.notes_visible,
        e.quit ==> e.save,
{
    crate::modes::law_commands_keep_modes_consistent(a.modes, 0, false);
    crate::modes::law_commands_keep_modes_consistent(a.modes, 0, true);
    match cmd {
        EngineCommand::SelectTextBox(id) | EngineCommand::BeginTextBoxEdit(id)
        | EngineCommand::DeleteTextBox(id) => {
            crate::modes::law_commands_keep_modes_consistent(a.modes, id, false);
        },
        _ => {},
    }
}

} // verus!
