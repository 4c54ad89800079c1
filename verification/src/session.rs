//! Leaving a presentation: the Quit command steps out of presentation mode and
//! the overview first, then asks for confirmation, and quits on a second Quit.
//! The presentation mode and the overview are switched here too.
use vstd::prelude::*;

verus! {

/// The state the Quit command reads and changes.
#[derive(Debug, Clone, Copy, PartialEq, Eq, Structural)]
pub struct QuitState {
    /// The single-monitor presentation surface is showing.
    pub presentation_mode: bool,
    /// The slide overview is showing.
    pub overview_visible: bool,
    /// A Quit is waiting for confirmation.
    pub quit_requested: bool,
}

/// One command's effect on the quit state, and whether the application quits
/// (after saving the sidecar).
pub open spec fn quit_step(s: QuitState, is_quit: bool) -> (QuitState, bool) {
    if !is_quit {
        (QuitState { quit_requested: false, ..s }, false)
    } else if s.presentation_mode {
        (QuitState { presentation_mode: false, ..s }, false)
    } else if s.overview_visible {
        (QuitState { overview_visible: false, ..s }, false)
    } else if s.quit_requested {
        (s, true)
    } else {
        (QuitState { quit_requested: true, ..s }, false)
    }
}

impl QuitState {
    /// Nothing showing and no Quit pending.
    pub fn new() -> (r: Self)
        ensures
            !r.presentation_mode && !r.overview_visible && !r.quit_requested,
    {
        QuitState { presentation_mode: false, overview_visible: false, quit_requested: false }
    }

    /// Applies one command (`is_quit` tells whether it is Quit); returns whether
    /// the application should save and quit.
    pub fn on_command(&mut self, is_quit: bool) -> (quit: bool)
        ensures
            (*final(self), quit) == quit_step(*old(self), is_quit),
    {
        if !is_quit {
            self.quit_requested = false;
            false
        } else if self.presentation_mode {
            self.presentation_mode = false;
            false
        } else if self.overview_visible {
            self.overview_visible = false;
            false
        } else if self.quit_requested {
            true
        } else {
            self.quit_requested = true;
            false
        }
    }
    /// `TogglePresentationMode`.
    pub fn toggle_presentation_mode(&mut self)
        ensures
            *final(self) == (QuitState { presentation_mode: !old(self).presentation_mode, ..*old(self) }),
    {
        self.presentation_mode = !self.presentation_mode;
    }

    /// `ToggleSlideOverview`.
    pub fn toggle_overview(&mut self)
        ensures
            *final(self) == (QuitState { overview_visible: !old(self).overview_visible, ..*old(self) }),
    {
        self.overview_visible = !self.overview_visible;
    }
}

/// Quitting always takes confirmation: a single Quit never quits unless one was
/// already pending, and from any state at most four Quits in a row quit.
pub proof fn law_quit_needs_confirmation(s: QuitState)
    ensures
        quit_step(s, true).1 ==> s.quit_requested && !s.presentation_mode && !s.overview_visible,
        ({
            let s1 = quit_step(s, true).0;
            let s2 = quit_step(s1, true).0;
            let s3 = quit_step(s2, true).0;
            quit_step(s, true).1 || quit_step(s1, true).1 || quit_step(s2, true).1 || quit_step(
                s3,
                true,
            ).1
        }),
{
}

/// Any other command withdraws a pending Quit, so the next Quit asks again.
pub proof fn law_other_command_cancels_quit(s: QuitState)
    ensures
        !quit_step(s, false).1,
        !quit_step(s, false).0.quit_requested,
        !quit_step(quit_step(s, false).0, true).1,
{
}

} // verus!
