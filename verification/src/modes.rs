//! The on/off modes of a running presentation: the presentation aids (laser,
//! ink, spotlight, zoom, text boxes), the whiteboard and screen share, and the
//! notes panel.
//!
//! Positions on the slide are fractions of its size; the modes only record
//! whether a position is set, which is all that the mode logic reads. Each
//! command is a spec function from the old modes to the new ones, and the laws
//! at the end state what every command keeps.
use crate::config::DisplayConfig;
use crate::navigation::SlideNavigation;
use crate::style::{parse_pointer_style, pointer_style_named, style_after, PointerStyle};
use crate::text::{chars_of, is_word};
use vstd::prelude::*;

verus! {

/// The modes of a presentation.
#[derive(Debug, Clone, Copy)]
pub struct PresentationModes {
    /// The audience sees a blank whiteboard.
    pub whiteboard_active: bool,
    /// Screen-share mode is on.
    pub screen_share_mode: bool,
    /// The laser pointer is on.
    pub laser_active: bool,
    /// A pointer position is set.
    pub pointer_shown: bool,
    /// The laser pointer's style.
    pub pointer_style: PointerStyle,
    /// Ink drawing is on.
    pub ink_active: bool,
    /// Text box placement mode is on.
    pub text_box_mode: bool,
    /// The selected text box, if any.
    pub selected_text_box: Option<u64>,
    /// The selected text box is being edited inline.
    pub text_box_editing: bool,
    /// The id the next placed text box gets.
    pub next_text_box_id: u64,
    /// The spotlight is on.
    pub spotlight_active: bool,
    /// A spotlight position is set.
    pub spotlight_shown: bool,
    /// Zoom is on.
    pub zoom_active: bool,
    /// A zoom region is set.
    pub zoom_shown: bool,
    /// The notes panel is visible.
    pub notes_visible: bool,
    /// The notes panel is in edit mode.
    pub notes_editing: bool,
}

/// The modes a presentation starts in: only the laser and the notes panel on,
/// the dot pointer, and text box ids counted from 1.
pub open spec fn initial_modes() -> PresentationModes {
    PresentationModes {
        whiteboard_active: false,
        screen_share_mode: false,
        laser_active: true,
        pointer_shown: false,
        pointer_style: PointerStyle::Dot,
        ink_active: false,
        text_box_mode: false,
        selected_text_box: None,
        text_box_editing: false,
        next_text_box_id: 1,
        spotlight_active: false,
        spotlight_shown: false,
        zoom_active: false,
        zoom_shown: false,
        notes_visible: true,
        notes_editing: false,
    }
}

/// What every command keeps: laser and ink are never on together, notes are
/// edited only in a visible panel, a spotlight position or zoom region is set
/// only while its aid is on, and only a selected text box is edited.
pub open spec fn modes_consistent(m: PresentationModes) -> bool {
    &&& !(m.laser_active && m.ink_active)
    &&& m.notes_editing ==> m.notes_visible
    &&& m.spotlight_shown ==> m.spotlight_active
    &&& m.zoom_shown ==> m.zoom_active
    &&& m.text_box_editing ==> m.selected_text_box is Some
}

/// No text box selected, none being edited.
pub open spec fn without_selection(m: PresentationModes) -> PresentationModes {
    PresentationModes { selected_text_box: None, text_box_editing: false, ..m }
}

/// `ToggleLaser`: turning the laser off clears the pointer; turning it on turns
/// ink off.
pub open spec fn after_toggle_laser(m: PresentationModes) -> PresentationModes {
    if m.laser_active {
        PresentationModes { laser_active: false, pointer_shown: false, ..m }
    } else {
        PresentationModes { laser_active: true, ink_active: false, ..m }
    }
}

/// `SetPointerPosition`: the pointer is set while the laser or the spotlight is
/// on, and the spotlight follows it.
pub open spec fn after_set_pointer(m: PresentationModes) -> PresentationModes {
    PresentationModes {
        pointer_shown: m.pointer_shown || m.laser_active || m.spotlight_active,
        spotlight_shown: m.spotlight_shown || m.spotlight_active,
        ..m
    }
}

/// `ToggleInk`: turning ink on turns the laser off and clears the pointer.
pub open spec fn after_toggle_ink(m: PresentationModes) -> PresentationModes {
    if m.ink_active {
        PresentationModes { ink_active: false, ..m }
    } else {
        PresentationModes { ink_active: true, laser_active: false, pointer_shown: false, ..m }
    }
}

/// `ToggleSpotlight`: turning it off clears its position.
pub open spec fn after_toggle_spotlight(m: PresentationModes) -> PresentationModes {
    if m.spotlight_active {
        PresentationModes { spotlight_active: false, spotlight_shown: false, ..m }
    } else {
        PresentationModes { spotlight_active: true, ..m }
    }
}

/// `SetSpotlightPosition`: taken only while the spotlight is on.
pub open spec fn after_set_spotlight(m: PresentationModes) -> PresentationModes {
    PresentationModes { spotlight_shown: m.spotlight_shown || m.spotlight_active, ..m }
}

/// `ToggleZoom`: turning it off clears the region.
pub open spec fn after_toggle_zoom(m: PresentationModes) -> PresentationModes {
    if m.zoom_active {
        PresentationModes { zoom_active: false, zoom_shown: false, ..m }
    } else {
        PresentationModes { zoom_active: true, ..m }
    }
}

/// `SetZoomRegion`: taken only while zoom is on.
pub open spec fn after_set_zoom(m: PresentationModes) -> PresentationModes {
    PresentationModes { zoom_shown: m.zoom_shown || m.zoom_active, ..m }
}

/// `CycleLaserStyle`: the next style of the cycle.
pub open spec fn after_cycle_style(m: PresentationModes) -> PresentationModes {
    PresentationModes { pointer_style: style_after(m.pointer_style), ..m }
}

/// `ToggleTextBoxMode`: turning it on turns ink and the laser off and clears the
/// pointer; turning it off drops the selection.
pub open spec fn after_toggle_text_box_mode(m: PresentationModes) -> PresentationModes {
    if m.text_box_mode {
        without_selection(PresentationModes { text_box_mode: false, ..m })
    } else {
        PresentationModes {
            text_box_mode: true,
            ink_active: false,
            laser_active: false,
            pointer_shown: false,
            ..m
        }
    }
}

/// `PlaceTextBox`: the new box takes the next id and is selected for editing.
pub open spec fn after_place_text_box(m: PresentationModes) -> PresentationModes {
    PresentationModes {
        selected_text_box: Some(m.next_text_box_id),
        text_box_editing: true,
        next_text_box_id: (m.next_text_box_id + 1) as u64,
        ..m
    }
}

/// `DeleteTextBox`: deleting the selected box drops the selection.
pub open spec fn after_delete_text_box(m: PresentationModes, id: u64) -> PresentationModes {
    if m.selected_text_box == Some(id) {
        without_selection(m)
    } else {
        m
    }
}

/// `SelectTextBox`: select without editing.
pub open spec fn after_select_text_box(m: PresentationModes, id: u64) -> PresentationModes {
    PresentationModes { selected_text_box: Some(id), text_box_editing: false, ..m }
}

/// `BeginTextBoxEdit`: select and edit.
pub open spec fn after_begin_text_box_edit(m: PresentationModes, id: u64) -> PresentationModes {
    PresentationModes { selected_text_box: Some(id), text_box_editing: true, ..m }
}

/// `ToggleWhiteboard`: turning it on starts ink drawing and leaves every other
/// aid and the text box context.
pub open spec fn after_toggle_whiteboard(m: PresentationModes) -> PresentationModes {
    if m.whiteboard_active {
        PresentationModes { whiteboard_active: false, ..m }
    } else {
        without_selection(
            PresentationModes {
                whiteboard_active: true,
                ink_active: true,
                laser_active: false,
                text_box_mode: false,
                pointer_shown: false,
                ..m
            },
        )
    }
}

/// `ToggleBlackout` as the modes see it: a blackout ends the whiteboard.
pub open spec fn after_blackout(m: PresentationModes, now_blacked_out: bool) -> PresentationModes {
    if now_blacked_out {
        PresentationModes { whiteboard_active: false, ..m }
    } else {
        m
    }
}

/// `ToggleScreenShareMode`.
pub open spec fn after_toggle_screen_share(m: PresentationModes) -> PresentationModes {
    PresentationModes { screen_share_mode: !m.screen_share_mode, ..m }
}

/// `ToggleNotesPanel`: hiding the panel ends editing.
pub open spec fn after_toggle_notes_panel(m: PresentationModes) -> PresentationModes {
    if m.notes_visible {
        PresentationModes { notes_visible: false, notes_editing: false, ..m }
    } else {
        PresentationModes { notes_visible: true, ..m }
    }
}

/// `ToggleNotesEdit`: editing shows the panel.
pub open spec fn after_toggle_notes_edit(m: PresentationModes) -> PresentationModes {
    if m.notes_editing {
        PresentationModes { notes_editing: false, ..m }
    } else {
        PresentationModes { notes_editing: true, notes_visible: true, ..m }
    }
}

/// The modes a configuration starts with: the laser is off on a single display,
/// and the pointer style is the configured one.
pub open spec fn configured_modes(display_mode: Seq<char>, laser_style: Seq<char>) -> PresentationModes {
    PresentationModes {
        laser_active: display_mode != "single"@,
        pointer_style: pointer_style_named(laser_style),
        ..initial_modes()
    }
}

impl PresentationModes {
    /// The modes of a new presentation.
    pub fn new() -> (r: Self)
        ensures
            r == initial_modes(),
    {
        PresentationModes {
            whiteboard_active: false,
            screen_share_mode: false,
            laser_active: true,
            pointer_shown: false,
            pointer_style: PointerStyle::Dot,
            ink_active: false,
            text_box_mode: false,
            selected_text_box: None,
            text_box_editing: false,
            next_text_box_id: 1,
            spotlight_active: false,
            spotlight_shown: false,
            zoom_active: false,
            zoom_shown: false,
            notes_visible: true,
            notes_editing: false,
        }
    }

    /// `ToggleLaser`.
    pub fn toggle_laser(&mut self)
        ensures
            *final(self) == after_toggle_laser(*old(self)),
    {
        self.laser_active = !self.laser_active;
        if !self.laser_active {
            self.pointer_shown = false;
        }
        if self.laser_active {
            self.ink_active = false;
        }
    }

    /// `SetPointerPosition`.
    pub fn set_pointer_position(&mut self)
        ensures
            *final(self) == after_set_pointer(*old(self)),
    {
        if self.laser_active || self.spotlight_active {
            self.pointer_shown = true;
        }
        if self.spotlight_active {
            self.spotlight_shown = true;
        }
    }

    /// `ToggleInk`.
    pub fn toggle_ink(&mut self)
        ensures
            *final(self) == after_toggle_ink(*old(self)),
    {
        self.ink_active = !self.ink_active;
        if self.ink_active {
            self.laser_active = false;
            self.pointer_shown = false;
        }
    }

    /// `ToggleSpotlight`.
    pub fn toggle_spotlight(&mut self)
        ensures
            *final(self) == after_toggle_spotlight(*old(self)),
    {
        self.spotlight_active = !self.spotlight_active;
        if !self.spotlight_active {
            self.spotlight_shown = false;
        }
    }

    /// `SetSpotlightPosition`.
    pub fn set_spotlight_position(&mut self)
        ensures
            *final(self) == after_set_spotlight(*old(self)),
    {
        if self.spotlight_active {
            self.spotlight_shown = true;
        }
    }

    /// `ToggleZoom`.
    pub fn toggle_zoom(&mut self)
        ensures
            *final(self) == after_toggle_zoom(*old(self)),
    {
        self.zoom_active = !self.zoom_active;
        if !self.zoom_active {
            self.zoom_shown = false;
        }
    }

    /// `SetZoomRegion`.
    pub fn set_zoom_region(&mut self)
        ensures
            *final(self) == after_set_zoom(*old(self)),
    {
        if self.zoom_active {
            self.zoom_shown = true;
        }
    }

    /// `CycleLaserStyle`.
    pub fn cycle_laser_style(&mut self)
        ensures
            *final(self) == after_cycle_style(*old(self)),
    {
        self.pointer_style = self.pointer_style.next();
    }

    /// The starting modes for a display configuration and a laser style name.
    pub fn for_config(display: &DisplayConfig, laser_style: &str) -> (r: Self)
        ensures
            r == configured_modes(display.mode@, laser_style@),
    {
        let mut m = PresentationModes::new();
        m.pointer_style = parse_pointer_style(laser_style);
        if is_word(&chars_of(display.mode.as_str()), "single") {
            m.laser_active = false;
        }
        m
    }

    /// Drops the text box selection.
    fn reset_text_box_selection(&mut self)
        ensures
            *final(self) == without_selection(*old(self)),
    {
        self.selected_text_box = None;
        self.text_box_editing = false;
    }

    /// `ToggleTextBoxMode`.
    pub fn toggle_text_box_mode(&mut self)
        ensures
            *final(self) == after_toggle_text_box_mode(*old(self)),
    {
        self.text_box_mode = !self.text_box_mode;
        if self.text_box_mode {
            self.ink_active = false;
            self.laser_active = false;
            self.pointer_shown = false;
        } else {
            self.reset_text_box_selection();
        }
    }

    /// `PlaceTextBox`: returns the id of the new box.
    pub fn place_text_box(&mut self) -> (id: u64)
        requires
            old(self).next_text_box_id < u64::MAX,
        ensures
            id == old(self).next_text_box_id,
            *final(self) == after_place_text_box(*old(self)),
    {
        let id = self.next_text_box_id;
        self.next_text_box_id = self.next_text_box_id + 1;
        self.selected_text_box = Some(id);
        self.text_box_editing = true;
        id
    }

    /// `DeleteTextBox`.
    pub fn delete_text_box(&mut self, id: u64)
        ensures
            *final(self) == after_delete_text_box(*old(self), id),
    {
        if self.selected_text_box == Some(id) {
            self.reset_text_box_selection();
        }
    }

    /// `SelectTextBox`.
    pub fn select_text_box(&mut self, id: u64)
        ensures
            *final(self) == after_select_text_box(*old(self), id),
    {
        self.selected_text_box = Some(id);
        self.text_box_editing = false;
    }

    /// `DeselectTextBox`.
    pub fn deselect_text_box(&mut self)
        ensures
            *final(self) == without_selection(*old(self)),
    {
        self.reset_text_box_selection();
    }

    /// `BeginTextBoxEdit`.
    pub fn begin_text_box_edit(&mut self, id: u64)
        ensures
            *final(self) == after_begin_text_box_edit(*old(self), id),
    {
        self.selected_text_box = Some(id);
        self.text_box_editing = true;
    }

    /// `ToggleWhiteboard`: turning the whiteboard on also ends a blackout.
    pub fn toggle_whiteboard(&mut self, nav: &mut SlideNavigation)
        requires
            old(nav).wf(),
        ensures
            *final(self) == after_toggle_whiteboard(*old(self)),
            final(nav).wf(),
            *final(nav) == (SlideNavigation {
                blacked_out: old(nav).blacked_out && old(self).whiteboard_active,
                ..*old(nav)
            }),
    {
        self.whiteboard_active = !self.whiteboard_active;
        if self.whiteboard_active {
            nav.blacked_out = false;
            self.ink_active = true;
            self.laser_active = false;
            self.text_box_mode = false;
            self.pointer_shown = false;
            self.reset_text_box_selection();
        }
    }

    /// `ToggleBlackout`: a blackout ends the whiteboard; returns whether the
    /// display is now blacked out.
    pub fn toggle_blackout(&mut self, nav: &mut SlideNavigation) -> (now: bool)
        requires
            old(nav).wf(),
        ensures
            now == !old(nav).blacked_out,
            *final(self) == after_blackout(*old(self), now),
            final(nav).wf(),
            *final(nav) == (SlideNavigation { blacked_out: now, ..*old(nav) }),
    {
        let now = nav.toggle_blackout();
        if now {
            self.whiteboard_active = false;
        }
        now
    }

    /// `ToggleScreenShareMode`.
    pub fn toggle_screen_share(&mut self)
        ensures
            *final(self) == after_toggle_screen_share(*old(self)),
    {
        self.screen_share_mode = !self.screen_share_mode;
    }

    /// `ToggleNotesPanel`.
    pub fn toggle_notes_panel(&mut self)
        ensures
            *final(self) == after_toggle_notes_panel(*old(self)),
    {
        self.notes_visible = !self.notes_visible;
        if !self.notes_visible {
            self.notes_editing = false;
        }
    }

    /// `ToggleNotesEdit`.
    pub fn toggle_notes_edit(&mut self)
        ensures
            *final(self) == after_toggle_notes_edit(*old(self)),
    {
        self.notes_editing = !self.notes_editing;
        if self.notes_editing {
            self.notes_visible = true;
        }
    }
}

/// A presentation starts consistent, whatever its configuration.
pub proof fn law_modes_start_consistent(display_mode: Seq<char>, laser_style: Seq<char>)
    ensures
        modes_consistent(initial_modes()),
        modes_consistent(configured_modes(display_mode, laser_style)),
{
}

/// Every command keeps the modes consistent: in particular the laser and ink
/// are never on together, and notes are only edited in a visible panel.
pub proof fn law_commands_keep_modes_consistent(m: PresentationModes, id: u64, now_blacked_out: bool)
    requires
        modes_consistent(m),
    ensures
        modes_consistent(after_toggle_laser(m)),
        modes_consistent(after_set_pointer(m)),
        modes_consistent(after_toggle_ink(m)),
        modes_consistent(after_toggle_spotlight(m)),
        modes_consistent(after_set_spotlight(m)),
        modes_consistent(after_toggle_zoom(m)),
        modes_consistent(after_set_zoom(m)),
        modes_consistent(after_cycle_style(m)),
        modes_consistent(after_toggle_text_box_mode(m)),
        modes_consistent(after_place_text_box(m)),
        modes_consistent(after_delete_text_box(m, id)),
        modes_consistent(after_select_text_box(m, id)),
        modes_consistent(without_selection(m)),
        modes_consistent(after_begin_text_box_edit(m, id)),
        modes_consistent(after_toggle_whiteboard(m)),
        modes_consistent(after_blackout(m, now_blacked_out)),
        modes_consistent(after_toggle_screen_share(m)),
        modes_consistent(after_toggle_notes_panel(m)),
        modes_consistent(after_toggle_notes_edit(m)),
{
}

/// The whiteboard and a blackout exclude each other: turning the whiteboard on
/// draws with ink and leaves the laser and the text box context, and a blackout
/// ends the whiteboard.
pub proof fn law_whiteboard_takes_over(m: PresentationModes)
    ensures
        !m.whiteboard_active ==> {
            let w = after_toggle_whiteboard(m);
            &&& w.whiteboard_active && w.ink_active
            &&& !w.laser_active && !w.text_box_mode
            &&& w.selected_text_box is None && !w.text_box_editing
        },
        !after_blackout(m, true).whiteboard_active,
{
}


} // verus!
