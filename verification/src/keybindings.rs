//! Keybindings: named actions, key combinations, and the key -> action map.
use crate::order::{buffer_views, lex_leq, sort_buffers};
use crate::text::{
    append_chars, append_str, chars_of, is_word, slice_of, split_on, split_ranges, string_of,
    to_unicode_lowercase, trim, trim_range, lowercase, upper_ascii_chars, ascii_upper_seq, all_ascii, ascii_lower, ascii_upper, is_ws, lemma_find_char_at, lemma_trim_id,
};
use vstd::prelude::*;

verus! {

/// Named actions that can be bound to keys.
///
/// These names are the public API for keybinding configuration — they appear in
/// the TOML config file and in documentation. Renaming one is a breaking change.
#[derive(Debug, Clone, Copy, PartialEq, Eq, Hash, Structural)]
pub enum Action {
    /// Advance to the next logical slide or overlay-aware build step.
    NextSlide,
    /// Move to the previous logical slide or overlay-aware build step.
    PreviousSlide,
    /// Advance by one raw PDF page.
    NextOverlay,
    /// Move back by one raw PDF page.
    PreviousOverlay,
    /// Jump to the first logical slide.
    FirstSlide,
    /// Jump to the last logical slide.
    LastSlide,
    /// Enter a numeric slide jump.
    GoToSlide,
    /// Freeze or unfreeze the audience display.
    ToggleFreeze,
    /// Black out or restore the audience display.
    ToggleBlackout,
    /// Show or hide the whiteboard canvas.
    ToggleWhiteboard,
    /// Enable or disable the laser pointer.
    ToggleLaser,
    /// Rotate through configured laser pointer styles.
    CycleLaserStyle,
    /// Enable or disable freehand ink mode.
    ToggleInk,
    /// Clear ink from the active slide or whiteboard.
    ClearInk,
    /// Rotate through configured ink colors.
    CycleInkColor,
    /// Rotate through configured ink widths.
    CycleInkWidth,
    /// Enable or disable the spotlight overlay.
    ToggleSpotlight,
    /// Enable or disable the zoom overlay.
    ToggleZoom,
    /// Show or hide the slide overview.
    ToggleOverview,
    /// Show or hide slide notes.
    ToggleNotes,
    /// Toggle markdown editing for slide notes.
    ToggleNotesEdit,
    /// Start, pause, or resume the main timer.
    StartPauseTimer,
    /// Reset the main timer.
    ResetTimer,
    /// Increase the notes font size.
    IncrementNotesFont,
    /// Decrease the notes font size.
    DecrementNotesFont,
    /// Toggle screen-share window mode.
    ToggleScreenShare,
    /// Toggle the single-monitor presentation surface.
    TogglePresentationMode,
    /// Enable or disable text box placement mode.
    ToggleTextBoxMode,
    /// Request application shutdown.
    Quit,
    /// Save the active sidecar file.
    SaveSidecar,
}

/// The config-file name of an action.
pub open spec fn action_name(a: Action) -> Seq<char> {
    match a {
        Action::NextSlide => "next_slide"@,
        Action::PreviousSlide => "previous_slide"@,
        Action::NextOverlay => "next_overlay"@,
        Action::PreviousOverlay => "previous_overlay"@,
        Action::FirstSlide => "first_slide"@,
        Action::LastSlide => "last_slide"@,
        Action::GoToSlide => "go_to_slide"@,
        Action::ToggleFreeze => "toggle_freeze"@,
        Action::ToggleBlackout => "toggle_blackout"@,
        Action::ToggleWhiteboard => "toggle_whiteboard"@,
        Action::ToggleLaser => "toggle_laser"@,
        Action::CycleLaserStyle => "cycle_laser_style"@,
        Action::ToggleInk => "toggle_ink"@,
        Action::ClearInk => "clear_ink"@,
        Action::CycleInkColor => "cycle_ink_color"@,
        Action::CycleInkWidth => "cycle_ink_width"@,
        Action::ToggleSpotlight => "toggle_spotlight"@,
        Action::ToggleZoom => "toggle_zoom"@,
        Action::ToggleOverview => "toggle_overview"@,
        Action::ToggleNotes => "toggle_notes"@,
        Action::ToggleNotesEdit => "toggle_notes_edit"@,
        Action::StartPauseTimer => "start_pause_timer"@,
        Action::ResetTimer => "reset_timer"@,
        Action::IncrementNotesFont => "increment_notes_font"@,
        Action::DecrementNotesFont => "decrement_notes_font"@,
        Action::ToggleScreenShare => "toggle_screen_share"@,
        Action::TogglePresentationMode => "toggle_presentation_mode"@,
        Action::ToggleTextBoxMode => "toggle_text_box_mode"@,
        Action::Quit => "quit"@,
        Action::SaveSidecar => "save_sidecar"@,
    }
}

/// The help-overlay description of an action.
pub open spec fn action_description(a: Action) -> Seq<char> {
    match a {
        Action::NextSlide => "Next slide/build step"@,
        Action::PreviousSlide => "Previous slide/build step"@,
        Action::NextOverlay => "Next overlay step"@,
        Action::PreviousOverlay => "Previous overlay step"@,
        Action::FirstSlide => "First slide"@,
        Action::LastSlide => "Last slide"@,
        Action::GoToSlide => "Go to slide…"@,
        Action::ToggleFreeze => "Freeze audience"@,
        Action::ToggleBlackout => "Black out audience"@,
        Action::ToggleWhiteboard => "Whiteboard"@,
        Action::ToggleLaser => "Laser pointer"@,
        Action::CycleLaserStyle => "Cycle laser style"@,
        Action::ToggleInk => "Drawing mode"@,
        Action::ClearInk => "Clear ink"@,
        Action::CycleInkColor => "Cycle pen color"@,
        Action::CycleInkWidth => "Cycle pen width"@,
        Action::ToggleSpotlight => "Spotlight"@,
        Action::ToggleZoom => "Zoom mode"@,
        Action::ToggleOverview => "Slide overview"@,
        Action::ToggleNotes => "Toggle notes"@,
        Action::ToggleNotesEdit => "Edit notes"@,
        Action::StartPauseTimer => "Start / pause timer"@,
        Action::ResetTimer => "Reset timer"@,
        Action::IncrementNotesFont => "Increase notes font"@,
        Action::DecrementNotesFont => "Decrease notes font"@,
        Action::ToggleScreenShare => "Screen-share mode"@,
        Action::TogglePresentationMode => "Presentation mode"@,
        Action::ToggleTextBoxMode => "Text box mode"@,
        Action::Quit => "Quit"@,
        Action::SaveSidecar => "Save sidecar"@,
    }
}

/// The help-overlay group of an action.
pub open spec fn action_group(a: Action) -> Seq<char> {
    match a {
        Action::NextSlide => "Navigation"@,
        Action::PreviousSlide => "Navigation"@,
        Action::NextOverlay => "Navigation"@,
        Action::PreviousOverlay => "Navigation"@,
        Action::FirstSlide => "Navigation"@,
        Action::LastSlide => "Navigation"@,
        Action::GoToSlide => "Navigation"@,
        Action::ToggleFreeze => "Display"@,
        Action::ToggleBlackout => "Display"@,
        Action::ToggleWhiteboard => "Display"@,
        Action::ToggleLaser => "Presenter Tools"@,
        Action::CycleLaserStyle => "Presenter Tools"@,
        Action::ToggleInk => "Presenter Tools"@,
        Action::ClearInk => "Presenter Tools"@,
        Action::CycleInkColor => "Presenter Tools"@,
        Action::CycleInkWidth => "Presenter Tools"@,
        Action::ToggleSpotlight => "Presenter Tools"@,
        Action::ToggleZoom => "Presenter Tools"@,
        Action::ToggleOverview => "Notes & Panels"@,
        Action::ToggleNotes => "Notes & Panels"@,
        Action::ToggleNotesEdit => "Notes & Panels"@,
        Action::StartPauseTimer => "Timer"@,
        Action::ResetTimer => "Timer"@,
        Action::IncrementNotesFont => "Notes & Panels"@,
        Action::DecrementNotesFont => "Notes & Panels"@,
        Action::ToggleScreenShare => "Display"@,
        Action::TogglePresentationMode => "Display"@,
        Action::ToggleTextBoxMode => "Presenter Tools"@,
        Action::Quit => "System"@,
        Action::SaveSidecar => "System"@,
    }
}

/// All known actions, in their documented order.
pub open spec fn all_actions() -> Seq<Action> {
    seq![
        Action::NextSlide,
        Action::PreviousSlide,
        Action::NextOverlay,
        Action::PreviousOverlay,
        Action::FirstSlide,
        Action::LastSlide,
        Action::GoToSlide,
        Action::ToggleFreeze,
        Action::ToggleBlackout,
        Action::ToggleWhiteboard,
        Action::ToggleLaser,
        Action::CycleLaserStyle,
        Action::ToggleInk,
        Action::ClearInk,
        Action::CycleInkColor,
        Action::CycleInkWidth,
        Action::ToggleSpotlight,
        Action::ToggleZoom,
        Action::ToggleOverview,
        Action::ToggleNotes,
        Action::ToggleNotesEdit,
        Action::StartPauseTimer,
        Action::ResetTimer,
        Action::IncrementNotesFont,
        Action::DecrementNotesFont,
        Action::ToggleScreenShare,
        Action::TogglePresentationMode,
        Action::ToggleTextBoxMode,
        Action::Quit,
        Action::SaveSidecar,
    ]
}

/// The action whose config-file name is `s`, if any.
pub open spec fn action_named(s: Seq<char>) -> Option<Action> {
    if s == "next_slide"@ {
        Some(Action::NextSlide)
    } else if s == "previous_slide"@ {
        Some(Action::PreviousSlide)
    } else if s == "next_overlay"@ {
        Some(Action::NextOverlay)
    } else if s == "previous_overlay"@ {
        Some(Action::PreviousOverlay)
    } else if s == "first_slide"@ {
        Some(Action::FirstSlide)
    } else if s == "last_slide"@ {
        Some(Action::LastSlide)
    } else if s == "go_to_slide"@ {
        Some(Action::GoToSlide)
    } else if s == "toggle_freeze"@ {
        Some(Action::ToggleFreeze)
    } else if s == "toggle_blackout"@ {
        Some(Action::ToggleBlackout)
    } else if s == "toggle_whiteboard"@ {
        Some(Action::ToggleWhiteboard)
    } else if s == "toggle_laser"@ {
        Some(Action::ToggleLaser)
    } else if s == "cycle_laser_style"@ {
        Some(Action::CycleLaserStyle)
    } else if s == "toggle_ink"@ {
        Some(Action::ToggleInk)
    } else if s == "clear_ink"@ {
        Some(Action::ClearInk)
    } else if s == "cycle_ink_color"@ {
        Some(Action::CycleInkColor)
    } else if s == "cycle_ink_width"@ {
        Some(Action::CycleInkWidth)
    } else if s == "toggle_spotlight"@ {
        Some(Action::ToggleSpotlight)
    } else if s == "toggle_zoom"@ {
        Some(Action::ToggleZoom)
    } else if s == "toggle_overview"@ {
        Some(Action::ToggleOverview)
    } else if s == "toggle_notes"@ {
        Some(Action::ToggleNotes)
    } else if s == "toggle_notes_edit"@ {
        Some(Action::ToggleNotesEdit)
    } else if s == "start_pause_timer"@ {
        Some(Action::StartPauseTimer)
    } else if s == "reset_timer"@ {
        Some(Action::ResetTimer)
    } else if s == "increment_notes_font"@ {
        Some(Action::IncrementNotesFont)
    } else if s == "decrement_notes_font"@ {
        Some(Action::DecrementNotesFont)
    } else if s == "toggle_screen_share"@ {
        Some(Action::ToggleScreenShare)
    } else if s == "toggle_presentation_mode"@ {
        Some(Action::TogglePresentationMode)
    } else if s == "toggle_text_box_mode"@ {
        Some(Action::ToggleTextBoxMode)
    } else if s == "quit"@ {
        Some(Action::Quit)
    } else if s == "save_sidecar"@ {
        Some(Action::SaveSidecar)
    } else {
        None
    }
}

/// The built-in key strings of each action (pdfpc-compatible where applicable).
pub open spec fn default_binding_list() -> Seq<(Action, Seq<Seq<char>>)> {
    seq![
        (Action::NextSlide, seq!["Right"@, "Space"@, "Down"@, "PageDown"@]),
        (Action::PreviousSlide, seq!["Left"@, "Up"@, "PageUp"@]),
        (Action::NextOverlay, seq!["Shift+Right"@, "Shift+Down"@]),
        (Action::PreviousOverlay, seq!["Shift+Left"@, "Shift+Up"@]),
        (Action::FirstSlide, seq!["Home"@]),
        (Action::LastSlide, seq!["End"@]),
        (Action::GoToSlide, seq!["g"@]),
        (Action::ToggleFreeze, seq!["f"@]),
        (Action::ToggleBlackout, seq!["b"@, "."@]),
        (Action::ToggleWhiteboard, seq!["w"@]),
        (Action::ToggleLaser, seq!["l"@]),
        (Action::CycleLaserStyle, seq!["Ctrl+l"@]),
        (Action::ToggleInk, seq!["d"@]),
        (Action::ClearInk, seq!["c"@]),
        (Action::CycleInkColor, seq!["Ctrl+d"@]),
        (Action::CycleInkWidth, seq!["Shift+d"@]),
        (Action::ToggleSpotlight, seq!["s"@]),
        (Action::ToggleZoom, seq!["z"@]),
        (Action::ToggleOverview, seq!["o"@]),
        (Action::ToggleNotes, seq!["n"@]),
        (Action::ToggleNotesEdit, seq!["Ctrl+n"@]),
        (Action::StartPauseTimer, seq!["t"@]),
        (Action::ResetTimer, seq!["Shift+t"@]),
        (Action::IncrementNotesFont, seq!["+"@, "Shift+="@]),
        (Action::DecrementNotesFont, seq!["-"@]),
        (Action::ToggleScreenShare, seq!["Shift+s"@]),
        (Action::TogglePresentationMode, seq!["F5"@]),
        (Action::ToggleTextBoxMode, seq!["x"@]),
        (Action::Quit, seq!["q"@, "Escape"@]),
        (Action::SaveSidecar, seq!["Ctrl+s"@]),
    ]
}

impl Action {
    /// The config-file name for this action (e.g., `next_slide`).
    pub fn config_name(self) -> (r: &'static str)
        ensures
            r@ == action_name(self),
    {
        match self {
            Self::NextSlide => "next_slide",
            Self::PreviousSlide => "previous_slide",
            Self::NextOverlay => "next_overlay",
            Self::PreviousOverlay => "previous_overlay",
            Self::FirstSlide => "first_slide",
            Self::LastSlide => "last_slide",
            Self::GoToSlide => "go_to_slide",
            Self::ToggleFreeze => "toggle_freeze",
            Self::ToggleBlackout => "toggle_blackout",
            Self::ToggleWhiteboard => "toggle_whiteboard",
            Self::ToggleLaser => "toggle_laser",
            Self::CycleLaserStyle => "cycle_laser_style",
            Self::ToggleInk => "toggle_ink",
            Self::ClearInk => "clear_ink",
            Self::CycleInkColor => "cycle_ink_color",
            Self::CycleInkWidth => "cycle_ink_width",
            Self::ToggleSpotlight => "toggle_spotlight",
            Self::ToggleZoom => "toggle_zoom",
            Self::ToggleOverview => "toggle_overview",
            Self::ToggleNotes => "toggle_notes",
            Self::ToggleNotesEdit => "toggle_notes_edit",
            Self::StartPauseTimer => "start_pause_timer",
            Self::ResetTimer => "reset_timer",
            Self::IncrementNotesFont => "increment_notes_font",
            Self::DecrementNotesFont => "decrement_notes_font",
            Self::ToggleScreenShare => "toggle_screen_share",
            Self::TogglePresentationMode => "toggle_presentation_mode",
            Self::ToggleTextBoxMode => "toggle_text_box_mode",
            Self::Quit => "quit",
            Self::SaveSidecar => "save_sidecar",
        }
    }

    /// Human-readable description for the help overlay.
    pub fn description(self) -> (r: &'static str)
        ensures
            r@ == action_description(self),
    {
        match self {
            Self::NextSlide => "Next slide/build step",
            Self::PreviousSlide => "Previous slide/build step",
            Self::NextOverlay => "Next overlay step",
            Self::PreviousOverlay => "Previous overlay step",
            Self::FirstSlide => "First slide",
            Self::LastSlide => "Last slide",
            Self::GoToSlide => "Go to slide…",
            Self::ToggleFreeze => "Freeze audience",
            Self::ToggleBlackout => "Black out audience",
            Self::ToggleWhiteboard => "Whiteboard",
            Self::ToggleLaser => "Laser pointer",
            Self::CycleLaserStyle => "Cycle laser style",
            Self::ToggleInk => "Drawing mode",
            Self::ClearInk => "Clear ink",
            Self::CycleInkColor => "Cycle pen color",
            Self::CycleInkWidth => "Cycle pen width",
            Self::ToggleSpotlight => "Spotlight",
            Self::ToggleZoom => "Zoom mode",
            Self::ToggleOverview => "Slide overview",
            Self::ToggleNotes => "Toggle notes",
            Self::ToggleNotesEdit => "Edit notes",
            Self::StartPauseTimer => "Start / pause timer",
            Self::ResetTimer => "Reset timer",
            Self::IncrementNotesFont => "Increase notes font",
            Self::DecrementNotesFont => "Decrease notes font",
            Self::ToggleScreenShare => "Screen-share mode",
            Self::TogglePresentationMode => "Presentation mode",
            Self::ToggleTextBoxMode => "Text box mode",
            Self::Quit => "Quit",
            Self::SaveSidecar => "Save sidecar",
        }
    }

    /// Grouping label for the help overlay.
    pub fn group(self) -> (r: &'static str)
        ensures
            r@ == action_group(self),
    {
        match self {
            Self::NextSlide => "Navigation",
            Self::PreviousSlide => "Navigation",
            Self::NextOverlay => "Navigation",
            Self::PreviousOverlay => "Navigation",
            Self::FirstSlide => "Navigation",
            Self::LastSlide => "Navigation",
            Self::GoToSlide => "Navigation",
            Self::ToggleFreeze => "Display",
            Self::ToggleBlackout => "Display",
            Self::ToggleWhiteboard => "Display",
            Self::ToggleLaser => "Presenter Tools",
            Self::CycleLaserStyle => "Presenter Tools",
            Self::ToggleInk => "Presenter Tools",
            Self::ClearInk => "Presenter Tools",
            Self::CycleInkColor => "Presenter Tools",
            Self::CycleInkWidth => "Presenter Tools",
            Self::ToggleSpotlight => "Presenter Tools",
            Self::ToggleZoom => "Presenter Tools",
            Self::ToggleOverview => "Notes & Panels",
            Self::ToggleNotes => "Notes & Panels",
            Self::ToggleNotesEdit => "Notes & Panels",
            Self::StartPauseTimer => "Timer",
            Self::ResetTimer => "Timer",
            Self::IncrementNotesFont => "Notes & Panels",
            Self::DecrementNotesFont => "Notes & Panels",
            Self::ToggleScreenShare => "Display",
            Self::TogglePresentationMode => "Display",
            Self::ToggleTextBoxMode => "Presenter Tools",
            Self::Quit => "System",
            Self::SaveSidecar => "System",
        }
    }

    /// All known actions.
    pub fn all() -> (r: Vec<Action>)
        ensures
            r@ == all_actions(),
    {
        let r = vec![
            Self::NextSlide,
            Self::PreviousSlide,
            Self::NextOverlay,
            Self::PreviousOverlay,
            Self::FirstSlide,
            Self::LastSlide,
            Self::GoToSlide,
            Self::ToggleFreeze,
            Self::ToggleBlackout,
            Self::ToggleWhiteboard,
            Self::ToggleLaser,
            Self::CycleLaserStyle,
            Self::ToggleInk,
            Self::ClearInk,
            Self::CycleInkColor,
            Self::CycleInkWidth,
            Self::ToggleSpotlight,
            Self::ToggleZoom,
            Self::ToggleOverview,
            Self::ToggleNotes,
            Self::ToggleNotesEdit,
            Self::StartPauseTimer,
            Self::ResetTimer,
            Self::IncrementNotesFont,
            Self::DecrementNotesFont,
            Self::ToggleScreenShare,
            Self::TogglePresentationMode,
            Self::ToggleTextBoxMode,
            Self::Quit,
            Self::SaveSidecar,
        ];
        assert(r@ =~= all_actions());
        r
    }

    /// The action with the given config-file name, if any.
    pub fn from_config_name(name: &str) -> (r: Option<Action>)
        ensures
            r == action_named(name@),
    {
        let s = chars_of(name);
        action_from_chars(&s)
    }
}

/// The action with the given config-file name, if any.
pub fn action_from_chars(s: &Vec<char>) -> (r: Option<Action>)
    ensures
        r == action_named(s@),
{
    if is_word(s, "next_slide") {
        Some(Action::NextSlide)
    } else if is_word(s, "previous_slide") {
        Some(Action::PreviousSlide)
    } else if is_word(s, "next_overlay") {
        Some(Action::NextOverlay)
    } else if is_word(s, "previous_overlay") {
        Some(Action::PreviousOverlay)
    } else if is_word(s, "first_slide") {
        Some(Action::FirstSlide)
    } else if is_word(s, "last_slide") {
        Some(Action::LastSlide)
    } else if is_word(s, "go_to_slide") {
        Some(Action::GoToSlide)
    } else if is_word(s, "toggle_freeze") {
        Some(Action::ToggleFreeze)
    } else if is_word(s, "toggle_blackout") {
        Some(Action::ToggleBlackout)
    } else if is_word(s, "toggle_whiteboard") {
        Some(Action::ToggleWhiteboard)
    } else if is_word(s, "toggle_laser") {
        Some(Action::ToggleLaser)
    } else if is_word(s, "cycle_laser_style") {
        Some(Action::CycleLaserStyle)
    } else if is_word(s, "toggle_ink") {
        Some(Action::ToggleInk)
    } else if is_word(s, "clear_ink") {
        Some(Action::ClearInk)
    } else if is_word(s, "cycle_ink_color") {
        Some(Action::CycleInkColor)
    } else if is_word(s, "cycle_ink_width") {
        Some(Action::CycleInkWidth)
    } else if is_word(s, "toggle_spotlight") {
        Some(Action::ToggleSpotlight)
    } else if is_word(s, "toggle_zoom") {
        Some(Action::ToggleZoom)
    } else if is_word(s, "toggle_overview") {
        Some(Action::ToggleOverview)
    } else if is_word(s, "toggle_notes") {
        Some(Action::ToggleNotes)
    } else if is_word(s, "toggle_notes_edit") {
        Some(Action::ToggleNotesEdit)
    } else if is_word(s, "start_pause_timer") {
        Some(Action::StartPauseTimer)
    } else if is_word(s, "reset_timer") {
        Some(Action::ResetTimer)
    } else if is_word(s, "increment_notes_font") {
        Some(Action::IncrementNotesFont)
    } else if is_word(s, "decrement_notes_font") {
        Some(Action::DecrementNotesFont)
    } else if is_word(s, "toggle_screen_share") {
        Some(Action::ToggleScreenShare)
    } else if is_word(s, "toggle_presentation_mode") {
        Some(Action::TogglePresentationMode)
    } else if is_word(s, "toggle_text_box_mode") {
        Some(Action::ToggleTextBoxMode)
    } else if is_word(s, "quit") {
        Some(Action::Quit)
    } else if is_word(s, "save_sidecar") {
        Some(Action::SaveSidecar)
    } else {
        None
    }
}

/// A `String` with the characters of a literal.
fn owned(s: &str) -> (r: String)
    ensures
        r@ == s@,
{
    s.to_owned()
}

/// The views of a list of strings.
pub open spec fn string_views(v: Seq<String>) -> Seq<Seq<char>> {
    v.map_values(|s: String| s@)
}

/// Default keybindings (pdfpc-compatible where applicable).
pub fn default_keybindings() -> (r: Vec<(Action, Vec<String>)>)
    ensures
        r@.len() == default_binding_list().len(),
        forall|i: int|
            0 <= i < r@.len() ==> (#[trigger] r@[i]).0 == default_binding_list()[i].0
                && string_views(r@[i].1@) == default_binding_list()[i].1,
{
    let mut r: Vec<(Action, Vec<String>)> = Vec::new();
    let keys = vec![owned("Right"), owned("Space"), owned("Down"), owned("PageDown")];
    assert(string_views(keys@) =~= seq!["Right"@, "Space"@, "Down"@, "PageDown"@]);
    r.push((Action::NextSlide, keys));
    let keys = vec![owned("Left"), owned("Up"), owned("PageUp")];
    assert(string_views(keys@) =~= seq!["Left"@, "Up"@, "PageUp"@]);
    r.push((Action::PreviousSlide, keys));
    let keys = vec![owned("Shift+Right"), owned("Shift+Down")];
    assert(string_views(keys@) =~= seq!["Shift+Right"@, "Shift+Down"@]);
    r.push((Action::NextOverlay, keys));
    let keys = vec![owned("Shift+Left"), owned("Shift+Up")];
    assert(string_views(keys@) =~= seq!["Shift+Left"@, "Shift+Up"@]);
    r.push((Action::PreviousOverlay, keys));
    let keys = vec![owned("Home")];
    assert(string_views(keys@) =~= seq!["Home"@]);
    r.push((Action::FirstSlide, keys));
    let keys = vec![owned("End")];
    assert(string_views(keys@) =~= seq!["End"@]);
    r.push((Action::LastSlide, keys));
    let keys = vec![owned("g")];
    assert(string_views(keys@) =~= seq!["g"@]);
    r.push((Action::GoToSlide, keys));
    let keys = vec![owned("f")];
    assert(string_views(keys@) =~= seq!["f"@]);
    r.push((Action::ToggleFreeze, keys));
    let keys = vec![owned("b"), owned(".")];
    assert(string_views(keys@) =~= seq!["b"@, "."@]);
    r.push((Action::ToggleBlackout, keys));
    let keys = vec![owned("w")];
    assert(string_views(keys@) =~= seq!["w"@]);
    r.push((Action::ToggleWhiteboard, keys));
    let keys = vec![owned("l")];
    assert(string_views(keys@) =~= seq!["l"@]);
    r.push((Action::ToggleLaser, keys));
    let keys = vec![owned("Ctrl+l")];
    assert(string_views(keys@) =~= seq!["Ctrl+l"@]);
    r.push((Action::CycleLaserStyle, keys));
    let keys = vec![owned("d")];
    assert(string_views(keys@) =~= seq!["d"@]);
    r.push((Action::ToggleInk, keys));
    let keys = vec![owned("c")];
    assert(string_views(keys@) =~= seq!["c"@]);
    r.push((Action::ClearInk, keys));
    let keys = vec![owned("Ctrl+d")];
    assert(string_views(keys@) =~= seq!["Ctrl+d"@]);
    r.push((Action::CycleInkColor, keys));
    let keys = vec![owned("Shift+d")];
    assert(string_views(keys@) =~= seq!["Shift+d"@]);
    r.push((Action::CycleInkWidth, keys));
    let keys = vec![owned("s")];
    assert(string_views(keys@) =~= seq!["s"@]);
    r.push((Action::ToggleSpotlight, keys));
    let keys = vec![owned("z")];
    assert(string_views(keys@) =~= seq!["z"@]);
    r.push((Action::ToggleZoom, keys));
    let keys = vec![owned("o")];
    assert(string_views(keys@) =~= seq!["o"@]);
    r.push((Action::ToggleOverview, keys));
    let keys = vec![owned("n")];
    assert(string_views(keys@) =~= seq!["n"@]);
    r.push((Action::ToggleNotes, keys));
    let keys = vec![owned("Ctrl+n")];
    assert(string_views(keys@) =~= seq!["Ctrl+n"@]);
    r.push((Action::ToggleNotesEdit, keys));
    let keys = vec![owned("t")];
    assert(string_views(keys@) =~= seq!["t"@]);
    r.push((Action::StartPauseTimer, keys));
    let keys = vec![owned("Shift+t")];
    assert(string_views(keys@) =~= seq!["Shift+t"@]);
    r.push((Action::ResetTimer, keys));
    let keys = vec![owned("+"), owned("Shift+=")];
    assert(string_views(keys@) =~= seq!["+"@, "Shift+="@]);
    r.push((Action::IncrementNotesFont, keys));
    let keys = vec![owned("-")];
    assert(string_views(keys@) =~= seq!["-"@]);
    r.push((Action::DecrementNotesFont, keys));
    let keys = vec![owned("Shift+s")];
    assert(string_views(keys@) =~= seq!["Shift+s"@]);
    r.push((Action::ToggleScreenShare, keys));
    let keys = vec![owned("F5")];
    assert(string_views(keys@) =~= seq!["F5"@]);
    r.push((Action::TogglePresentationMode, keys));
    let keys = vec![owned("x")];
    assert(string_views(keys@) =~= seq!["x"@]);
    r.push((Action::ToggleTextBoxMode, keys));
    let keys = vec![owned("q"), owned("Escape")];
    assert(string_views(keys@) =~= seq!["q"@, "Escape"@]);
    r.push((Action::Quit, keys));
    let keys = vec![owned("Ctrl+s")];
    assert(string_views(keys@) =~= seq!["Ctrl+s"@]);
    r.push((Action::SaveSidecar, keys));
    assert forall|i: int| 0 <= i < r@.len() implies (#[trigger] r@[i]).0 == default_binding_list()[i].0
        && string_views(r@[i].1@) == default_binding_list()[i].1 by {}
    r
}

// ---------------------------------------------------------------------------
// Key combinations
// ---------------------------------------------------------------------------

/// A key combination (key name + modifiers).
#[derive(Debug, Clone, PartialEq, Eq, Hash)]
pub struct KeyCombo {
    /// The key name (e.g., "Right", "Space", "a", "F1").
    pub key: String,
    /// Whether Shift is held.
    pub shift: bool,
    /// Whether Ctrl (or Cmd on macOS) is held.
    pub ctrl: bool,
    /// Whether Alt is held.
    pub alt: bool,
}

/// The model of a key combination: key name, shift, ctrl, alt.
pub type ComboModel = (Seq<char>, bool, bool, bool);

/// The model of a `KeyCombo`.
pub open spec fn combo_model(c: KeyCombo) -> ComboModel {
    (c.key@, c.shift, c.ctrl, c.alt)
}

/// Which modifier a (trimmed) part of a combo string names: 1 Shift, 2 Ctrl, 3 Alt,
/// 0 none. Modifier names are matched after Unicode lowercasing.
pub open spec fn modifier_of(part: Seq<char>) -> int {
    let l = lowercase(part);
    if l == "shift"@ {
        1
    } else if l == "ctrl"@ || l == "control"@ || l == "cmd"@ || l == "command"@ {
        2
    } else if l == "alt"@ || l == "option"@ {
        3
    } else {
        0
    }
}

/// Scans the `+`-separated parts of a combo string: the last non-modifier part
/// (trimmed) is the key, and each modifier name sets its flag.
pub open spec fn scan_parts(parts: Seq<Seq<char>>) -> (Option<Seq<char>>, bool, bool, bool)
    decreases parts.len(),
{
    if parts.len() == 0 {
        (None, false, false, false)
    } else {
        let prev = scan_parts(parts.drop_last());
        let p = trim(parts.last());
        let m = modifier_of(p);
        if m == 1 {
            (prev.0, true, prev.2, prev.3)
        } else if m == 2 {
            (prev.0, prev.1, true, prev.3)
        } else if m == 3 {
            (prev.0, prev.1, prev.2, true)
        } else {
            (Some(p), prev.1, prev.2, prev.3)
        }
    }
}

/// Single-character key names are lowercased; longer names are kept as written.
pub open spec fn normalized_key(key: Seq<char>) -> Seq<char> {
    if key.len() == 1 {
        lowercase(key)
    } else {
        key
    }
}

/// The key combination a string like "Shift+Right" or "Ctrl+s" names, if any.
pub open spec fn parse_combo(s: Seq<char>) -> Option<ComboModel> {
    let scanned = scan_parts(split_on(s, '+'));
    match scanned.0 {
        Some(key) => Some((normalized_key(key), scanned.1, scanned.2, scanned.3)),
        None => None,
    }
}

/// How a key name is shown: a one-byte (ASCII) key in uppercase, others as written.
pub open spec fn display_key(key: Seq<char>) -> Seq<char> {
    if key.len() == 1 && (key[0] as u32) < 128 {
        ascii_upper_seq(key)
    } else {
        key
    }
}

/// Human-readable display string: modifiers in the order Ctrl, Alt, Shift, then the key,
/// joined with `+`.
pub open spec fn combo_display(c: ComboModel) -> Seq<char> {
    (if c.2 {
        "Ctrl+"@
    } else {
        seq![]
    }) + (if c.3 {
        "Alt+"@
    } else {
        seq![]
    }) + (if c.1 {
        "Shift+"@
    } else {
        seq![]
    }) + display_key(c.0)
}

/// Single-character names are lowercased so that "Ctrl+L" and "Ctrl+l" agree.
pub fn normalize_key_name(key: &Vec<char>) -> (r: Vec<char>)
    ensures
        r@ == normalized_key(key@),
{
    if key.len() == 1 {
        to_unicode_lowercase(key)
    } else {
        slice_of(key, 0, key.len())
    }
}

impl KeyCombo {
    /// Parse a key combo string like "Shift+Right" or "Ctrl+s".
    pub fn parse(s: &str) -> (r: Option<Self>)
        ensures
            match r {
                Some(c) => parse_combo(s@) == Some(combo_model(c)),
                None => parse_combo(s@) is None,
            },
    {
        let chars = chars_of(s);
        Self::parse_chars(&chars)
    }

    /// `parse` on a character buffer.
    pub fn parse_chars(chars: &Vec<char>) -> (r: Option<Self>)
        ensures
            match r {
                Some(c) => parse_combo(chars@) == Some(combo_model(c)),
                None => parse_combo(chars@) is None,
            },
    {
        let parts = split_ranges(chars, 0, chars.len(), '+');
        let ghost all = split_on(chars@, '+');
        assert(chars@.subrange(0, chars.len() as int) =~= chars@);
        let mut shift = false;
        let mut ctrl = false;
        let mut alt = false;
        let mut key: Option<Vec<char>> = None;
        let mut k: usize = 0;
        while k < parts.len()
            invariant
                k <= parts.len(),
                parts@.len() == all.len(),
                all == split_on(chars@, '+'),
                forall|j: int|
                    0 <= j < parts@.len() ==> (#[trigger] parts@[j]).0 <= parts@[j].1 <= chars.len()
                        && chars@.subrange(parts@[j].0 as int, parts@[j].1 as int) == all[j],
                ({
                    let sc = scan_parts(all.take(k as int));
                    &&& sc.1 == shift
                    &&& sc.2 == ctrl
                    &&& sc.3 == alt
                    &&& match key {
                        Some(kv) => sc.0 == Some(kv@),
                        None => sc.0 is None,
                    }
                }),
            decreases parts.len() - k,
        {
            let (a, b) = parts[k];
            let (ta, tb) = trim_range(chars, a, b);
            let normalized = slice_of(chars, ta, tb);
            let lower = to_unicode_lowercase(&normalized);
            assert(all.take(k + 1).drop_last() =~= all.take(k as int));
            assert(all.take(k + 1).last() == all[k as int]);
            if is_word(&lower, "shift") {
                shift = true;
            } else if is_word(&lower, "ctrl") || is_word(&lower, "control") || is_word(
                &lower,
                "cmd",
            ) || is_word(&lower, "command") {
                ctrl = true;
            } else if is_word(&lower, "alt") || is_word(&lower, "option") {
                alt = true;
            } else {
                key = Some(normalized);
            }
            k += 1;
        }
        assert(all.take(parts.len() as int) =~= all);
        match key {
            Some(kv) => {
                let nk = normalize_key_name(&kv);
                Some(KeyCombo { key: string_of(&nk), shift, ctrl, alt })
            },
            None => None,
        }
    }

    /// Human-readable display string (e.g., "Ctrl+Shift+S").
    pub fn display_name(&self) -> (r: String)
        ensures
            r@ == combo_display(combo_model(*self)),
    {
        let chars = self.display_chars();
        string_of(&chars)
    }

    /// `display_name` as a character buffer.
    pub fn display_chars(&self) -> (r: Vec<char>)
        ensures
            r@ == combo_display(combo_model(*self)),
    {
        let mut out: Vec<char> = Vec::new();
        if self.ctrl {
            append_str(&mut out, "Ctrl+");
        }
        if self.alt {
            append_str(&mut out, "Alt+");
        }
        if self.shift {
            append_str(&mut out, "Shift+");
        }
        let key = chars_of(self.key.as_str());
        // Capitalise single-character (one-byte) keys for display.
        let key_display = if key.len() == 1 && (key[0] as u32) < 128 {
            upper_ascii_chars(&key)
        } else {
            key
        };
        append_chars(&mut out, &key_display);
        proof {
            let c = combo_model(*self);
            let ctrl_part: Seq<char> = if c.2 {
                "Ctrl+"@
            } else {
                seq![]
            };
            let alt_part: Seq<char> = if c.3 {
                "Alt+"@
            } else {
                seq![]
            };
            let shift_part: Seq<char> = if c.1 {
                "Shift+"@
            } else {
                seq![]
            };
            assert(out@ =~= ctrl_part + alt_part + shift_part + display_key(c.0));
        }
        out
    }
}

// ---------------------------------------------------------------------------
// The key -> action map
// ---------------------------------------------------------------------------

/// The position of the binding for `k`, if any.
pub open spec fn find_binding(v: Seq<(ComboModel, Action)>, k: ComboModel) -> Option<int>
    decreases v.len(),
{
    if v.len() == 0 {
        None
    } else if v[0].0 == k {
        Some(0)
    } else {
        match find_binding(v.drop_first(), k) {
            Some(i) => Some(i + 1),
            None => None,
        }
    }
}

/// Binds `k` to `a`, replacing any binding of `k`.
pub open spec fn bind(v: Seq<(ComboModel, Action)>, k: ComboModel, a: Action) -> Seq<
    (ComboModel, Action),
> {
    match find_binding(v, k) {
        Some(i) => v.update(i, (k, a)),
        None => v.push((k, a)),
    }
}

/// Removes every binding of action `a`.
pub open spec fn unbind_action(v: Seq<(ComboModel, Action)>, a: Action) -> Seq<
    (ComboModel, Action),
> {
    v.filter(not_bound_to(a))
}

/// Holds of the bindings of actions other than `a`.
pub open spec fn not_bound_to(a: Action) -> spec_fn((ComboModel, Action)) -> bool {
    |e: (ComboModel, Action)| e.1 != a
}

/// Holds of the bindings of `a`.
pub open spec fn bound_to(a: Action) -> spec_fn((ComboModel, Action)) -> bool {
    |e: (ComboModel, Action)| e.1 == a
}

/// The display names of the combinations of a list of bindings.
pub open spec fn displays(v: Seq<(ComboModel, Action)>) -> Seq<Seq<char>> {
    v.map_values(|e: (ComboModel, Action)| combo_display(e.0))
}

/// Filtering a prefix one element longer adds that element exactly when it is kept.
proof fn lemma_filter_step(
    v: Seq<(ComboModel, Action)>,
    f: spec_fn((ComboModel, Action)) -> bool,
    i: int,
)
    requires
        0 <= i < v.len(),
    ensures
        v.take(i + 1).filter(f) == (if f(v[i]) {
            v.take(i).filter(f).push(v[i])
        } else {
            v.take(i).filter(f)
        }),
{
    reveal(Seq::filter);
    assert(v.take(i + 1).drop_last() =~= v.take(i));
}

/// Binds each parseable key string of `keys` to `a`, in order; unparseable ones are skipped.
pub open spec fn bind_keys(v: Seq<(ComboModel, Action)>, keys: Seq<Seq<char>>, a: Action) -> Seq<
    (ComboModel, Action),
>
    decreases keys.len(),
{
    if keys.len() == 0 {
        v
    } else {
        let w = bind_keys(v, keys.drop_last(), a);
        match parse_combo(keys.last()) {
            Some(c) => bind(w, c, a),
            None => w,
        }
    }
}

/// The bindings of a list of (action, key strings) entries, bound in order.
pub open spec fn bind_list(v: Seq<(ComboModel, Action)>, list: Seq<(Action, Seq<Seq<char>>)>) -> Seq<
    (ComboModel, Action),
>
    decreases list.len(),
{
    if list.len() == 0 {
        v
    } else {
        let w = bind_list(v, list.drop_last());
        bind_keys(w, list.last().1, list.last().0)
    }
}

/// The default bindings.
pub open spec fn default_bindings() -> Seq<(ComboModel, Action)> {
    bind_list(seq![], default_binding_list())
}

/// Overlays user configuration, entry by entry: an entry naming a known action
/// replaces all bindings of that action with its own keys; unknown names are ignored.
pub open spec fn overlay_user(v: Seq<(ComboModel, Action)>, user: Seq<(Seq<char>, Seq<Seq<char>>)>) -> Seq<
    (ComboModel, Action),
>
    decreases user.len(),
{
    if user.len() == 0 {
        v
    } else {
        let w = overlay_user(v, user.drop_last());
        match action_named(user.last().0) {
            Some(a) => bind_keys(unbind_action(w, a), user.last().1, a),
            None => w,
        }
    }
}

/// Applies a clicker profile (key string -> action name), entry by entry: a known
/// action with a parseable key is bound; other entries are skipped.
pub open spec fn overlay_clicker(v: Seq<(ComboModel, Action)>, profile: Seq<(Seq<char>, Seq<char>)>) -> Seq<
    (ComboModel, Action),
>
    decreases profile.len(),
{
    if profile.len() == 0 {
        v
    } else {
        let w = overlay_clicker(v, profile.drop_last());
        match action_named(profile.last().1) {
            Some(a) => match parse_combo(profile.last().0) {
                Some(c) => bind(w, c, a),
                None => w,
            },
            None => w,
        }
    }
}

/// No key combination is bound twice.
pub open spec fn unique_combos(v: Seq<(ComboModel, Action)>) -> bool {
    forall|i: int, j: int|
        0 <= i < v.len() && 0 <= j < v.len() && i != j ==> (#[trigger] v[i]).0 != (#[trigger] v[j]).0
}

/// The action bound to `k`, if any.
pub open spec fn lookup_binding(v: Seq<(ComboModel, Action)>, k: ComboModel) -> Option<Action> {
    match find_binding(v, k) {
        Some(i) => Some(v[i].1),
        None => None,
    }
}

/// The display names of the combos bound to `a`, in binding order.
pub open spec fn display_names_for(v: Seq<(ComboModel, Action)>, a: Action) -> Seq<Seq<char>> {
    displays(v.filter(bound_to(a)))
}

/// Maps key combinations to actions.
pub struct KeybindingMap {
    bindings: Vec<(KeyCombo, Action)>,
}

/// The model of a list of bindings.
pub open spec fn bindings_model(v: Seq<(KeyCombo, Action)>) -> Seq<(ComboModel, Action)> {
    v.map_values(|e: (KeyCombo, Action)| (combo_model(e.0), e.1))
}

pub proof fn lemma_find_binding(v: Seq<(ComboModel, Action)>, k: ComboModel)
    ensures
        find_binding(v, k) matches Some(i) ==> 0 <= i < v.len() && v[i].0 == k && forall|j: int|
            0 <= j < i ==> v[j].0 != k,
        find_binding(v, k) is None ==> forall|j: int| 0 <= j < v.len() ==> v[j].0 != k,
    decreases v.len(),
{
    if v.len() > 0 && v[0].0 != k {
        lemma_find_binding(v.drop_first(), k);
        assert forall|j: int| 0 < j < v.len() implies v[j] == v.drop_first()[j - 1] by {}
    }
}

proof fn lemma_find_binding_at(v: Seq<(ComboModel, Action)>, k: ComboModel, i: int)
    requires
        0 <= i <= v.len(),
        forall|j: int| 0 <= j < i ==> v[j].0 != k,
    ensures
        i < v.len() && v[i].0 == k ==> find_binding(v, k) == Some(i),
        i == v.len() ==> find_binding(v, k) is None,
    decreases i,
{
    if i > 0 {
        assert forall|j: int| 0 <= j < i - 1 implies v.drop_first()[j].0 != k by {
            assert(v.drop_first()[j] == v[j + 1]);
        }
        if i < v.len() {
            assert(v.drop_first()[i - 1] == v[i]);
        }
        lemma_find_binding_at(v.drop_first(), k, i - 1);
    }
}

proof fn lemma_bind_unique(v: Seq<(ComboModel, Action)>, k: ComboModel, a: Action)
    requires
        unique_combos(v),
    ensures
        unique_combos(bind(v, k, a)),
{
    lemma_find_binding(v, k);
    let w = bind(v, k, a);
    match find_binding(v, k) {
        Some(i) => {
            assert forall|x: int, y: int|
                0 <= x < w.len() && 0 <= y < w.len() && x != y implies (#[trigger] w[x]).0 != (
            #[trigger] w[y]).0 by {
                if x != i && y != i {
                    assert(w[x] == v[x] && w[y] == v[y]);
                } else if x == i {
                    assert(w[y] == v[y]);
                    assert(v[y].0 != v[i].0);
                } else {
                    assert(w[x] == v[x]);
                    assert(v[x].0 != v[i].0);
                }
            }
        },
        None => {
            assert forall|x: int, y: int|
                0 <= x < w.len() && 0 <= y < w.len() && x != y implies (#[trigger] w[x]).0 != (
            #[trigger] w[y]).0 by {
                if x < v.len() && y < v.len() {
                    assert(w[x] == v[x] && w[y] == v[y]);
                } else if x < v.len() {
                    assert(w[x] == v[x]);
                } else {
                    assert(w[y] == v[y]);
                }
            }
        },
    }
}

proof fn lemma_bind_keys_unique(v: Seq<(ComboModel, Action)>, keys: Seq<Seq<char>>, a: Action)
    requires
        unique_combos(v),
    ensures
        unique_combos(bind_keys(v, keys, a)),
    decreases keys.len(),
{
    if keys.len() > 0 {
        lemma_bind_keys_unique(v, keys.drop_last(), a);
        if let Some(c) = parse_combo(keys.last()) {
            lemma_bind_unique(bind_keys(v, keys.drop_last(), a), c, a);
        }
    }
}

proof fn lemma_unbind_unique(v: Seq<(ComboModel, Action)>, a: Action)
    requires
        unique_combos(v),
    ensures
        unique_combos(unbind_action(v, a)),
    decreases v.len(),
{
    let f = not_bound_to(a);
    if v.len() > 0 {
        let d = v.drop_last();
        assert(unique_combos(d)) by {
            assert forall|x: int, y: int|
                0 <= x < d.len() && 0 <= y < d.len() && x != y implies (#[trigger] d[x]).0 != (
            #[trigger] d[y]).0 by {
                assert(d[x] == v[x] && d[y] == v[y]);
            }
        }
        lemma_unbind_unique(d, a);
        let w = unbind_action(d, a);
        assert(unbind_action(v, a) == (if f(v.last()) {
            w.push(v.last())
        } else {
            w
        })) by {
            reveal(Seq::filter);
        }
        if f(v.last()) {
            let u = w.push(v.last());
            assert forall|x: int| 0 <= x < w.len() implies (#[trigger] w[x]).0 != v.last().0 by {
                assert(w.contains(w[x]));
                d.lemma_filter_contains_rev(f, w[x]);
                let j = choose|j: int| 0 <= j < d.len() && d[j] == w[x];
                assert(v[j] == w[x]);
            }
            assert forall|x: int, y: int|
                0 <= x < u.len() && 0 <= y < u.len() && x != y implies (#[trigger] u[x]).0 != (
            #[trigger] u[y]).0 by {
                if x < w.len() && y < w.len() {
                    assert(u[x] == w[x] && u[y] == w[y]);
                } else if x < w.len() {
                    assert(u[x] == w[x]);
                } else {
                    assert(u[y] == w[y]);
                }
            }
        }
    }
}

impl KeybindingMap {
    /// The bindings, in the order they were made.
    pub closed spec fn view(&self) -> Seq<(ComboModel, Action)> {
        bindings_model(self.bindings@)
    }

    /// No key combination is bound twice.
    pub open spec fn wf(&self) -> bool {
        unique_combos(self.view())
    }

    fn find(&self, k: &KeyCombo) -> (r: Option<usize>)
        ensures
            match r {
                Some(i) => find_binding(self.view(), combo_model(*k)) == Some(i as int),
                None => find_binding(self.view(), combo_model(*k)) is None,
            },
    {
        let mut i: usize = 0;
        while i < self.bindings.len()
            invariant
                i <= self.bindings@.len(),
                forall|j: int| 0 <= j < i ==> (#[trigger] self.view()[j]).0 != combo_model(*k),
            decreases self.bindings@.len() - i,
        {
            let b = &self.bindings[i].0;
            if b.shift == k.shift && b.ctrl == k.ctrl && b.alt == k.alt && b.key == k.key {
                assert(self.view()[i as int].0 == combo_model(*k));
                proof {
                    lemma_find_binding_at(self.view(), combo_model(*k), i as int);
                }
                return Some(i);
            }
            assert(self.view()[i as int].0 != combo_model(*k));
            i += 1;
        }
        proof {
            lemma_find_binding_at(self.view(), combo_model(*k), i as int);
        }
        None
    }

    /// Binds `combo` to `action`, replacing any binding of `combo`.
    fn insert(&mut self, combo: KeyCombo, action: Action)
        requires
            old(self).wf(),
        ensures
            final(self).wf(),
            final(self).view() == bind(old(self).view(), combo_model(combo), action),
    {
        let ghost k = combo_model(combo);
        proof {
            lemma_bind_unique(self.view(), k, action);
            lemma_find_binding(self.view(), k);
        }
        match self.find(&combo) {
            Some(i) => {
                self.bindings.set(i, (combo, action));
                assert(self.view() =~= bind(old(self).view(), k, action));
            },
            None => {
                self.bindings.push((combo, action));
                assert(self.view() =~= bind(old(self).view(), k, action));
            },
        }
    }

    /// Removes every binding of `action`.
    fn remove_action(&mut self, action: Action)
        requires
            old(self).wf(),
        ensures
            final(self).wf(),
            final(self).view() == unbind_action(old(self).view(), action),
    {
        let ghost f = not_bound_to(action);
        let mut kept: Vec<(KeyCombo, Action)> = Vec::new();
        let mut old_bindings: Vec<(KeyCombo, Action)> = Vec::new();
        std::mem::swap(&mut old_bindings, &mut self.bindings);
        let ghost ov = bindings_model(old_bindings@);
        assert(ov == old(self).view());
        let mut i: usize = 0;
        while i < old_bindings.len()
            invariant
                i <= old_bindings@.len(),
                ov == bindings_model(old_bindings@),
                f == not_bound_to(action),
                bindings_model(kept@) == ov.take(i as int).filter(f),
            decreases old_bindings@.len() - i,
        {
            proof {
                lemma_filter_step(ov, f, i as int);
            }
            if old_bindings[i].1 != action {
                let b = &old_bindings[i];
                let c = KeyCombo {
                    key: b.0.key.clone(),
                    shift: b.0.shift,
                    ctrl: b.0.ctrl,
                    alt: b.0.alt,
                };
                kept.push((c, b.1));
                assert(bindings_model(kept@) =~= ov.take(i + 1).filter(f));
            }
            i += 1;
        }
        assert(ov.take(old_bindings@.len() as int) =~= ov);
        self.bindings = kept;
        proof {
            lemma_unbind_unique(ov, action);
        }
    }

    /// Binds each parseable key string to `action`, in order.
    fn bind_key_strings(&mut self, keys: &Vec<String>, action: Action)
        requires
            old(self).wf(),
        ensures
            final(self).wf(),
            final(self).view() == bind_keys(old(self).view(), string_views(keys@), action),
    {
        let ghost kv = string_views(keys@);
        let mut i: usize = 0;
        while i < keys.len()
            invariant
                i <= keys@.len(),
                kv == string_views(keys@),
                self.wf(),
                self.view() == bind_keys(old(self).view(), kv.take(i as int), action),
            decreases keys@.len() - i,
        {
            assert(kv.take(i + 1).drop_last() =~= kv.take(i as int));
            assert(kv.take(i + 1).last() == keys@[i as int]@);
            if let Some(combo) = KeyCombo::parse(keys[i].as_str()) {
                self.insert(combo, action);
            }
            i += 1;
        }
        assert(kv.take(keys@.len() as int) =~= kv);
    }

    /// The default bindings.
    pub fn defaults() -> (m: Self)
        ensures
            m.wf(),
            m.view() == default_bindings(),
    {
        let mut m = KeybindingMap { bindings: Vec::new() };
        assert(m.view() =~= seq![]);
        let list = default_keybindings();
        let ghost lv = default_binding_list();
        let mut i: usize = 0;
        while i < list.len()
            invariant
                i <= list@.len(),
                list@.len() == lv.len(),
                lv == default_binding_list(),
                forall|j: int|
                    0 <= j < list@.len() ==> (#[trigger] list@[j]).0 == lv[j].0 && string_views(
                        list@[j].1@,
                    ) == lv[j].1,
                m.wf(),
                m.view() == bind_list(seq![], lv.take(i as int)),
            decreases list@.len() - i,
        {
            assert(lv.take(i + 1).drop_last() =~= lv.take(i as int));
            let entry = &list[i];
            m.bind_key_strings(&entry.1, entry.0);
            i += 1;
        }
        assert(lv.take(list@.len() as int) =~= lv);
        m
    }

    /// Build a keybinding map from user config overlaid on defaults.
    ///
    /// The user entries are applied in order; an entry for a known action replaces
    /// all defaults for that action.
    pub fn from_config(user_bindings: &Vec<(String, Vec<String>)>) -> (m: Self)
        ensures
            m.wf(),
            m.view() == overlay_user(
                default_bindings(),
                user_bindings@.map_values(|e: (String, Vec<String>)| (e.0@, string_views(e.1@))),
            ),
    {
        let mut m = Self::defaults();
        let ghost uv = user_bindings@.map_values(
            |e: (String, Vec<String>)| (e.0@, string_views(e.1@)),
        );
        let mut i: usize = 0;
        while i < user_bindings.len()
            invariant
                i <= user_bindings@.len(),
                uv == user_bindings@.map_values(
                    |e: (String, Vec<String>)| (e.0@, string_views(e.1@)),
                ),
                m.wf(),
                m.view() == overlay_user(default_bindings(), uv.take(i as int)),
            decreases user_bindings@.len() - i,
        {
            assert(uv.take(i + 1).drop_last() =~= uv.take(i as int));
            let entry = &user_bindings[i];
            if let Some(action) = Action::from_config_name(entry.0.as_str()) {
                // Remove all existing bindings for this action, then add the user's.
                m.remove_action(action);
                m.bind_key_strings(&entry.1, action);
            }
            i += 1;
        }
        assert(uv.take(user_bindings@.len() as int) =~= uv);
        m
    }

    /// Overlay a clicker profile (key string -> action name) on the bindings.
    pub fn apply_clicker_profile(&mut self, clicker_bindings: &Vec<(String, String)>)
        requires
            old(self).wf(),
        ensures
            final(self).wf(),
            final(self).view() == overlay_clicker(
                old(self).view(),
                clicker_bindings@.map_values(|e: (String, String)| (e.0@, e.1@)),
            ),
    {
        let ghost pv = clicker_bindings@.map_values(|e: (String, String)| (e.0@, e.1@));
        let mut i: usize = 0;
        while i < clicker_bindings.len()
            invariant
                i <= clicker_bindings@.len(),
                pv == clicker_bindings@.map_values(|e: (String, String)| (e.0@, e.1@)),
                self.wf(),
                self.view() == overlay_clicker(old(self).view(), pv.take(i as int)),
            decreases clicker_bindings@.len() - i,
        {
            assert(pv.take(i + 1).drop_last() =~= pv.take(i as int));
            let entry = &clicker_bindings[i];
            if let Some(action) = Action::from_config_name(entry.1.as_str()) {
                if let Some(combo) = KeyCombo::parse(entry.0.as_str()) {
                    self.insert(combo, action);
                }
            }
            i += 1;
        }
        assert(pv.take(clicker_bindings@.len() as int) =~= pv);
    }

    /// Look up the action bound to a key combination.
    pub fn lookup(&self, combo: &KeyCombo) -> (r: Option<Action>)
        ensures
            r == lookup_binding(self.view(), combo_model(*combo)),
    {
        proof {
            lemma_find_binding(self.view(), combo_model(*combo));
        }
        match self.find(combo) {
            Some(i) => Some(self.bindings[i].1),
            None => None,
        }
    }

    /// Return the active bindings grouped by action with human-readable key names.
    ///
    /// Each action appears in `Action::all()` order. The associated `Vec` contains
    /// the display strings for every key combo currently mapped to that action, sorted.
    pub fn action_bindings(&self) -> (r: Vec<(Action, Vec<String>)>)
        ensures
            r@.len() == all_actions().len(),
            forall|i: int|
                0 <= i < r@.len() ==> (#[trigger] r@[i]).0 == all_actions()[i] && string_views(
                    r@[i].1@,
                ) == display_names_for(self.view(), all_actions()[i]).sort_by(lex_leq()),
    {
        let actions = Action::all();
        let mut r: Vec<(Action, Vec<String>)> = Vec::new();
        let mut a: usize = 0;
        while a < actions.len()
            invariant
                a <= actions@.len(),
                actions@ == all_actions(),
                r@.len() == a,
                forall|i: int|
                    0 <= i < a ==> (#[trigger] r@[i]).0 == all_actions()[i] && string_views(
                        r@[i].1@,
                    ) == display_names_for(self.view(), all_actions()[i]).sort_by(lex_leq()),
            decreases actions@.len() - a,
        {
            let action = actions[a];
            let ghost f = bound_to(action);
            let ghost v = self.view();
            let mut names: Vec<Vec<char>> = Vec::new();
            let mut i: usize = 0;
            while i < self.bindings.len()
                invariant
                    i <= self.bindings@.len(),
                    v == self.view(),
                    f == bound_to(action),
                    buffer_views(names@) == displays(v.take(i as int).filter(f)),
                decreases self.bindings@.len() - i,
            {
                proof {
                    lemma_filter_step(v, f, i as int);
                }
                assert(v[i as int] == (
                    combo_model(self.bindings@[i as int].0),
                    self.bindings@[i as int].1,
                ));
                if self.bindings[i].1 == action {
                    let d = self.bindings[i].0.display_chars();
                    let ghost before = names@;
                    names.push(d);
                    assert(names@ == before.push(d));
                    assert(f(v[i as int]));
                    assert(d@ == combo_display(v[i as int].0));
                    assert(buffer_views(names@) =~= displays(v.take(i + 1).filter(f))) by {
                        broadcast use Seq::lemma_push_map_commute;

                    }
                }
                i += 1;
            }
            assert(v.take(self.bindings@.len() as int) =~= v);
            let sorted = sort_buffers(names);
            let mut keys: Vec<String> = Vec::new();
            let mut j: usize = 0;
            while j < sorted.len()
                invariant
                    j <= sorted@.len(),
                    string_views(keys@) == buffer_views(sorted@).take(j as int),
                decreases sorted@.len() - j,
            {
                let s = string_of(&sorted[j]);
                assert(s@ == buffer_views(sorted@)[j as int]);
                let ghost before = keys@;
                keys.push(s);
                assert(keys@ == before.push(s));
                assert(string_views(keys@) =~= buffer_views(sorted@).take(j + 1)) by {
                    broadcast use Seq::lemma_push_map_commute;

                }
                j += 1;
            }
            assert(buffer_views(sorted@).take(sorted@.len() as int) =~= buffer_views(sorted@));
            r.push((action, keys));
            a += 1;
        }
        r
    }
}

// ---------------------------------------------------------------------------
// Laws
// ---------------------------------------------------------------------------

/// A combination just bound is found again, bound to the new action.
pub proof fn law_lookup_after_bind(v: Seq<(ComboModel, Action)>, k: ComboModel, a: Action)
    requires
        unique_combos(v),
    ensures
        lookup_binding(bind(v, k, a), k) == Some(a),
{
    lemma_find_binding(v, k);
    let w = bind(v, k, a);
    match find_binding(v, k) {
        Some(i) => {
            assert forall|j: int| 0 <= j < i implies w[j].0 != k by {
                assert(w[j] == v[j]);
            }
            lemma_find_binding_at(w, k, i);
        },
        None => {
            assert forall|j: int| 0 <= j < v.len() implies w[j].0 != k by {
                assert(w[j] == v[j]);
            }
            lemma_find_binding_at(w, k, v.len() as int);
        },
    }
}

/// Binding one combination leaves the others as they were.
pub proof fn law_bind_keeps_other_combos(
    v: Seq<(ComboModel, Action)>,
    k: ComboModel,
    a: Action,
    other: ComboModel,
)
    requires
        unique_combos(v),
        other != k,
    ensures
        lookup_binding(bind(v, k, a), other) == lookup_binding(v, other),
{
    lemma_find_binding(v, k);
    lemma_find_binding(v, other);
    let w = bind(v, k, a);
    match find_binding(v, other) {
        Some(i) => {
            assert forall|j: int| 0 <= j < i implies w[j].0 != other by {
                if w[j] != v[j] {
                    assert(w[j].0 == k);
                }
            }
            assert(w[i] == v[i]);
            lemma_find_binding_at(w, other, i);
        },
        None => {
            assert forall|j: int| 0 <= j < w.len() implies w[j].0 != other by {
                if j < v.len() && w[j] == v[j] {
                } else {
                    assert(w[j].0 == k);
                }
            }
            lemma_find_binding_at(w, other, w.len() as int);
        },
    }
}

proof fn lemma_bind_keys_only_parsed(v: Seq<(ComboModel, Action)>, keys: Seq<Seq<char>>, a: Action)
    requires
        forall|i: int| 0 <= i < v.len() ==> (#[trigger] v[i]).1 != a,
    ensures
        forall|i: int|
            0 <= i < bind_keys(v, keys, a).len() && (#[trigger] bind_keys(v, keys, a)[i]).1 == a
                ==> exists|j: int|
                0 <= j < keys.len() && parse_combo(#[trigger] keys[j]) == Some(
                    bind_keys(v, keys, a)[i].0,
                ),
    decreases keys.len(),
{
    if keys.len() > 0 {
        let w = bind_keys(v, keys.drop_last(), a);
        lemma_bind_keys_only_parsed(v, keys.drop_last(), a);
        let u = bind_keys(v, keys, a);
        assert forall|i: int| 0 <= i < u.len() && (#[trigger] u[i]).1 == a implies exists|j: int|
            0 <= j < keys.len() && parse_combo(#[trigger] keys[j]) == Some(u[i].0) by {
            match parse_combo(keys.last()) {
                Some(c) => {
                    lemma_find_binding(w, c);
                    if u[i].0 == c {
                        assert(parse_combo(keys[keys.len() - 1]) == Some(u[i].0));
                    } else {
                        assert(i < w.len() && u[i] == w[i]);
                        let j = choose|j: int|
                            0 <= j < keys.drop_last().len() && parse_combo(
                                #[trigger] keys.drop_last()[j],
                            ) == Some(w[i].0);
                        assert(keys[j] == keys.drop_last()[j]);
                    }
                },
                None => {
                    let j = choose|j: int|
                        0 <= j < keys.drop_last().len() && parse_combo(
                            #[trigger] keys.drop_last()[j],
                        ) == Some(w[i].0);
                    assert(keys[j] == keys.drop_last()[j]);
                },
            }
        }
    }
}

/// A user entry for an action replaces its bindings: afterwards every
/// combination bound to the action is one of the entry's own key strings.
pub proof fn law_user_keys_replace_defaults(
    v: Seq<(ComboModel, Action)>,
    a: Action,
    keys: Seq<Seq<char>>,
)
    ensures
        ({
            let w = bind_keys(unbind_action(v, a), keys, a);
            forall|i: int|
                0 <= i < w.len() && (#[trigger] w[i]).1 == a ==> exists|j: int|
                    0 <= j < keys.len() && parse_combo(#[trigger] keys[j]) == Some(w[i].0)
        }),
{
    let u = unbind_action(v, a);
    assert forall|i: int| 0 <= i < u.len() implies (#[trigger] u[i]).1 != a by {
        v.lemma_filter_pred(not_bound_to(a), i);
    }
    lemma_bind_keys_only_parsed(u, keys, a);
}


/// Every action is found again by its config-file name, and distinct actions
/// have distinct names.
pub proof fn law_action_names_round_trip(a: Action)
    ensures
        action_named(action_name(a)) == Some(a),
{
    match a {
        Action::NextSlide => {
            reveal_strlit("next_slide");
        },
        Action::PreviousSlide => {
            reveal_strlit("previous_slide");
            reveal_strlit("next_slide");
            assert("previous_slide"@.len() != "next_slide"@.len());
        },
        Action::NextOverlay => {
            reveal_strlit("next_overlay");
            reveal_strlit("next_slide");
            assert("next_overlay"@.len() != "next_slide"@.len());
            reveal_strlit("previous_slide");
            assert("next_overlay"@.len() != "previous_slide"@.len());
        },
        Action::PreviousOverlay => {
            reveal_strlit("previous_overlay");
            reveal_strlit("next_slide");
            assert("previous_overlay"@.len() != "next_slide"@.len());
            reveal_strlit("previous_slide");
            assert("previous_overlay"@.len() != "previous_slide"@.len());
            reveal_strlit("next_overlay");
            assert("previous_overlay"@.len() != "next_overlay"@.len());
        },
        Action::FirstSlide => {
            reveal_strlit("first_slide");
            reveal_strlit("next_slide");
            assert("first_slide"@.len() != "next_slide"@.len());
            reveal_strlit("previous_slide");
            assert("first_slide"@.len() != "previous_slide"@.len());
            reveal_strlit("next_overlay");
            assert("first_slide"@.len() != "next_overlay"@.len());
            reveal_strlit("previous_overlay");
            assert("first_slide"@.len() != "previous_overlay"@.len());
        },
        Action::LastSlide => {
            reveal_strlit("last_slide");
            reveal_strlit("next_slide");
            assert("last_slide"@[0] != "next_slide"@[0]);
            reveal_strlit("previous_slide");
            assert("last_slide"@.len() != "previous_slide"@.len());
            reveal_strlit("next_overlay");
            assert("last_slide"@.len() != "next_overlay"@.len());
            reveal_strlit("previous_overlay");
            assert("last_slide"@.len() != "previous_overlay"@.len());
            reveal_strlit("first_slide");
            assert("last_slide"@.len() != "first_slide"@.len());
        },
        Action::GoToSlide => {
            reveal_strlit("go_to_slide");
            reveal_strlit("next_slide");
            assert("go_to_slide"@.len() != "next_slide"@.len());
            reveal_strlit("previous_slide");
            assert("go_to_slide"@.len() != "previous_slide"@.len());
            reveal_strlit("next_overlay");
            assert("go_to_slide"@.len() != "next_overlay"@.len());
            reveal_strlit("previous_overlay");
            assert("go_to_slide"@.len() != "previous_overlay"@.len());
            reveal_strlit("first_slide");
            assert("go_to_slide"@[0] != "first_slide"@[0]);
            reveal_strlit("last_slide");
            assert("go_to_slide"@.len() != "last_slide"@.len());
        },
        Action::ToggleFreeze => {
            reveal_strlit("toggle_freeze");
            reveal_strlit("next_slide");
            assert("toggle_freeze"@.len() != "next_slide"@.len());
            reveal_strlit("previous_slide");
            assert("toggle_freeze"@.len() != "previous_slide"@.len());
            reveal_strlit("next_overlay");
            assert("toggle_freeze"@.len() != "next_overlay"@.len());
            reveal_strlit("previous_overlay");
            assert("toggle_freeze"@.len() != "previous_overlay"@.len());
            reveal_strlit("first_slide");
            assert("toggle_freeze"@.len() != "first_slide"@.len());
            reveal_strlit("last_slide");
            assert("toggle_freeze"@.len() != "last_slide"@.len());
            reveal_strlit("go_to_slide");
            assert("toggle_freeze"@.len() != "go_to_slide"@.len());
        },
        Action::ToggleBlackout => {
            reveal_strlit("toggle_blackout");
            reveal_strlit("next_slide");
            assert("toggle_blackout"@.len() != "next_slide"@.len());
            reveal_strlit("previous_slide");
            assert("toggle_blackout"@.len() != "previous_slide"@.len());
            reveal_strlit("next_overlay");
            assert("toggle_blackout"@.len() != "next_overlay"@.len());
            reveal_strlit("previous_overlay");
            assert("toggle_blackout"@.len() != "previous_overlay"@.len());
            reveal_strlit("first_slide");
            assert("toggle_blackout"@.len() != "first_slide"@.len());
            reveal_strlit("last_slide");
            assert("toggle_blackout"@.len() != "last_slide"@.len());
            reveal_strlit("go_to_slide");
            assert("toggle_blackout"@.len() != "go_to_slide"@.len());
            reveal_strlit("toggle_freeze");
            assert("toggle_blackout"@.len() != "toggle_freeze"@.len());
        },
        Action::ToggleWhiteboard => {
            reveal_strlit("toggle_whiteboard");
            reveal_strlit("next_slide");
            assert("toggle_whiteboard"@.len() != "next_slide"@.len());
            reveal_strlit("previous_slide");
            assert("toggle_whiteboard"@.len() != "previous_slide"@.len());
            reveal_strlit("next_overlay");
            assert("toggle_whiteboard"@.len() != "next_overlay"@.len());
            reveal_strlit("previous_overlay");
            assert("toggle_whiteboard"@.len() != "previous_overlay"@.len());
            reveal_strlit("first_slide");
            assert("toggle_whiteboard"@.len() != "first_slide"@.len());
            reveal_strlit("last_slide");
            assert("toggle_whiteboard"@.len() != "last_slide"@.len());
            reveal_strlit("go_to_slide");
            assert("toggle_whiteboard"@.len() != "go_to_slide"@.len());
            reveal_strlit("toggle_freeze");
            assert("toggle_whiteboard"@.len() != "toggle_freeze"@.len());
            reveal_strlit("toggle_blackout");
            assert("toggle_whiteboard"@.len() != "toggle_blackout"@.len());
        },
        Action::ToggleLaser => {
            reveal_strlit("toggle_laser");
            reveal_strlit("next_slide");
            assert("toggle_laser"@.len() != "next_slide"@.len());
            reveal_strlit("previous_slide");
            assert("toggle_laser"@.len() != "previous_slide"@.len());
            reveal_strlit("next_overlay");
            assert("toggle_laser"@[0] != "next_overlay"@[0]);
            reveal_strlit("previous_overlay");
            assert("toggle_laser"@.len() != "previous_overlay"@.len());
            reveal_strlit("first_slide");
            assert("toggle_laser"@.len() != "first_slide"@.len());
            reveal_strlit("last_slide");
            assert("toggle_laser"@.len() != "last_slide"@.len());
            reveal_strlit("go_to_slide");
            assert("toggle_laser"@.len() != "go_to_slide"@.len());
            reveal_strlit("toggle_freeze");
            assert("toggle_laser"@.len() != "toggle_freeze"@.len());
            reveal_strlit("toggle_blackout");
            assert("toggle_laser"@.len() != "toggle_blackout"@.len());
            reveal_strlit("toggle_whiteboard");
            assert("toggle_laser"@.len() != "toggle_whiteboard"@.len());
        },
        Action::CycleLaserStyle => {
            reveal_strlit("cycle_laser_style");
            reveal_strlit("next_slide");
            assert("cycle_laser_style"@.len() != "next_slide"@.len());
            reveal_strlit("previous_slide");
            assert("cycle_laser_style"@.len() != "previous_slide"@.len());
            reveal_strlit("next_overlay");
            assert("cycle_laser_style"@.len() != "next_overlay"@.len());
            reveal_strlit("previous_overlay");
            assert("cycle_laser_style"@.len() != "previous_overlay"@.len());
            reveal_strlit("first_slide");
            assert("cycle_laser_style"@.len() != "first_slide"@.len());
            reveal_strlit("last_slide");
            assert("cycle_laser_style"@.len() != "last_slide"@.len());
            reveal_strlit("go_to_slide");
            assert("cycle_laser_style"@.len() != "go_to_slide"@.len());
            reveal_strlit("toggle_freeze");
            assert("cycle_laser_style"@.len() != "toggle_freeze"@.len());
            reveal_strlit("toggle_blackout");
            assert("cycle_laser_style"@.len() != "toggle_blackout"@.len());
            reveal_strlit("toggle_whiteboard");
            assert("cycle_laser_style"@[0] != "toggle_whiteboard"@[0]);
            reveal_strlit("toggle_laser");
            assert("cycle_laser_style"@.len() != "toggle_laser"@.len());
        },
        Action::ToggleInk => {
            reveal_strlit("toggle_ink");
            reveal_strlit("next_slide");
            assert("toggle_ink"@[0] != "next_slide"@[0]);
            reveal_strlit("previous_slide");
            assert("toggle_ink"@.len() != "previous_slide"@.len());
            reveal_strlit("next_overlay");
            assert("toggle_ink"@.len() != "next_overlay"@.len());
            reveal_strlit("previous_overlay");
            assert("toggle_ink"@.len() != "previous_overlay"@.len());
            reveal_strlit("first_slide");
            assert("toggle_ink"@.len() != "first_slide"@.len());
            reveal_strlit("last_slide");
            assert("toggle_ink"@[0] != "last_slide"@[0]);
            reveal_strlit("go_to_slide");
            assert("toggle_ink"@.len() != "go_to_slide"@.len());
            reveal_strlit("toggle_freeze");
            assert("toggle_ink"@.len() != "toggle_freeze"@.len());
            reveal_strlit("toggle_blackout");
            assert("toggle_ink"@.len() != "toggle_blackout"@.len());
            reveal_strlit("toggle_whiteboard");
            assert("toggle_ink"@.len() != "toggle_whiteboard"@.len());
            reveal_strlit("toggle_laser");
            assert("toggle_ink"@.len() != "toggle_laser"@.len());
            reveal_strlit("cycle_laser_style");
            assert("toggle_ink"@.len() != "cycle_laser_style"@.len());
        },
        Action::ClearInk => {
            reveal_strlit("clear_ink");
            reveal_strlit("next_slide");
            assert("clear_ink"@.len() != "next_slide"@.len());
            reveal_strlit("previous_slide");
            assert("clear_ink"@.len() != "previous_slide"@.len());
            reveal_strlit("next_overlay");
            assert("clear_ink"@.len() != "next_overlay"@.len());
            reveal_strlit("previous_overlay");
            assert("clear_ink"@.len() != "previous_overlay"@.len());
            reveal_strlit("first_slide");
            assert("clear_ink"@.len() != "first_slide"@.len());
            reveal_strlit("last_slide");
            assert("clear_ink"@.len() != "last_slide"@.len());
            reveal_strlit("go_to_slide");
            assert("clear_ink"@.len() != "go_to_slide"@.len());
            reveal_strlit("toggle_freeze");
            assert("clear_ink"@.len() != "toggle_freeze"@.len());
            reveal_strlit("toggle_blackout");
            assert("clear_ink"@.len() != "toggle_blackout"@.len());
            reveal_strlit("toggle_whiteboard");
            assert("clear_ink"@.len() != "toggle_whiteboard"@.len());
            reveal_strlit("toggle_laser");
            assert("clear_ink"@.len() != "toggle_laser"@.len());
            reveal_strlit("cycle_laser_style");
            assert("clear_ink"@.len() != "cycle_laser_style"@.len());
            reveal_strlit("toggle_ink");
            assert("clear_ink"@.len() != "toggle_ink"@.len());
        },
        Action::CycleInkColor => {
            reveal_strlit("cycle_ink_color");
            reveal_strlit("next_slide");
            assert("cycle_ink_color"@.len() != "next_slide"@.len());
            reveal_strlit("previous_slide");
            assert("cycle_ink_color"@.len() != "previous_slide"@.len());
            reveal_strlit("next_overlay");
            assert("cycle_ink_color"@.len() != "next_overlay"@.len());
            reveal_strlit("previous_overlay");
            assert("cycle_ink_color"@.len() != "previous_overlay"@.len());
            reveal_strlit("first_slide");
            assert("cycle_ink_color"@.len() != "first_slide"@.len());
            reveal_strlit("last_slide");
            assert("cycle_ink_color"@.len() != "last_slide"@.len());
            reveal_strlit("go_to_slide");
            assert("cycle_ink_color"@.len() != "go_to_slide"@.len());
            reveal_strlit("toggle_freeze");
            assert("cycle_ink_color"@.len() != "toggle_freeze"@.len());
            reveal_strlit("toggle_blackout");
            assert("cycle_ink_color"@[0] != "toggle_blackout"@[0]);
            reveal_strlit("toggle_whiteboard");
            assert("cycle_ink_color"@.len() != "toggle_whiteboard"@.len());
            reveal_strlit("toggle_laser");
            assert("cycle_ink_color"@.len() != "toggle_laser"@.len());
            reveal_strlit("cycle_laser_style");
            assert("cycle_ink_color"@.len() != "cycle_laser_style"@.len());
            reveal_strlit("toggle_ink");
            assert("cycle_ink_color"@.len() != "toggle_ink"@.len());
            reveal_strlit("clear_ink");
            assert("cycle_ink_color"@.len() != "clear_ink"@.len());
        },
        Action::CycleInkWidth => {
            reveal_strlit("cycle_ink_width");
            reveal_strlit("next_slide");
            assert("cycle_ink_width"@.len() != "next_slide"@.len());
            reveal_strlit("previous_slide");
            assert("cycle_ink_width"@.len() != "previous_slide"@.len());
            reveal_strlit("next_overlay");
            assert("cycle_ink_width"@.len() != "next_overlay"@.len());
            reveal_strlit("previous_overlay");
            assert("cycle_ink_width"@.len() != "previous_overlay"@.len());
            reveal_strlit("first_slide");
            assert("cycle_ink_width"@.len() != "first_slide"@.len());
            reveal_strlit("last_slide");
            assert("cycle_ink_width"@.len() != "last_slide"@.len());
            reveal_strlit("go_to_slide");
            assert("cycle_ink_width"@.len() != "go_to_slide"@.len());
            reveal_strlit("toggle_freeze");
            assert("cycle_ink_width"@.len() != "toggle_freeze"@.len());
            reveal_strlit("toggle_blackout");
            assert("cycle_ink_width"@[0] != "toggle_blackout"@[0]);
            reveal_strlit("toggle_whiteboard");
            assert("cycle_ink_width"@.len() != "toggle_whiteboard"@.len());
            reveal_strlit("toggle_laser");
            assert("cycle_ink_width"@.len() != "toggle_laser"@.len());
            reveal_strlit("cycle_laser_style");
            assert("cycle_ink_width"@.len() != "cycle_laser_style"@.len());
            reveal_strlit("toggle_ink");
            assert("cycle_ink_width"@.len() != "toggle_ink"@.len());
            reveal_strlit("clear_ink");
            assert("cycle_ink_width"@.len() != "clear_ink"@.len());
            reveal_strlit("cycle_ink_color");
            assert("cycle_ink_width"@[10] != "cycle_ink_color"@[10]);
        },
        Action::ToggleSpotlight => {
            reveal_strlit("toggle_spotlight");
            reveal_strlit("next_slide");
            assert("toggle_spotlight"@.len() != "next_slide"@.len());
            reveal_strlit("previous_slide");
            assert("toggle_spotlight"@.len() != "previous_slide"@.len());
            reveal_strlit("next_overlay");
            assert("toggle_spotlight"@.len() != "next_overlay"@.len());
            reveal_strlit("previous_overlay");
            assert("toggle_spotlight"@[0] != "previous_overlay"@[0]);
            reveal_strlit("first_slide");
            assert("toggle_spotlight"@.len() != "first_slide"@.len());
            reveal_strlit("last_slide");
            assert("toggle_spotlight"@.len() != "last_slide"@.len());
            reveal_strlit("go_to_slide");
            assert("toggle_spotlight"@.len() != "go_to_slide"@.len());
            reveal_strlit("toggle_freeze");
            assert("toggle_spotlight"@.len() != "toggle_freeze"@.len());
            reveal_strlit("toggle_blackout");
            assert("toggle_spotlight"@.len() != "toggle_blackout"@.len());
            reveal_strlit("toggle_whiteboard");
            assert("toggle_spotlight"@.len() != "toggle_whiteboard"@.len());
            reveal_strlit("toggle_laser");
            assert("toggle_spotlight"@.len() != "toggle_laser"@.len());
            reveal_strlit("cycle_laser_style");
            assert("toggle_spotlight"@.len() != "cycle_laser_style"@.len());
            reveal_strlit("toggle_ink");
            assert("toggle_spotlight"@.len() != "toggle_ink"@.len());
            reveal_strlit("clear_ink");
            assert("toggle_spotlight"@.len() != "clear_ink"@.len());
            reveal_strlit("cycle_ink_color");
            assert("toggle_spotlight"@.len() != "cycle_ink_color"@.len());
            reveal_strlit("cycle_ink_width");
            assert("toggle_spotlight"@.len() != "cycle_ink_width"@.len());
        },
        Action::ToggleZoom => {
            reveal_strlit("toggle_zoom");
            reveal_strlit("next_slide");
            assert("toggle_zoom"@.len() != "next_slide"@.len());
            reveal_strlit("previous_slide");
            assert("toggle_zoom"@.len() != "previous_slide"@.len());
            reveal_strlit("next_overlay");
            assert("toggle_zoom"@.len() != "next_overlay"@.len());
            reveal_strlit("previous_overlay");
            assert("toggle_zoom"@.len() != "previous_overlay"@.len());
            reveal_strlit("first_slide");
            assert("toggle_zoom"@[0] != "first_slide"@[0]);
            reveal_strlit("last_slide");
            assert("toggle_zoom"@.len() != "last_slide"@.len());
            reveal_strlit("go_to_slide");
            assert("toggle_zoom"@[0] != "go_to_slide"@[0]);
            reveal_strlit("toggle_freeze");
            assert("toggle_zoom"@.len() != "toggle_freeze"@.len());
            reveal_strlit("toggle_blackout");
            assert("toggle_zoom"@.len() != "toggle_blackout"@.len());
            reveal_strlit("toggle_whiteboard");
            assert("toggle_zoom"@.len() != "toggle_whiteboard"@.len());
            reveal_strlit("toggle_laser");
            assert("toggle_zoom"@.len() != "toggle_laser"@.len());
            reveal_strlit("cycle_laser_style");
            assert("toggle_zoom"@.len() != "cycle_laser_style"@.len());
            reveal_strlit("toggle_ink");
            assert("toggle_zoom"@.len() != "toggle_ink"@.len());
            reveal_strlit("clear_ink");
            assert("toggle_zoom"@.len() != "clear_ink"@.len());
            reveal_strlit("cycle_ink_color");
            assert("toggle_zoom"@.len() != "cycle_ink_color"@.len());
            reveal_strlit("cycle_ink_width");
            assert("toggle_zoom"@.len() != "cycle_ink_width"@.len());
            reveal_strlit("toggle_spotlight");
            assert("toggle_zoom"@.len() != "toggle_spotlight"@.len());
        },
        Action::ToggleOverview => {
            reveal_strlit("toggle_overview");
            reveal_strlit("next_slide");
            assert("toggle_overview"@.len() != "next_slide"@.len());
            reveal_strlit("previous_slide");
            assert("toggle_overview"@.len() != "previous_slide"@.len());
            reveal_strlit("next_overlay");
            assert("toggle_overview"@.len() != "next_overlay"@.len());
            reveal_strlit("previous_overlay");
            assert("toggle_overview"@.len() != "previous_overlay"@.len());
            reveal_strlit("first_slide");
            assert("toggle_overview"@.len() != "first_slide"@.len());
            reveal_strlit("last_slide");
            assert("toggle_overview"@.len() != "last_slide"@.len());
            reveal_strlit("go_to_slide");
            assert("toggle_overview"@.len() != "go_to_slide"@.len());
            reveal_strlit("toggle_freeze");
            assert("toggle_overview"@.len() != "toggle_freeze"@.len());
            reveal_strlit("toggle_blackout");
            assert("toggle_overview"@[7] != "toggle_blackout"@[7]);
            reveal_strlit("toggle_whiteboard");
            assert("toggle_overview"@.len() != "toggle_whiteboard"@.len());
            reveal_strlit("toggle_laser");
            assert("toggle_overview"@.len() != "toggle_laser"@.len());
            reveal_strlit("cycle_laser_style");
            assert("toggle_overview"@.len() != "cycle_laser_style"@.len());
            reveal_strlit("toggle_ink");
            assert("toggle_overview"@.len() != "toggle_ink"@.len());
            reveal_strlit("clear_ink");
            assert("toggle_overview"@.len() != "clear_ink"@.len());
            reveal_strlit("cycle_ink_color");
            assert("toggle_overview"@[0] != "cycle_ink_color"@[0]);
            reveal_strlit("cycle_ink_width");
            assert("toggle_overview"@[0] != "cycle_ink_width"@[0]);
            reveal_strlit("toggle_spotlight");
            assert("toggle_overview"@.len() != "toggle_spotlight"@.len());
            reveal_strlit("toggle_zoom");
            assert("toggle_overview"@.len() != "toggle_zoom"@.len());
        },
        Action::ToggleNotes => {
            reveal_strlit("toggle_notes");
            reveal_strlit("next_slide");
            assert("toggle_notes"@.len() != "next_slide"@.len());
            reveal_strlit("previous_slide");
            assert("toggle_notes"@.len() != "previous_slide"@.len());
            reveal_strlit("next_overlay");
            assert("toggle_notes"@[0] != "next_overlay"@[0]);
            reveal_strlit("previous_overlay");
            assert("toggle_notes"@.len() != "previous_overlay"@.len());
            reveal_strlit("first_slide");
            assert("toggle_notes"@.len() != "first_slide"@.len());
            reveal_strlit("last_slide");
            assert("toggle_notes"@.len() != "last_slide"@.len());
            reveal_strlit("go_to_slide");
            assert("toggle_notes"@.len() != "go_to_slide"@.len());
            reveal_strlit("toggle_freeze");
            assert("toggle_notes"@.len() != "toggle_freeze"@.len());
            reveal_strlit("toggle_blackout");
            assert("toggle_notes"@.len() != "toggle_blackout"@.len());
            reveal_strlit("toggle_whiteboard");
            assert("toggle_notes"@.len() != "toggle_whiteboard"@.len());
            reveal_strlit("toggle_laser");
            assert("toggle_notes"@[7] != "toggle_laser"@[7]);
            reveal_strlit("cycle_laser_style");
            assert("toggle_notes"@.len() != "cycle_laser_style"@.len());
            reveal_strlit("toggle_ink");
            assert("toggle_notes"@.len() != "toggle_ink"@.len());
            reveal_strlit("clear_ink");
            assert("toggle_notes"@.len() != "clear_ink"@.len());
            reveal_strlit("cycle_ink_color");
            assert("toggle_notes"@.len() != "cycle_ink_color"@.len());
            reveal_strlit("cycle_ink_width");
            assert("toggle_notes"@.len() != "cycle_ink_width"@.len());
            reveal_strlit("toggle_spotlight");
            assert("toggle_notes"@.len() != "toggle_spotlight"@.len());
            reveal_strlit("toggle_zoom");
            assert("toggle_notes"@.len() != "toggle_zoom"@.len());
            reveal_strlit("toggle_overview");
            assert("toggle_notes"@.len() != "toggle_overview"@.len());
        },
        Action::ToggleNotesEdit => {
            reveal_strlit("toggle_notes_edit");
            reveal_strlit("next_slide");
            assert("toggle_notes_edit"@.len() != "next_slide"@.len());
            reveal_strlit("previous_slide");
            assert("toggle_notes_edit"@.len() != "previous_slide"@.len());
            reveal_strlit("next_overlay");
            assert("toggle_notes_edit"@.len() != "next_overlay"@.len());
            reveal_strlit("previous_overlay");
            assert("toggle_notes_edit"@.len() != "previous_overlay"@.len());
            reveal_strlit("first_slide");
            assert("toggle_notes_edit"@.len() != "first_slide"@.len());
            reveal_strlit("last_slide");
            assert("toggle_notes_edit"@.len() != "last_slide"@.len());
            reveal_strlit("go_to_slide");
            assert("toggle_notes_edit"@.len() != "go_to_slide"@.len());
            reveal_strlit("toggle_freeze");
            assert("toggle_notes_edit"@.len() != "toggle_freeze"@.len());
            reveal_strlit("toggle_blackout");
            assert("toggle_notes_edit"@.len() != "toggle_blackout"@.len());
            reveal_strlit("toggle_whiteboard");
            assert("toggle_notes_edit"@[7] != "toggle_whiteboard"@[7]);
            reveal_strlit("toggle_laser");
            assert("toggle_notes_edit"@.len() != "toggle_laser"@.len());
            reveal_strlit("cycle_laser_style");
            assert("toggle_notes_edit"@[0] != "cycle_laser_style"@[0]);
            reveal_strlit("toggle_ink");
            assert("toggle_notes_edit"@.len() != "toggle_ink"@.len());
            reveal_strlit("clear_ink");
            assert("toggle_notes_edit"@.len() != "clear_ink"@.len());
            reveal_strlit("cycle_ink_color");
            assert("toggle_notes_edit"@.len() != "cycle_ink_color"@.len());
            reveal_strlit("cycle_ink_width");
            assert("toggle_notes_edit"@.len() != "cycle_ink_width"@.len());
            reveal_strlit("toggle_spotlight");
            assert("toggle_notes_edit"@.len() != "toggle_spotlight"@.len());
            reveal_strlit("toggle_zoom");
            assert("toggle_notes_edit"@.len() != "toggle_zoom"@.len());
            reveal_strlit("toggle_overview");
            assert("toggle_notes_edit"@.len() != "toggle_overview"@.len());
            reveal_strlit("toggle_notes");
            assert("toggle_notes_edit"@.len() != "toggle_notes"@.len());
        },
        Action::StartPauseTimer => {
            reveal_strlit("start_pause_timer");
            reveal_strlit("next_slide");
            assert("start_pause_timer"@.len() != "next_slide"@.len());
            reveal_strlit("previous_slide");
            assert("start_pause_timer"@.len() != "previous_slide"@.len());
            reveal_strlit("next_overlay");
            assert("start_pause_timer"@.len() != "next_overlay"@.len());
            reveal_strlit("previous_overlay");
            assert("start_pause_timer"@.len() != "previous_overlay"@.len());
            reveal_strlit("first_slide");
            assert("start_pause_timer"@.len() != "first_slide"@.len());
            reveal_strlit("last_slide");
            assert("start_pause_timer"@.len() != "last_slide"@.len());
            reveal_strlit("go_to_slide");
            assert("start_pause_timer"@.len() != "go_to_slide"@.len());
            reveal_strlit("toggle_freeze");
            assert("start_pause_timer"@.len() != "toggle_freeze"@.len());
            reveal_strlit("toggle_blackout");
            assert("start_pause_timer"@.len() != "toggle_blackout"@.len());
            reveal_strlit("toggle_whiteboard");
            assert("start_pause_timer"@[0] != "toggle_whiteboard"@[0]);
            reveal_strlit("toggle_laser");
            assert("start_pause_timer"@.len() != "toggle_laser"@.len());
            reveal_strlit("cycle_laser_style");
            assert("start_pause_timer"@[0] != "cycle_laser_style"@[0]);
            reveal_strlit("toggle_ink");
            assert("start_pause_timer"@.len() != "toggle_ink"@.len());
            reveal_strlit("clear_ink");
            assert("start_pause_timer"@.len() != "clear_ink"@.len());
            reveal_strlit("cycle_ink_color");
            assert("start_pause_timer"@.len() != "cycle_ink_color"@.len());
            reveal_strlit("cycle_ink_width");
            assert("start_pause_timer"@.len() != "cycle_ink_width"@.len());
            reveal_strlit("toggle_spotlight");
            assert("start_pause_timer"@.len() != "toggle_spotlight"@.len());
            reveal_strlit("toggle_zoom");
            assert("start_pause_timer"@.len() != "toggle_zoom"@.len());
            reveal_strlit("toggle_overview");
            assert("start_pause_timer"@.len() != "toggle_overview"@.len());
            reveal_strlit("toggle_notes");
            assert("start_pause_timer"@.len() != "toggle_notes"@.len());
            reveal_strlit("toggle_notes_edit");
            assert("start_pause_timer"@[0] != "toggle_notes_edit"@[0]);
        },
        Action::ResetTimer => {
            reveal_strlit("reset_timer");
            reveal_strlit("next_slide");
            assert("reset_timer"@.len() != "next_slide"@.len());
            reveal_strlit("previous_slide");
            assert("reset_timer"@.len() != "previous_slide"@.len());
            reveal_strlit("next_overlay");
            assert("reset_timer"@.len() != "next_overlay"@.len());
            reveal_strlit("previous_overlay");
            assert("reset_timer"@.len() != "previous_overlay"@.len());
            reveal_strlit("first_slide");
            assert("reset_timer"@[0] != "first_slide"@[0]);
            reveal_strlit("last_slide");
            assert("reset_timer"@.len() != "last_slide"@.len());
            reveal_strlit("go_to_slide");
            assert("reset_timer"@[0] != "go_to_slide"@[0]);
            reveal_strlit("toggle_freeze");
            assert("reset_timer"@.len() != "toggle_freeze"@.len());
            reveal_strlit("toggle_blackout");
            assert("reset_timer"@.len() != "toggle_blackout"@.len());
            reveal_strlit("toggle_whiteboard");
            assert("reset_timer"@.len() != "toggle_whiteboard"@.len());
            reveal_strlit("toggle_laser");
            assert("reset_timer"@.len() != "toggle_laser"@.len());
            reveal_strlit("cycle_laser_style");
            assert("reset_timer"@.len() != "cycle_laser_style"@.len());
            reveal_strlit("toggle_ink");
            assert("reset_timer"@.len() != "toggle_ink"@.len());
            reveal_strlit("clear_ink");
            assert("reset_timer"@.len() != "clear_ink"@.len());
            reveal_strlit("cycle_ink_color");
            assert("reset_timer"@.len() != "cycle_ink_color"@.len());
            reveal_strlit("cycle_ink_width");
            assert("reset_timer"@.len() != "cycle_ink_width"@.len());
            reveal_strlit("toggle_spotlight");
            assert("reset_timer"@.len() != "toggle_spotlight"@.len());
            reveal_strlit("toggle_zoom");
            assert("reset_timer"@[0] != "toggle_zoom"@[0]);
            reveal_strlit("toggle_overview");
            assert("reset_timer"@.len() != "toggle_overview"@.len());
            reveal_strlit("toggle_notes");
            assert("reset_timer"@.len() != "toggle_notes"@.len());
            reveal_strlit("toggle_notes_edit");
            assert("reset_timer"@.len() != "toggle_notes_edit"@.len());
            reveal_strlit("start_pause_timer");
            assert("reset_timer"@.len() != "start_pause_timer"@.len());
        },
        Action::IncrementNotesFont => {
            reveal_strlit("increment_notes_font");
            reveal_strlit("next_slide");
            assert("increment_notes_font"@.len() != "next_slide"@.len());
            reveal_strlit("previous_slide");
            assert("increment_notes_font"@.len() != "previous_slide"@.len());
            reveal_strlit("next_overlay");
            assert("increment_notes_font"@.len() != "next_overlay"@.len());
            reveal_strlit("previous_overlay");
            assert("increment_notes_font"@.len() != "previous_overlay"@.len());
            reveal_strlit("first_slide");
            assert("increment_notes_font"@.len() != "first_slide"@.len());
            reveal_strlit("last_slide");
            assert("increment_notes_font"@.len() != "last_slide"@.len());
            reveal_strlit("go_to_slide");
            assert("increment_notes_font"@.len() != "go_to_slide"@.len());
            reveal_strlit("toggle_freeze");
            assert("increment_notes_font"@.len() != "toggle_freeze"@.len());
            reveal_strlit("toggle_blackout");
            assert("increment_notes_font"@.len() != "toggle_blackout"@.len());
            reveal_strlit("toggle_whiteboard");
            assert("increment_notes_font"@.len() != "toggle_whiteboard"@.len());
            reveal_strlit("toggle_laser");
            assert("increment_notes_font"@.len() != "toggle_laser"@.len());
            reveal_strlit("cycle_laser_style");
            assert("increment_notes_font"@.len() != "cycle_laser_style"@.len());
            reveal_strlit("toggle_ink");
            assert("increment_notes_font"@.len() != "toggle_ink"@.len());
            reveal_strlit("clear_ink");
            assert("increment_notes_font"@.len() != "clear_ink"@.len());
            reveal_strlit("cycle_ink_color");
            assert("increment_notes_font"@.len() != "cycle_ink_color"@.len());
            reveal_strlit("cycle_ink_width");
            assert("increment_notes_font"@.len() != "cycle_ink_width"@.len());
            reveal_strlit("toggle_spotlight");
            assert("increment_notes_font"@.len() != "toggle_spotlight"@.len());
            reveal_strlit("toggle_zoom");
            assert("increment_notes_font"@.len() != "toggle_zoom"@.len());
            reveal_strlit("toggle_overview");
            assert("increment_notes_font"@.len() != "toggle_overview"@.len());
            reveal_strlit("toggle_notes");
            assert("increment_notes_font"@.len() != "toggle_notes"@.len());
            reveal_strlit("toggle_notes_edit");
            assert("increment_notes_font"@.len() != "toggle_notes_edit"@.len());
            reveal_strlit("start_pause_timer");
            assert("increment_notes_font"@.len() != "start_pause_timer"@.len());
            reveal_strlit("reset_timer");
            assert("increment_notes_font"@.len() != "reset_timer"@.len());
        },
        Action::DecrementNotesFont => {
            reveal_strlit("decrement_notes_font");
            reveal_strlit("next_slide");
            assert("decrement_notes_font"@.len() != "next_slide"@.len());
            reveal_strlit("previous_slide");
            assert("decrement_notes_font"@.len() != "previous_slide"@.len());
            reveal_strlit("next_overlay");
            assert("decrement_notes_font"@.len() != "next_overlay"@.len());
            reveal_strlit("previous_overlay");
            assert("decrement_notes_font"@.len() != "previous_overlay"@.len());
            reveal_strlit("first_slide");
            assert("decrement_notes_font"@.len() != "first_slide"@.len());
            reveal_strlit("last_slide");
            assert("decrement_notes_font"@.len() != "last_slide"@.len());
            reveal_strlit("go_to_slide");
            assert("decrement_notes_font"@.len() != "go_to_slide"@.len());
            reveal_strlit("toggle_freeze");
            assert("decrement_notes_font"@.len() != "toggle_freeze"@.len());
            reveal_strlit("toggle_blackout");
            assert("decrement_notes_font"@.len() != "toggle_blackout"@.len());
            reveal_strlit("toggle_whiteboard");
            assert("decrement_notes_font"@.len() != "toggle_whiteboard"@.len());
            reveal_strlit("toggle_laser");
            assert("decrement_notes_font"@.len() != "toggle_laser"@.len());
            reveal_strlit("cycle_laser_style");
            assert("decrement_notes_font"@.len() != "cycle_laser_style"@.len());
            reveal_strlit("toggle_ink");
            assert("decrement_notes_font"@.len() != "toggle_ink"@.len());
            reveal_strlit("clear_ink");
            assert("decrement_notes_font"@.len() != "clear_ink"@.len());
            reveal_strlit("cycle_ink_color");
            assert("decrement_notes_font"@.len() != "cycle_ink_color"@.len());
            reveal_strlit("cycle_ink_width");
            assert("decrement_notes_font"@.len() != "cycle_ink_width"@.len());
            reveal_strlit("toggle_spotlight");
            assert("decrement_notes_font"@.len() != "toggle_spotlight"@.len());
            reveal_strlit("toggle_zoom");
            assert("decrement_notes_font"@.len() != "toggle_zoom"@.len());
            reveal_strlit("toggle_overview");
            assert("decrement_notes_font"@.len() != "toggle_overview"@.len());
            reveal_strlit("toggle_notes");
            assert("decrement_notes_font"@.len() != "toggle_notes"@.len());
            reveal_strlit("toggle_notes_edit");
            assert("decrement_notes_font"@.len() != "toggle_notes_edit"@.len());
            reveal_strlit("start_pause_timer");
            assert("decrement_notes_font"@.len() != "start_pause_timer"@.len());
            reveal_strlit("reset_timer");
            assert("decrement_notes_font"@.len() != "reset_timer"@.len());
            reveal_strlit("increment_notes_font");
            assert("decrement_notes_font"@[0] != "increment_notes_font"@[0]);
        },
        Action::ToggleScreenShare => {
            reveal_strlit("toggle_screen_share");
            reveal_strlit("next_slide");
            assert("toggle_screen_share"@.len() != "next_slide"@.len());
            reveal_strlit("previous_slide");
            assert("toggle_screen_share"@.len() != "previous_slide"@.len());
            reveal_strlit("next_overlay");
            assert("toggle_screen_share"@.len() != "next_overlay"@.len());
            reveal_strlit("previous_overlay");
            assert("toggle_screen_share"@.len() != "previous_overlay"@.len());
            reveal_strlit("first_slide");
            assert("toggle_screen_share"@.len() != "first_slide"@.len());
            reveal_strlit("last_slide");
            assert("toggle_screen_share"@.len() != "last_slide"@.len());
            reveal_strlit("go_to_slide");
            assert("toggle_screen_share"@.len() != "go_to_slide"@.len());
            reveal_strlit("toggle_freeze");
            assert("toggle_screen_share"@.len() != "toggle_freeze"@.len());
            reveal_strlit("toggle_blackout");
            assert("toggle_screen_share"@.len() != "toggle_blackout"@.len());
            reveal_strlit("toggle_whiteboard");
            assert("toggle_screen_share"@.len() != "toggle_whiteboard"@.len());
            reveal_strlit("toggle_laser");
            assert("toggle_screen_share"@.len() != "toggle_laser"@.len());
            reveal_strlit("cycle_laser_style");
            assert("toggle_screen_share"@.len() != "cycle_laser_style"@.len());
            reveal_strlit("toggle_ink");
            assert("toggle_screen_share"@.len() != "toggle_ink"@.len());
            reveal_strlit("clear_ink");
            assert("toggle_screen_share"@.len() != "clear_ink"@.len());
            reveal_strlit("cycle_ink_color");
            assert("toggle_screen_share"@.len() != "cycle_ink_color"@.len());
            reveal_strlit("cycle_ink_width");
            assert("toggle_screen_share"@.len() != "cycle_ink_width"@.len());
            reveal_strlit("toggle_spotlight");
            assert("toggle_screen_share"@.len() != "toggle_spotlight"@.len());
            reveal_strlit("toggle_zoom");
            assert("toggle_screen_share"@.len() != "toggle_zoom"@.len());
            reveal_strlit("toggle_overview");
            assert("toggle_screen_share"@.len() != "toggle_overview"@.len());
            reveal_strlit("toggle_notes");
            assert("toggle_screen_share"@.len() != "toggle_notes"@.len());
            reveal_strlit("toggle_notes_edit");
            assert("toggle_screen_share"@.len() != "toggle_notes_edit"@.len());
            reveal_strlit("start_pause_timer");
            assert("toggle_screen_share"@.len() != "start_pause_timer"@.len());
            reveal_strlit("reset_timer");
            assert("toggle_screen_share"@.len() != "reset_timer"@.len());
            reveal_strlit("increment_notes_font");
            assert("toggle_screen_share"@.len() != "increment_notes_font"@.len());
            reveal_strlit("decrement_notes_font");
            assert("toggle_screen_share"@.len() != "decrement_notes_font"@.len());
        },
        Action::TogglePresentationMode => {
            reveal_strlit("toggle_presentation_mode");
            reveal_strlit("next_slide");
            assert("toggle_presentation_mode"@.len() != "next_slide"@.len());
            reveal_strlit("previous_slide");
            assert("toggle_presentation_mode"@.len() != "previous_slide"@.len());
            reveal_strlit("next_overlay");
            assert("toggle_presentation_mode"@.len() != "next_overlay"@.len());
            reveal_strlit("previous_overlay");
            assert("toggle_presentation_mode"@.len() != "previous_overlay"@.len());
            reveal_strlit("first_slide");
            assert("toggle_presentation_mode"@.len() != "first_slide"@.len());
            reveal_strlit("last_slide");
            assert("toggle_presentation_mode"@.len() != "last_slide"@.len());
            reveal_strlit("go_to_slide");
            assert("toggle_presentation_mode"@.len() != "go_to_slide"@.len());
            reveal_strlit("toggle_freeze");
            assert("toggle_presentation_mode"@.len() != "toggle_freeze"@.len());
            reveal_strlit("toggle_blackout");
            assert("toggle_presentation_mode"@.len() != "toggle_blackout"@.len());
            reveal_strlit("toggle_whiteboard");
            assert("toggle_presentation_mode"@.len() != "toggle_whiteboard"@.len());
            reveal_strlit("toggle_laser");
            assert("toggle_presentation_mode"@.len() != "toggle_laser"@.len());
            reveal_strlit("cycle_laser_style");
            assert("toggle_presentation_mode"@.len() != "cycle_laser_style"@.len());
            reveal_strlit("toggle_ink");
            assert("toggle_presentation_mode"@.len() != "toggle_ink"@.len());
            reveal_strlit("clear_ink");
            assert("toggle_presentation_mode"@.len() != "clear_ink"@.len());
            reveal_strlit("cycle_ink_color");
            assert("toggle_presentation_mode"@.len() != "cycle_ink_color"@.len());
            reveal_strlit("cycle_ink_width");
            assert("toggle_presentation_mode"@.len() != "cycle_ink_width"@.len());
            reveal_strlit("toggle_spotlight");
            assert("toggle_presentation_mode"@.len() != "toggle_spotlight"@.len());
            reveal_strlit("toggle_zoom");
            assert("toggle_presentation_mode"@.len() != "toggle_zoom"@.len());
            reveal_strlit("toggle_overview");
            assert("toggle_presentation_mode"@.len() != "toggle_overview"@.len());
            reveal_strlit("toggle_notes");
            assert("toggle_presentation_mode"@.len() != "toggle_notes"@.len());
            reveal_strlit("toggle_notes_edit");
            assert("toggle_presentation_mode"@.len() != "toggle_notes_edit"@.len());
            reveal_strlit("start_pause_timer");
            assert("toggle_presentation_mode"@.len() != "start_pause_timer"@.len());
            reveal_strlit("reset_timer");
            assert("toggle_presentation_mode"@.len() != "reset_timer"@.len());
            reveal_strlit("increment_notes_font");
            assert("toggle_presentation_mode"@.len() != "increment_notes_font"@.len());
            reveal_strlit("decrement_notes_font");
            assert("toggle_presentation_mode"@.len() != "decrement_notes_font"@.len());
            reveal_strlit("toggle_screen_share");
            assert("toggle_presentation_mode"@.len() != "toggle_screen_share"@.len());
        },
        Action::ToggleTextBoxMode => {
            reveal_strlit("toggle_text_box_mode");
            reveal_strlit("next_slide");
            assert("toggle_text_box_mode"@.len() != "next_slide"@.len());
            reveal_strlit("previous_slide");
            assert("toggle_text_box_mode"@.len() != "previous_slide"@.len());
            reveal_strlit("next_overlay");
            assert("toggle_text_box_mode"@.len() != "next_overlay"@.len());
            reveal_strlit("previous_overlay");
            assert("toggle_text_box_mode"@.len() != "previous_overlay"@.len());
            reveal_strlit("first_slide");
            assert("toggle_text_box_mode"@.len() != "first_slide"@.len());
            reveal_strlit("last_slide");
            assert("toggle_text_box_mode"@.len() != "last_slide"@.len());
            reveal_strlit("go_to_slide");
            assert("toggle_text_box_mode"@.len() != "go_to_slide"@.len());
            reveal_strlit("toggle_freeze");
            assert("toggle_text_box_mode"@.len() != "toggle_freeze"@.len());
            reveal_strlit("toggle_blackout");
            assert("toggle_text_box_mode"@.len() != "toggle_blackout"@.len());
            reveal_strlit("toggle_whiteboard");
            assert("toggle_text_box_mode"@.len() != "toggle_whiteboard"@.len());
            reveal_strlit("toggle_laser");
            assert("toggle_text_box_mode"@.len() != "toggle_laser"@.len());
            reveal_strlit("cycle_laser_style");
            assert("toggle_text_box_mode"@.len() != "cycle_laser_style"@.len());
            reveal_strlit("toggle_ink");
            assert("toggle_text_box_mode"@.len() != "toggle_ink"@.len());
            reveal_strlit("clear_ink");
            assert("toggle_text_box_mode"@.len() != "clear_ink"@.len());
            reveal_strlit("cycle_ink_color");
            assert("toggle_text_box_mode"@.len() != "cycle_ink_color"@.len());
            reveal_strlit("cycle_ink_width");
            assert("toggle_text_box_mode"@.len() != "cycle_ink_width"@.len());
            reveal_strlit("toggle_spotlight");
            assert("toggle_text_box_mode"@.len() != "toggle_spotlight"@.len());
            reveal_strlit("toggle_zoom");
            assert("toggle_text_box_mode"@.len() != "toggle_zoom"@.len());
            reveal_strlit("toggle_overview");
            assert("toggle_text_box_mode"@.len() != "toggle_overview"@.len());
            reveal_strlit("toggle_notes");
            assert("toggle_text_box_mode"@.len() != "toggle_notes"@.len());
            reveal_strlit("toggle_notes_edit");
            assert("toggle_text_box_mode"@.len() != "toggle_notes_edit"@.len());
            reveal_strlit("start_pause_timer");
            assert("toggle_text_box_mode"@.len() != "start_pause_timer"@.len());
            reveal_strlit("reset_timer");
            assert("toggle_text_box_mode"@.len() != "reset_timer"@.len());
            reveal_strlit("increment_notes_font");
            assert("toggle_text_box_mode"@[0] != "increment_notes_font"@[0]);
            reveal_strlit("decrement_notes_font");
            assert("toggle_text_box_mode"@[0] != "decrement_notes_font"@[0]);
            reveal_strlit("toggle_screen_share");
            assert("toggle_text_box_mode"@.len() != "toggle_screen_share"@.len());
            reveal_strlit("toggle_presentation_mode");
            assert("toggle_text_box_mode"@.len() != "toggle_presentation_mode"@.len());
        },
        Action::Quit => {
            reveal_strlit("quit");
            reveal_strlit("next_slide");
            assert("quit"@.len() != "next_slide"@.len());
            reveal_strlit("previous_slide");
            assert("quit"@.len() != "previous_slide"@.len());
            reveal_strlit("next_overlay");
            assert("quit"@.len() != "next_overlay"@.len());
            reveal_strlit("previous_overlay");
            assert("quit"@.len() != "previous_overlay"@.len());
            reveal_strlit("first_slide");
            assert("quit"@.len() != "first_slide"@.len());
            reveal_strlit("last_slide");
            assert("quit"@.len() != "last_slide"@.len());
            reveal_strlit("go_to_slide");
            assert("quit"@.len() != "go_to_slide"@.len());
            reveal_strlit("toggle_freeze");
            assert("quit"@.len() != "toggle_freeze"@.len());
            reveal_strlit("toggle_blackout");
            assert("quit"@.len() != "toggle_blackout"@.len());
            reveal_strlit("toggle_whiteboard");
            assert("quit"@.len() != "toggle_whiteboard"@.len());
            reveal_strlit("toggle_laser");
            assert("quit"@.len() != "toggle_laser"@.len());
            reveal_strlit("cycle_laser_style");
            assert("quit"@.len() != "cycle_laser_style"@.len());
            reveal_strlit("toggle_ink");
            assert("quit"@.len() != "toggle_ink"@.len());
            reveal_strlit("clear_ink");
            assert("quit"@.len() != "clear_ink"@.len());
            reveal_strlit("cycle_ink_color");
            assert("quit"@.len() != "cycle_ink_color"@.len());
            reveal_strlit("cycle_ink_width");
            assert("quit"@.len() != "cycle_ink_width"@.len());
            reveal_strlit("toggle_spotlight");
            assert("quit"@.len() != "toggle_spotlight"@.len());
            reveal_strlit("toggle_zoom");
            assert("quit"@.len() != "toggle_zoom"@.len());
            reveal_strlit("toggle_overview");
            assert("quit"@.len() != "toggle_overview"@.len());
            reveal_strlit("toggle_notes");
            assert("quit"@.len() != "toggle_notes"@.len());
            reveal_strlit("toggle_notes_edit");
            assert("quit"@.len() != "toggle_notes_edit"@.len());
            reveal_strlit("start_pause_timer");
            assert("quit"@.len() != "start_pause_timer"@.len());
            reveal_strlit("reset_timer");
            assert("quit"@.len() != "reset_timer"@.len());
            reveal_strlit("increment_notes_font");
            assert("quit"@.len() != "increment_notes_font"@.len());
            reveal_strlit("decrement_notes_font");
            assert("quit"@.len() != "decrement_notes_font"@.len());
            reveal_strlit("toggle_screen_share");
            assert("quit"@.len() != "toggle_screen_share"@.len());
            reveal_strlit("toggle_presentation_mode");
            assert("quit"@.len() != "toggle_presentation_mode"@.len());
            reveal_strlit("toggle_text_box_mode");
            assert("quit"@.len() != "toggle_text_box_mode"@.len());
        },
        Action::SaveSidecar => {
            reveal_strlit("save_sidecar");
            reveal_strlit("next_slide");
            assert("save_sidecar"@.len() != "next_slide"@.len());
            reveal_strlit("previous_slide");
            assert("save_sidecar"@.len() != "previous_slide"@.len());
            reveal_strlit("next_overlay");
            assert("save_sidecar"@[0] != "next_overlay"@[0]);
            reveal_strlit("previous_overlay");
            assert("save_sidecar"@.len() != "previous_overlay"@.len());
            reveal_strlit("first_slide");
            assert("save_sidecar"@.len() != "first_slide"@.len());
            reveal_strlit("last_slide");
            assert("save_sidecar"@.len() != "last_slide"@.len());
            reveal_strlit("go_to_slide");
            assert("save_sidecar"@.len() != "go_to_slide"@.len());
            reveal_strlit("toggle_freeze");
            assert("save_sidecar"@.len() != "toggle_freeze"@.len());
            reveal_strlit("toggle_blackout");
            assert("save_sidecar"@.len() != "toggle_blackout"@.len());
            reveal_strlit("toggle_whiteboard");
            assert("save_sidecar"@.len() != "toggle_whiteboard"@.len());
            reveal_strlit("toggle_laser");
            assert("save_sidecar"@[0] != "toggle_laser"@[0]);
            reveal_strlit("cycle_laser_style");
            assert("save_sidecar"@.len() != "cycle_laser_style"@.len());
            reveal_strlit("toggle_ink");
            assert("save_sidecar"@.len() != "toggle_ink"@.len());
            reveal_strlit("clear_ink");
            assert("save_sidecar"@.len() != "clear_ink"@.len());
            reveal_strlit("cycle_ink_color");
            assert("save_sidecar"@.len() != "cycle_ink_color"@.len());
            reveal_strlit("cycle_ink_width");
            assert("save_sidecar"@.len() != "cycle_ink_width"@.len());
            reveal_strlit("toggle_spotlight");
            assert("save_sidecar"@.len() != "toggle_spotlight"@.len());
            reveal_strlit("toggle_zoom");
            assert("save_sidecar"@.len() != "toggle_zoom"@.len());
            reveal_strlit("toggle_overview");
            assert("save_sidecar"@.len() != "toggle_overview"@.len());
            reveal_strlit("toggle_notes");
            assert("save_sidecar"@[0] != "toggle_notes"@[0]);
            reveal_strlit("toggle_notes_edit");
            assert("save_sidecar"@.len() != "toggle_notes_edit"@.len());
            reveal_strlit("start_pause_timer");
            assert("save_sidecar"@.len() != "start_pause_timer"@.len());
            reveal_strlit("reset_timer");
            assert("save_sidecar"@.len() != "reset_timer"@.len());
            reveal_strlit("increment_notes_font");
            assert("save_sidecar"@.len() != "increment_notes_font"@.len());
            reveal_strlit("decrement_notes_font");
            assert("save_sidecar"@.len() != "decrement_notes_font"@.len());
            reveal_strlit("toggle_screen_share");
            assert("save_sidecar"@.len() != "toggle_screen_share"@.len());
            reveal_strlit("toggle_presentation_mode");
            assert("save_sidecar"@.len() != "toggle_presentation_mode"@.len());
            reveal_strlit("toggle_text_box_mode");
            assert("save_sidecar"@.len() != "toggle_text_box_mode"@.len());
            reveal_strlit("quit");
            assert("save_sidecar"@.len() != "quit"@.len());
        },
    }
}

/// A lowercase letter or an underscore.
pub open spec fn snake_char(c: char) -> bool {
    ('a' <= c <= 'z') || c == '_'
}

/// Non-empty lowercase `snake_case`: lowercase letters and single underscores,
/// beginning and ending with a letter.
pub open spec fn is_snake_case(s: Seq<char>) -> bool {
    &&& s.len() > 0
    &&& 'a' <= s[0] <= 'z'
    &&& 'a' <= s.last() <= 'z'
    &&& forall|i: int| 0 <= i < s.len() ==> snake_char(#[trigger] s[i])
    &&& forall|i: int| 0 <= i < s.len() - 1 && #[trigger] s[i] == '_' ==> s[i + 1] != '_'
}

/// A text checked character by character is snake case.
proof fn lemma_snake_case_chars(s: Seq<char>)
    requires
        s.len() > 0,
        'a' <= s[0] <= 'z',
        'a' <= s.last() <= 'z',
        forall|i: int| 0 <= i < s.len() ==> snake_char(#[trigger] s[i]),
        forall|i: int| 0 <= i < s.len() - 1 && #[trigger] s[i] == '_' ==> s[i + 1] != '_',
    ensures
        is_snake_case(s),
{
}

/// Every action's configuration name is non-empty lowercase `snake_case`, and
/// different actions have different names.
pub proof fn law_action_names_are_snake_case(a: Action, b: Action)
    ensures
        is_snake_case(action_name(a)),
        a != b ==> action_name(a) != action_name(b),
{
    law_action_names_round_trip(a);
    law_action_names_round_trip(b);
    match a {
        Action::NextSlide => {
            reveal_strlit("next_slide");
            lemma_snake_case_chars("next_slide"@);
        },
        Action::PreviousSlide => {
            reveal_strlit("previous_slide");
            lemma_snake_case_chars("previous_slide"@);
        },
        Action::NextOverlay => {
            reveal_strlit("next_overlay");
            lemma_snake_case_chars("next_overlay"@);
        },
        Action::PreviousOverlay => {
            reveal_strlit("previous_overlay");
            lemma_snake_case_chars("previous_overlay"@);
        },
        Action::FirstSlide => {
            reveal_strlit("first_slide");
            lemma_snake_case_chars("first_slide"@);
        },
        Action::LastSlide => {
            reveal_strlit("last_slide");
            lemma_snake_case_chars("last_slide"@);
        },
        Action::GoToSlide => {
            reveal_strlit("go_to_slide");
            lemma_snake_case_chars("go_to_slide"@);
        },
        Action::ToggleFreeze => {
            reveal_strlit("toggle_freeze");
            lemma_snake_case_chars("toggle_freeze"@);
        },
        Action::ToggleBlackout => {
            reveal_strlit("toggle_blackout");
            lemma_snake_case_chars("toggle_blackout"@);
        },
        Action::ToggleWhiteboard => {
            reveal_strlit("toggle_whiteboard");
            lemma_snake_case_chars("toggle_whiteboard"@);
        },
        Action::ToggleLaser => {
            reveal_strlit("toggle_laser");
            lemma_snake_case_chars("toggle_laser"@);
        },
        Action::CycleLaserStyle => {
            reveal_strlit("cycle_laser_style");
            lemma_snake_case_chars("cycle_laser_style"@);
        },
        Action::ToggleInk => {
            reveal_strlit("toggle_ink");
            lemma_snake_case_chars("toggle_ink"@);
        },
        Action::ClearInk => {
            reveal_strlit("clear_ink");
            lemma_snake_case_chars("clear_ink"@);
        },
        Action::CycleInkColor => {
            reveal_strlit("cycle_ink_color");
            lemma_snake_case_chars("cycle_ink_color"@);
        },
        Action::CycleInkWidth => {
            reveal_strlit("cycle_ink_width");
            lemma_snake_case_chars("cycle_ink_width"@);
        },
        Action::ToggleSpotlight => {
            reveal_strlit("toggle_spotlight");
            lemma_snake_case_chars("toggle_spotlight"@);
        },
        Action::ToggleZoom => {
            reveal_strlit("toggle_zoom");
            lemma_snake_case_chars("toggle_zoom"@);
        },
        Action::ToggleOverview => {
            reveal_strlit("toggle_overview");
            lemma_snake_case_chars("toggle_overview"@);
        },
        Action::ToggleNotes => {
            reveal_strlit("toggle_notes");
            lemma_snake_case_chars("toggle_notes"@);
        },
        Action::ToggleNotesEdit => {
            reveal_strlit("toggle_notes_edit");
            lemma_snake_case_chars("toggle_notes_edit"@);
        },
        Action::StartPauseTimer => {
            reveal_strlit("start_pause_timer");
            lemma_snake_case_chars("start_pause_timer"@);
        },
        Action::ResetTimer => {
            reveal_strlit("reset_timer");
            lemma_snake_case_chars("reset_timer"@);
        },
        Action::IncrementNotesFont => {
            reveal_strlit("increment_notes_font");
            lemma_snake_case_chars("increment_notes_font"@);
        },
        Action::DecrementNotesFont => {
            reveal_strlit("decrement_notes_font");
            lemma_snake_case_chars("decrement_notes_font"@);
        },
        Action::ToggleScreenShare => {
            reveal_strlit("toggle_screen_share");
            lemma_snake_case_chars("toggle_screen_share"@);
        },
        Action::TogglePresentationMode => {
            reveal_strlit("toggle_presentation_mode");
            lemma_snake_case_chars("toggle_presentation_mode"@);
        },
        Action::ToggleTextBoxMode => {
            reveal_strlit("toggle_text_box_mode");
            lemma_snake_case_chars("toggle_text_box_mode"@);
        },
        Action::Quit => {
            reveal_strlit("quit");
            lemma_snake_case_chars("quit"@);
        },
        Action::SaveSidecar => {
            reveal_strlit("save_sidecar");
            lemma_snake_case_chars("save_sidecar"@);
        },
    }
}

/// The modifier words a combo's display shows, in order: Ctrl, Alt, Shift.
pub open spec fn shown_modifiers(c: ComboModel) -> Seq<Seq<char>> {
    (if c.2 {
        seq!["Ctrl"@]
    } else {
        seq![]
    }) + (if c.3 {
        seq!["Alt"@]
    } else {
        seq![]
    }) + (if c.1 {
        seq!["Shift"@]
    } else {
        seq![]
    })
}

/// A key a combo can be shown and read back with: non-empty, without `+`,
/// without surrounding whitespace, not a modifier word, and, when it is one
/// character, an ASCII character that is not an uppercase letter (as parsing
/// leaves single-character keys).
pub open spec fn showable_key(k: Seq<char>) -> bool {
    &&& k.len() > 0
    &&& forall|i: int| 0 <= i < k.len() ==> #[trigger] k[i] != '+'
    &&& !is_ws(k[0]) && !is_ws(k.last())
    &&& k.len() == 1 ==> (k[0] as u32) < 128 && !('A' <= k[0] <= 'Z')
    &&& k.len() != 1 ==> modifier_of(k) == 0
}

/// Splitting `w + "+" + rest` at `+`, where `w` has no `+`, gives `w` first.
proof fn lemma_split_word(w: Seq<char>, rest: Seq<char>)
    requires
        forall|i: int| 0 <= i < w.len() ==> #[trigger] w[i] != '+',
    ensures
        split_on(w + seq!['+'] + rest, '+') == seq![w] + split_on(rest, '+'),
{
    let s = w + seq!['+'] + rest;
    assert forall|j: int| 0 <= j < w.len() implies s[j] != '+' by {
        assert(s[j] == w[j]);
    }
    lemma_find_char_at(s, '+', w.len() as int);
    assert(s.take(w.len() as int) =~= w);
    assert(s.skip(w.len() as int + 1) =~= rest);
}

/// A text without `+` splits into itself.
proof fn lemma_split_none(k: Seq<char>)
    requires
        forall|i: int| 0 <= i < k.len() ==> #[trigger] k[i] != '+',
    ensures
        split_on(k, '+') == seq![k],
{
    lemma_find_char_at(k, '+', k.len() as int);
}

/// The display text splits into the modifier words and the shown key.
proof fn lemma_display_parts(c: ComboModel)
    requires
        forall|i: int| 0 <= i < display_key(c.0).len() ==> #[trigger] display_key(c.0)[i] != '+',
    ensures
        split_on(combo_display(c), '+') == shown_modifiers(c).push(display_key(c.0)),
{
    reveal_strlit("Ctrl+");
    reveal_strlit("Alt+");
    reveal_strlit("Shift+");
    reveal_strlit("Ctrl");
    reveal_strlit("Alt");
    reveal_strlit("Shift");
    let k = display_key(c.0);
    lemma_split_none(k);
    let shift_part = if c.1 { "Shift+"@ } else { seq![] };
    let alt_part = if c.3 { "Alt+"@ } else { seq![] };
    let ctrl_part = if c.2 { "Ctrl+"@ } else { seq![] };
    // Peel the words off from the left.
    let t3 = shift_part + k;
    if c.1 {
        assert("Shift+"@ =~= "Shift"@ + seq!['+']);
        lemma_split_word("Shift"@, k);
        assert(t3 =~= "Shift"@ + seq!['+'] + k);
    }
    let t2 = alt_part + t3;
    if c.3 {
        assert("Alt+"@ =~= "Alt"@ + seq!['+']);
        lemma_split_word("Alt"@, t3);
        assert(t2 =~= "Alt"@ + seq!['+'] + t3);
    }
    let t1 = ctrl_part + t2;
    if c.2 {
        assert("Ctrl+"@ =~= "Ctrl"@ + seq!['+']);
        lemma_split_word("Ctrl"@, t2);
        assert(t1 =~= "Ctrl"@ + seq!['+'] + t2);
    }
    assert(combo_display(c) =~= t1);
    assert(shown_modifiers(c).push(k) =~= (if c.2 { seq!["Ctrl"@] } else { seq![] }) + ((if c.3 {
        seq!["Alt"@]
    } else {
        seq![]
    }) + ((if c.1 { seq!["Shift"@] } else { seq![] }) + seq![k])));
}

/// Scanning the modifier words a display shows sets exactly the combo's flags.
proof fn lemma_scan_modifiers(c: ComboModel)
    ensures
        scan_parts(shown_modifiers(c)) == (None::<Seq<char>>, c.1, c.2, c.3),
{
    reveal_strlit("Ctrl");
    reveal_strlit("Alt");
    reveal_strlit("Shift");
    reveal_strlit("ctrl");
    reveal_strlit("alt");
    reveal_strlit("shift");
    reveal_strlit("control");
    reveal_strlit("cmd");
    reveal_strlit("command");
    reveal_strlit("option");
    let ctrl = "Ctrl"@;
    let alt = "Alt"@;
    let shift = "Shift"@;
    lemma_trim_id(ctrl);
    lemma_trim_id(alt);
    lemma_trim_id(shift);
    assert(all_ascii(ctrl));
    assert(all_ascii(alt));
    assert(all_ascii(shift));
    assert(lowercase(ctrl) =~= "ctrl"@);
    assert(lowercase(alt) =~= "alt"@);
    assert(lowercase(shift) =~= "shift"@);
    assert(modifier_of(ctrl) == 2);
    assert("alt"@[0] != "cmd"@[0]);
    assert(modifier_of(alt) == 3);
    assert(modifier_of(shift) == 1);
    let a = if c.2 { seq![ctrl] } else { seq![] };
    let b = if c.3 { seq![alt] } else { seq![] };
    let d = if c.1 { seq![shift] } else { seq![] };
    assert(scan_parts(a) == (None::<Seq<char>>, false, c.2, false)) by {
        if c.2 {
            assert(a.drop_last() =~= Seq::<Seq<char>>::empty());
            assert(a.last() == ctrl);
            assert(scan_parts(a.drop_last()) == (None::<Seq<char>>, false, false, false));
        } else {
            assert(a =~= Seq::<Seq<char>>::empty());
        }
    }
    assert(scan_parts(a + b) == (None::<Seq<char>>, false, c.2, c.3)) by {
        if c.3 {
            assert((a + b).drop_last() =~= a);
            assert((a + b).last() == alt);
        } else {
            assert(a + b =~= a);
        }
    }
    assert(scan_parts(a + b + d) == (None::<Seq<char>>, c.1, c.2, c.3)) by {
        if c.1 {
            assert((a + b + d).drop_last() =~= a + b);
            assert((a + b + d).last() == shift);
        } else {
            assert(a + b + d =~= a + b);
        }
    }
}

/// Showing a key combination and reading the text back gives the combination:
/// the modifiers in the order Ctrl, Alt, Shift, then the key (uppercased when it
/// is one ASCII character), read back with the key lowercased again.
pub proof fn law_display_reads_back(c: ComboModel)
    requires
        showable_key(c.0),
    ensures
        parse_combo(combo_display(c)) == Some(c),
{
    let k = c.0;
    let shown = display_key(k);
    if k.len() == 1 {
        assert(shown =~= seq![ascii_upper(k[0])]);
        assert(ascii_upper(k[0]) == k[0] || ('a' <= k[0] <= 'z' && ascii_upper(k[0]) as u32
            == (k[0] as u32) - 32));
    } else {
        assert(shown == k);
    }
    assert forall|i: int| 0 <= i < shown.len() implies #[trigger] shown[i] != '+' by {
        if k.len() == 1 {
            assert(shown[0] == ascii_upper(k[0]));
        }
    }
    lemma_display_parts(c);
    let parts = shown_modifiers(c).push(shown);
    assert(parts.drop_last() =~= shown_modifiers(c));
    lemma_scan_modifiers(c);
    assert(!is_ws(shown[0]) && !is_ws(shown.last())) by {
        if k.len() == 1 {
            assert(shown[0] == ascii_upper(k[0]));
        }
    }
    lemma_trim_id(shown);
    if k.len() == 1 {
        assert(all_ascii(shown));
        assert(lowercase(shown) =~= seq![ascii_lower(ascii_upper(k[0]))]);
        assert(ascii_lower(ascii_upper(k[0])) == k[0]);
        assert(lowercase(shown) =~= k);
        assert(modifier_of(shown) == 0) by {
            reveal_strlit("shift");
            reveal_strlit("ctrl");
            reveal_strlit("control");
            reveal_strlit("cmd");
            reveal_strlit("command");
            reveal_strlit("alt");
            reveal_strlit("option");
        }
        assert(normalized_key(shown) == k);
    }
    assert(scan_parts(parts) == (Some(shown), c.1, c.2, c.3));
}

/// Scanning the parts after a leading Ctrl modifier word gives what the parts
/// alone give, with Ctrl set.
proof fn lemma_scan_after_ctrl(p: Seq<char>, rest: Seq<Seq<char>>)
    requires
        modifier_of(trim(p)) == 2,
    ensures
        scan_parts(seq![p] + rest) == (
            scan_parts(rest).0,
            scan_parts(rest).1,
            true,
            scan_parts(rest).3,
        ),
    decreases rest.len(),
{
    if rest.len() == 0 {
        assert(seq![p] + rest =~= seq![p]);
        assert(seq![p].drop_last() =~= Seq::<Seq<char>>::empty());
        assert(scan_parts(Seq::<Seq<char>>::empty()) == (None::<Seq<char>>, false, false, false));
        assert(seq![p].last() == p);
        assert(scan_parts(seq![p]) == (None::<Seq<char>>, false, true, false));
    } else {
        lemma_scan_after_ctrl(p, rest.drop_last());
        assert((seq![p] + rest).drop_last() =~= seq![p] + rest.drop_last());
        assert((seq![p] + rest).last() == rest.last());
    }
}

/// Every alias of Ctrl works as Ctrl: written before a key combination as
/// `ctrl`, `control`, `cmd` or `command`, in any letter case and with spaces
/// around it, it gives the combination that the rest names, with Ctrl set.
pub proof fn law_ctrl_aliases(m: Seq<char>, k: Seq<char>)
    requires
        forall|i: int| 0 <= i < m.len() ==> #[trigger] m[i] != '+',
        lowercase(trim(m)) == "ctrl"@ || lowercase(trim(m)) == "control"@ || lowercase(trim(m))
            == "cmd"@ || lowercase(trim(m)) == "command"@,
    ensures
        parse_combo(m + seq!['+'] + k) == match parse_combo(k) {
            Some(c) => Some((c.0, c.1, true, c.3)),
            None => None::<ComboModel>,
        },
{
    reveal_strlit("shift");
    reveal_strlit("ctrl");
    reveal_strlit("control");
    reveal_strlit("cmd");
    reveal_strlit("command");
    let l = lowercase(trim(m));
    assert(l != "shift"@) by {
        if l == "shift"@ {
            assert(l.len() == 5);
        }
    }
    assert(modifier_of(trim(m)) == 2);
    lemma_split_word(m, k);
    lemma_scan_after_ctrl(m, split_on(k, '+'));
}


} // verus!
