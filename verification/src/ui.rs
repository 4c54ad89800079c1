//! The presenter interface's state: toasts, the help overlay, display and
//! input modes, and the key-test console.
use std::time::{Duration, Instant};

use crate::export::{hash_str, str_hash};
use crate::keybindings::{
    action_group, action_name, combo_model, lookup_binding, Action, ComboModel, KeyCombo,
    KeybindingMap,
};
use crate::text::{
    append_str, chars_of, eq_ignore_ascii_case, is_word, is_word_ignoring_ascii_case, parse_usize,
    parse_usize_spec, string_of,
};
use vstd::prelude::*;

verus! {

#[verifier::external_type_specification]
#[verifier::external_body]
pub struct ExInstant(std::time::Instant);

/// `Instant::clone`: a copy of the instant.
pub assume_specification[ <std::time::Instant as Clone>::clone ](i: &std::time::Instant) -> (r:
    std::time::Instant)
    ensures
        r == *i,
;

/// `Duration::clone`: a copy of the duration.
pub assume_specification[ <std::time::Duration as Clone>::clone ](d: &std::time::Duration) -> (r:
    std::time::Duration)
    ensures
        r == *d,
;

// ---------------------------------------------------------------------------
// Toasts
// ---------------------------------------------------------------------------

/// The severity of a toast.
#[derive(Debug, Clone, Copy, PartialEq, Eq, Structural)]
pub enum ToastLevel {
    Info,
    Warning,
    Error,
}

/// A short-lived notification.
#[derive(Debug, Clone)]
pub struct Toast {
    pub message: String,
    pub level: ToastLevel,
    pub created: Instant,
    pub duration: Duration,
}

/// The queued toasts, oldest first.
pub struct ToastManager {
    toasts: Vec<Toast>,
}

/// `Instant::now`: the current time.
#[verifier::external_body]
fn now() -> (r: Instant) {
    Instant::now()
}

/// The whole nanoseconds of a duration, as `Duration::as_nanos` gives them.
pub uninterp spec fn duration_nanos(d: Duration) -> u128;

/// `Duration::from_secs`: a duration of `secs` whole seconds.
#[verifier::external_body]
fn seconds(secs: u64) -> (r: Duration)
    ensures
        duration_nanos(r) == secs * 1_000_000_000,
{
    Duration::from_secs(secs)
}

/// `Duration::as_nanos`.
#[verifier::external_body]
fn nanos_of(d: &Duration) -> (r: u128)
    ensures
        r == duration_nanos(*d),
{
    d.as_nanos()
}

/// `Instant::elapsed`, in whole nanoseconds: the time since `start`, as the
/// clock reads it now.
#[verifier::external_body]
fn elapsed_nanos(start: &Instant) -> (r: u128) {
    start.elapsed().as_nanos()
}

/// The model of a toast: its message, level and duration in nanoseconds.
pub open spec fn toast_model(t: Toast) -> (Seq<char>, ToastLevel, u128) {
    (t.message@, t.level, duration_nanos(t.duration))
}

/// The models of a list of toasts.
pub open spec fn toasts_model(v: Seq<Toast>) -> Seq<(Seq<char>, ToastLevel, u128)> {
    v.map_values(|t: Toast| toast_model(t))
}

/// The default time a toast is shown: four seconds.
pub const TOAST_NANOS: u128 = 4_000_000_000u128;

/// A toast stays while its age is below its duration.
pub open spec fn toast_shown(age_nanos: u128, duration_nanos: u128) -> bool {
    age_nanos < duration_nanos
}

/// Whether a toast of this age and duration is still shown.
pub fn toast_still_shown(age_nanos: u128, duration_nanos: u128) -> (r: bool)
    ensures
        r == toast_shown(age_nanos, duration_nanos),
{
    age_nanos < duration_nanos
}

/// For toasts of the given ages, which stay.
pub open spec fn shown_flags(v: Seq<(Seq<char>, ToastLevel, u128)>, ages: Seq<u128>) -> Seq<bool> {
    Seq::new(v.len(), |i: int| toast_shown(ages[i], v[i].2))
}

impl ToastManager {
    /// The queued toasts' messages, levels and durations, oldest first.
    pub closed spec fn view(&self) -> Seq<(Seq<char>, ToastLevel, u128)> {
        toasts_model(self.toasts@)
    }

    /// No toasts.
    pub fn new() -> (r: Self)
        ensures
            r.view().len() == 0,
    {
        ToastManager { toasts: Vec::new() }
    }

    /// Queues a toast shown for the default four seconds.
    pub fn push(&mut self, level: ToastLevel, message: &str)
        ensures
            final(self).view() == old(self).view().push((message@, level, TOAST_NANOS)),
    {
        let duration = seconds(4);
        self.push_with_duration(level, message, duration);
    }

    /// Queues a toast shown for `duration`.
    pub fn push_with_duration(&mut self, level: ToastLevel, message: &str, duration: Duration)
        ensures
            final(self).view() == old(self).view().push((message@, level, duration_nanos(duration))),
    {
        let toast = Toast { message: message.to_owned(), level, created: now(), duration };
        self.toasts.push(toast);
        proof {
            broadcast use Seq::lemma_push_map_commute;

        }
        assert(self.view() =~= old(self).view().push((message@, level, duration_nanos(duration))));
    }

    /// The number of queued toasts.
    pub fn len(&self) -> (r: usize)
        ensures
            r == self.view().len(),
    {
        self.toasts.len()
    }

    /// The queued toasts, oldest first.
    pub fn toasts(&self) -> (r: &Vec<Toast>)
        ensures
            toasts_model(r@) == self.view(),
    {
        &self.toasts
    }

    /// Keeps the toasts whose flag is set (one flag per toast, in order).
    pub fn retain_flagged(&mut self, keep: &Vec<bool>)
        requires
            keep@.len() == old(self).view().len(),
        ensures
            final(self).view() == kept(old(self).view(), keep@),
    {
        let mut rest: Vec<Toast> = Vec::new();
        std::mem::swap(&mut rest, &mut self.toasts);
        let ghost ov = old(self).view();
        let ghost mut i: int = 0;
        let mut k: usize = 0;
        let n = keep.len();
        while rest.len() > 0
            invariant
                k == i,
                n == keep@.len(),
                0 <= i <= ov.len(),
                keep@.len() == ov.len(),
                rest@.len() == ov.len() - i,
                toasts_model(rest@) == ov.skip(i),
                self.view() == kept(ov.take(i), keep@.take(i)),
            decreases rest@.len(),
        {
            let ghost rv = rest@;
            assert(toasts_model(rv)[0] == ov[i]);
            let t = rest.remove(0);
            assert(ov.take(i + 1).drop_last() =~= ov.take(i));
            assert(keep@.take(i + 1).drop_last() =~= keep@.take(i));
            if keep[k] {
                self.toasts.push(t);
                proof {
                    broadcast use Seq::lemma_push_map_commute;

                }
                assert(self.view() =~= kept(ov.take(i + 1), keep@.take(i + 1)));
            } else {
                assert(self.view() =~= kept(ov.take(i + 1), keep@.take(i + 1)));
            }
            proof {
                assert(rest@ =~= rv.skip(1));
                assert forall|j: int| 0 <= j < rest@.len() implies toasts_model(rest@)[j] == ov.skip(
                    i + 1,
                )[j] by {
                    assert(rest@[j] == rv[j + 1]);
                    assert(toasts_model(rv)[j + 1] == ov.skip(i)[j + 1]);
                }
                assert(toasts_model(rest@) =~= ov.skip(i + 1));
                i = i + 1;
            }
            k = k + 1;
        }
        assert(ov.take(i) =~= ov);
        assert(keep@.take(i) =~= keep@);
    }

    /// Removes the toast at `idx`.
    pub fn dismiss(&mut self, idx: usize)
        requires
            idx < old(self).view().len(),
        ensures
            final(self).view() == old(self).view().remove(idx as int),
    {
        self.toasts.remove(idx);
        assert(self.view() =~= old(self).view().remove(idx as int));
    }

    /// Drops the toasts whose age (one age per toast, in order, in nanoseconds)
    /// has reached their duration.
    pub fn expire_with_ages(&mut self, ages: &Vec<u128>)
        requires
            ages@.len() == old(self).view().len(),
        ensures
            final(self).view() == kept(old(self).view(), shown_flags(old(self).view(), ages@)),
    {
        let ghost v = self.view();
        let mut keep: Vec<bool> = Vec::new();
        let mut i: usize = 0;
        while i < self.toasts.len()
            invariant
                v == self.view(),
                ages@.len() == v.len(),
                i <= self.toasts@.len(),
                keep@ == shown_flags(v, ages@).take(i as int),
            decreases self.toasts@.len() - i,
        {
            let d = nanos_of(&self.toasts[i].duration);
            assert(toasts_model(self.toasts@)[i as int] == toast_model(self.toasts@[i as int]));
            keep.push(toast_still_shown(ages[i], d));
            assert(keep@ =~= shown_flags(v, ages@).take(i + 1));
            i += 1;
        }
        assert(keep@ =~= shown_flags(v, ages@));
        self.retain_flagged(&keep);
    }

    /// Drops the toasts shown for their whole duration, by the clock now.
    pub fn expire(&mut self)
        ensures
            exists|ages: Seq<u128>|
                ages.len() == old(self).view().len() && final(self).view() == kept(
                    old(self).view(),
                    shown_flags(old(self).view(), ages),
                ),
    {
        let mut ages: Vec<u128> = Vec::new();
        let mut i: usize = 0;
        while i < self.toasts.len()
            invariant
                i <= self.toasts@.len(),
                ages@.len() == i,
                self.view() == old(self).view(),
            decreases self.toasts@.len() - i,
        {
            ages.push(elapsed_nanos(&self.toasts[i].created));
            i += 1;
        }
        self.expire_with_ages(&ages);
    }
}

/// A toast with no duration is gone at the next expiry, whatever the clock
/// reads, and one that stays had not yet reached its duration.
pub proof fn law_toasts_stay_for_their_duration(
    v: Seq<(Seq<char>, ToastLevel, u128)>,
    ages: Seq<u128>,
    i: int,
)
    requires
        ages.len() == v.len(),
        0 <= i < v.len(),
    ensures
        v[i].2 == 0 ==> !shown_flags(v, ages)[i],
        shown_flags(v, ages)[i] <==> ages[i] < v[i].2,
{
}

/// The entries of `v` whose flag in `keep` is set, in order.
pub open spec fn kept<A>(v: Seq<A>, keep: Seq<bool>) -> Seq<A>
    decreases v.len(),
{
    if v.len() == 0 || keep.len() == 0 {
        seq![]
    } else {
        let prev = kept(v.drop_last(), keep.drop_last());
        if keep.last() {
            prev.push(v.last())
        } else {
            prev
        }
    }
}

impl Default for ToastManager {
    fn default() -> (r: Self)
        ensures
            r.view().len() == 0,
    {
        ToastManager::new()
    }
}

// ---------------------------------------------------------------------------
// Help overlay
// ---------------------------------------------------------------------------

/// The keybinding help overlay.
#[derive(Debug, Clone, Copy)]
pub struct HelpOverlay {
    pub visible: bool,
}

impl HelpOverlay {
    /// A hidden overlay.
    pub fn new() -> (r: Self)
        ensures
            !r.visible,
    {
        HelpOverlay { visible: false }
    }

    /// Toggle visibility and return `true` when visible after the toggle.
    pub fn toggle(&mut self) -> (r: bool)
        ensures
            final(self).visible == !old(self).visible,
            r == final(self).visible,
    {
        self.visible = !self.visible;
        self.visible
    }
}

impl Default for HelpOverlay {
    fn default() -> (r: Self)
        ensures
            !r.visible,
    {
        HelpOverlay::new()
    }
}

/// Texts joined with `sep` between them.
pub open spec fn joined_with(texts: Seq<Seq<char>>, sep: Seq<char>) -> Seq<char>
    decreases texts.len(),
{
    if texts.len() == 0 {
        seq![]
    } else if texts.len() == 1 {
        texts[0]
    } else {
        joined_with(texts.drop_last(), sep) + sep + texts.last()
    }
}

/// The keys column of a help row: the keys separated by slashes, or a dash
/// when the action has no key.
pub open spec fn help_keys(keys: Seq<Seq<char>>) -> Seq<char> {
    if keys.len() == 0 {
        "\u{2014}"@
    } else {
        joined_with(keys, "  /  "@)
    }
}

/// The keys column of a help row.
pub fn help_key_text(keys: &Vec<String>) -> (r: String)
    ensures
        r@ == help_keys(keys@.map_values(|k: String| k@)),
{
    let ghost views = keys@.map_values(|k: String| k@);
    if keys.len() == 0 {
        return string_of(&chars_of("\u{2014}"));
    }
    let mut out: Vec<char> = chars_of(keys[0].as_str());
    let mut i: usize = 1;
    assert(views.take(1) =~= seq![views[0]]);
    while i < keys.len()
        invariant
            1 <= i <= keys@.len(),
            views == keys@.map_values(|k: String| k@),
            out@ == joined_with(views.take(i as int), "  /  "@),
        decreases keys@.len() - i,
    {
        append_str(&mut out, "  /  ");
        append_str(&mut out, keys[i].as_str());
        assert(views.take(i + 1).drop_last() =~= views.take(i as int));
        i += 1;
    }
    assert(views.take(keys@.len() as int) =~= views);
    string_of(&out)
}

/// The help table's sections: maximal runs of rows whose actions share a group,
/// as the group's name and the runs' row range.
pub fn help_sections(bindings: &Vec<(Action, Vec<String>)>) -> (r: Vec<(&'static str, usize, usize)>)
    ensures
        bindings@.len() == 0 ==> r@.len() == 0,
        bindings@.len() > 0 ==> r@.len() > 0 && r@[0].1 == 0 && r@.last().2 == bindings@.len(),
        forall|s: int|
            0 <= s < r@.len() ==> (#[trigger] r@[s]).1 < r@[s].2 && r@[s].0@ == action_group(
                bindings@[r@[s].1 as int].0,
            ),
        forall|s: int| 0 <= s < r@.len() - 1 ==> (#[trigger] r@[s]).2 == r@[s + 1].1,
        forall|s: int, i: int|
            0 <= s < r@.len() && (#[trigger] r@[s]).1 <= i < r@[s].2 ==> action_group(
                #[trigger] bindings@[i].0,
            ) == r@[s].0@,
        forall|s: int|
            0 <= s < r@.len() - 1 ==> action_group(bindings@[(#[trigger] r@[s]).1 as int].0)
                != action_group(bindings@[r@[s + 1].1 as int].0),
{
    let mut sections: Vec<(&'static str, usize, usize)> = Vec::new();
    let n = bindings.len();
    let mut idx: usize = 0;
    while idx < n
        invariant
            n == bindings@.len(),
            idx <= n,
            idx == 0 <==> sections@.len() == 0,
            sections@.len() > 0 ==> sections@[0].1 == 0 && sections@.last().2 == idx,
            forall|s: int|
                0 <= s < sections@.len() ==> (#[trigger] sections@[s]).1 < sections@[s].2
                    && sections@[s].0@ == action_group(bindings@[sections@[s].1 as int].0),
            forall|s: int|
                0 <= s < sections@.len() - 1 ==> (#[trigger] sections@[s]).2 == sections@[s + 1].1,
            forall|s: int, i: int|
                0 <= s < sections@.len() && (#[trigger] sections@[s]).1 <= i < sections@[s].2
                    ==> action_group(#[trigger] bindings@[i].0) == sections@[s].0@,
            forall|s: int|
                0 <= s < sections@.len() - 1 ==> action_group(
                    bindings@[(#[trigger] sections@[s]).1 as int].0,
                ) != action_group(bindings@[sections@[s + 1].1 as int].0),
            idx < n && sections@.len() > 0 ==> action_group(bindings@[idx as int].0)
                != sections@.last().0@,
        decreases n - idx,
    {
        let start = idx;
        let group = bindings[idx].0.group();
        idx += 1;
        while idx < n && is_word(&chars_of(bindings[idx].0.group()), group)
            invariant
                n == bindings@.len(),
                start < idx <= n,
                group@ == action_group(bindings@[start as int].0),
                forall|i: int| start <= i < idx ==> action_group(#[trigger] bindings@[i].0) == group@,
            decreases n - idx,
        {
            idx += 1;
        }
        let ghost before = sections@;
        sections.push((group, start, idx));
        proof {
            assert(sections@.drop_last() == before);
            assert forall|s: int, i: int|
                0 <= s < sections@.len() && (#[trigger] sections@[s]).1 <= i < sections@[s].2
                    implies action_group(#[trigger] bindings@[i].0) == sections@[s].0@ by {
                if s < before.len() {
                    assert(sections@[s] == before[s]);
                }
            }
            assert forall|s: int| 0 <= s < sections@.len() - 1 implies action_group(
                bindings@[(#[trigger] sections@[s]).1 as int].0,
            ) != action_group(bindings@[sections@[s + 1].1 as int].0) by {
                assert(sections@[s] == before[s]);
                if s == before.len() - 1 {
                    assert(sections@[s + 1].1 == start);
                    assert(action_group(bindings@[before.last().1 as int].0) == before.last().0@);
                } else {
                    assert(sections@[s + 1] == before[s + 1]);
                }
            }
            if idx < n {
                assert(action_group(bindings@[idx as int].0) != group@);
            }
        }
    }
    sections
}

// ---------------------------------------------------------------------------
// Display and input modes
// ---------------------------------------------------------------------------

/// Which presentation surface to use in single-monitor mode.
#[derive(Debug, Clone, Copy, PartialEq, Eq, Structural)]
pub enum SingleMonitorView {
    /// Fullscreen slide with hoverable notes bar.
    Hud,
    /// Audience slide beside a compact presenter strip.
    Split,
}

impl SingleMonitorView {
    /// Parse a config value into a single-monitor view mode.
    ///
    /// Unknown values fall back to [`SingleMonitorView::Hud`].
    pub fn from_config(value: &str) -> (r: Self)
        ensures
            r == if eq_ignore_ascii_case(value@, "split"@) {
                SingleMonitorView::Split
            } else {
                SingleMonitorView::Hud
            },
    {
        let chars = chars_of(value);
        if is_word_ignoring_ascii_case(&chars, "split") {
            SingleMonitorView::Split
        } else {
            SingleMonitorView::Hud
        }
    }

    /// The view shown on a single monitor: the configured one, or the other one
    /// while presentation mode (F5) is on.
    pub fn active(self, presentation_mode: bool) -> (r: Self)
        ensures
            presentation_mode ==> r != self,
            !presentation_mode ==> r == self,
    {
        if presentation_mode {
            match self {
                SingleMonitorView::Hud => SingleMonitorView::Split,
                SingleMonitorView::Split => SingleMonitorView::Hud,
            }
        } else {
            self
        }
    }
}

/// How long the interface waits before redrawing, in milliseconds: often while
/// the presentation timer runs, less often otherwise.
pub fn repaint_after_millis(timer_running: bool) -> (r: u64)
    ensures
        r == if timer_running {
            100u64
        } else {
            250u64
        },
{
    if timer_running {
        100
    } else {
        250
    }
}

/// CLI-level display hints (from `--single`, `--screen-share`, etc.).
#[derive(Debug, Clone, Copy)]
pub struct DisplayHints {
    /// `--single` was passed.
    pub force_single: bool,
    /// `--screen-share` was passed.
    pub force_screen_share: bool,
}

/// Which input mode the presenter console is in.
#[derive(Debug, Clone, Copy, PartialEq, Eq, Structural)]
pub enum InputMode {
    /// Default keyboard-driven navigation.
    Normal,
    /// Slide overview grid is showing; Enter selects, Escape closes.
    Overview,
    /// Freehand ink drawing; mouse drives strokes.
    Ink,
    /// Laser pointer active; mouse drives position.
    Laser,
    /// Inline markdown notes editing.
    NotesEdit,
    /// Digit accumulation for jump-to-slide (G → digits → Enter).
    JumpToSlide,
}

/// Which presentation aids are currently active, used to drive mouse handling.
#[derive(Debug, Clone, Copy)]
pub struct ActiveAids {
    pub ink: bool,
    pub laser: bool,
    pub spotlight: bool,
    pub zoom: bool,
}

impl Default for ActiveAids {
    fn default() -> (r: Self)
        ensures
            !r.ink && !r.laser && !r.spotlight && !r.zoom,
    {
        ActiveAids { ink: false, laser: false, spotlight: false, zoom: false }
    }
}

/// The presentation state the input mode follows.
#[derive(Debug, Clone, Copy)]
pub struct UiModes {
    pub overview_visible: bool,
    pub ink_active: bool,
    pub laser_active: bool,
    pub notes_editing: bool,
}

impl Default for UiModes {
    fn default() -> (r: Self)
        ensures
            !r.overview_visible && !r.ink_active && !r.laser_active && !r.notes_editing,
    {
        UiModes { overview_visible: false, ink_active: false, laser_active: false, notes_editing: false }
    }
}

/// The input mode after following the presentation state: a slide jump in
/// progress is kept; otherwise the overview wins over notes editing, which wins
/// over ink, which wins over the laser.
pub open spec fn mode_for(current: InputMode, modes: UiModes) -> InputMode {
    if current == InputMode::JumpToSlide {
        current
    } else if modes.overview_visible {
        InputMode::Overview
    } else if modes.notes_editing {
        InputMode::NotesEdit
    } else if modes.ink_active {
        InputMode::Ink
    } else if modes.laser_active {
        InputMode::Laser
    } else {
        InputMode::Normal
    }
}

/// Syncs the input mode with the presentation state.
pub fn synced_mode(current: InputMode, modes: UiModes) -> (r: InputMode)
    ensures
        r == mode_for(current, modes),
{
    if current == InputMode::JumpToSlide {
        current
    } else if modes.overview_visible {
        InputMode::Overview
    } else if modes.notes_editing {
        InputMode::NotesEdit
    } else if modes.ink_active {
        InputMode::Ink
    } else if modes.laser_active {
        InputMode::Laser
    } else {
        InputMode::Normal
    }
}

// ---------------------------------------------------------------------------
// Key handling
// ---------------------------------------------------------------------------

/// What a key press asks the presentation engine to do.
#[derive(Debug, Clone, Copy, PartialEq, Eq, Structural)]
pub enum KeyCommand {
    /// Show the logical slide with this zero-based index.
    GoToSlide(usize),
    /// Carry out the bound action (for start/pause of the timer: toggle it).
    Run(Action),
}

/// The digit a key types: the number keys are named `num0` to `num9`.
pub open spec fn key_digit(name: Seq<char>) -> Option<char> {
    if name.len() == 4 && name.take(3) == "num"@ && '0' <= name[3] <= '9' {
        Some(name[3])
    } else {
        None
    }
}

/// The zero-based slide that the typed number names, if it is a number.
pub open spec fn jump_target(digits: Seq<char>) -> Option<usize> {
    match parse_usize_spec(digits) {
        Some(n) => Some(if n == 0 {
            0
        } else {
            (n - 1) as usize
        }),
        None => None,
    }
}

/// One key press: the next input mode, the next typed slide number, and the
/// command to send. While a slide number is typed, digits extend it, Enter jumps
/// to it, Escape drops it, and any other key drops it and is then looked up.
pub open spec fn key_outcome(
    mode: InputMode,
    digits: Seq<char>,
    bindings: Seq<(ComboModel, Action)>,
    combo: ComboModel,
) -> (InputMode, Seq<char>, Option<KeyCommand>) {
    let jumping = mode == InputMode::JumpToSlide;
    if jumping && key_digit(combo.0) is Some {
        (mode, digits.push(key_digit(combo.0)->0), None)
    } else if jumping && combo.0 == "Enter"@ {
        (
            InputMode::Normal,
            seq![],
            match jump_target(digits) {
                Some(i) => Some(KeyCommand::GoToSlide(i)),
                None => None,
            },
        )
    } else if jumping && combo.0 == "Escape"@ {
        (InputMode::Normal, seq![], None)
    } else {
        let m = if jumping {
            InputMode::Normal
        } else {
            mode
        };
        let d = if jumping {
            Seq::<char>::empty()
        } else {
            digits
        };
        match lookup_binding(bindings, combo) {
            Some(Action::GoToSlide) => (InputMode::JumpToSlide, seq![], None),
            Some(a) => (m, d, Some(KeyCommand::Run(a))),
            None => (m, d, None),
        }
    }
}

/// A key press while the notes are edited: Escape ends editing, and of the bound
/// actions only saving and leaving the editor are taken.
pub open spec fn notes_key_outcome(bindings: Seq<(ComboModel, Action)>, combo: ComboModel) -> Option<
    KeyCommand,
> {
    if combo.0 == "Escape"@ {
        Some(KeyCommand::Run(Action::ToggleNotesEdit))
    } else {
        match lookup_binding(bindings, combo) {
            Some(Action::SaveSidecar) => Some(KeyCommand::Run(Action::SaveSidecar)),
            Some(Action::ToggleNotesEdit) => Some(KeyCommand::Run(Action::ToggleNotesEdit)),
            _ => None,
        }
    }
}

/// How long, in seconds, a typed slide number waits for Enter.
pub const JUMP_TIMEOUT_SECS: u64 = 3;

/// Whether a slide number typed `elapsed_nanos` ago has waited too long for Enter.
pub fn jump_expired(elapsed_nanos: u128) -> (r: bool)
    ensures
        r == (elapsed_nanos > JUMP_TIMEOUT_SECS * 1_000_000_000),
{
    elapsed_nanos > JUMP_TIMEOUT_SECS as u128 * 1_000_000_000
}

/// The presenter console's key handling: the input mode, and the slide number
/// being typed after a jump-to-slide key.
pub struct InputHandler {
    keybindings: KeybindingMap,
    mode: InputMode,
    jump_buffer: Vec<char>,
    jump_start: Option<Instant>,
}

impl InputHandler {
    /// The input mode.
    pub closed spec fn mode_view(&self) -> InputMode {
        self.mode
    }

    /// The slide number typed so far.
    pub closed spec fn digits_view(&self) -> Seq<char> {
        self.jump_buffer@
    }

    /// Whether the time a slide number started being typed is recorded.
    pub closed spec fn jump_started(&self) -> bool {
        self.jump_start is Some
    }

    /// The bindings keys resolve with.
    pub closed spec fn bindings_view(&self) -> Seq<(ComboModel, Action)> {
        self.keybindings.view()
    }

    /// A handler in normal mode with nothing typed.
    pub fn new(keybindings: KeybindingMap) -> (r: Self)
        ensures
            r.mode_view() == InputMode::Normal,
            r.digits_view() == Seq::<char>::empty(),
            r.bindings_view() == keybindings.view(),
            !r.jump_started(),
    {
        InputHandler { keybindings, mode: InputMode::Normal, jump_buffer: Vec::new(), jump_start: None }
    }

    /// The input mode.
    pub fn mode(&self) -> (r: InputMode)
        ensures
            r == self.mode_view(),
    {
        self.mode
    }

    /// The slide number typed so far.
    pub fn jump_buffer(&self) -> (r: String)
        ensures
            r@ == self.digits_view(),
    {
        string_of(&self.jump_buffer)
    }

    fn cancel_jump(&mut self)
        ensures
            final(self).mode == InputMode::Normal,
            final(self).jump_buffer@ == Seq::<char>::empty(),
            final(self).keybindings == old(self).keybindings,
            final(self).jump_start is None,
    {
        self.mode = InputMode::Normal;
        self.jump_buffer = Vec::new();
        self.jump_start = None;
    }

    /// Once per frame: follow the presentation's modes (unless a slide number
    /// is being typed), and drop a slide number typed too long ago.
    pub fn sync(&mut self, modes: UiModes)
        ensures
            final(self).bindings_view() == old(self).bindings_view(),
            ({
                let m = mode_for(old(self).mode_view(), modes);
                let kept = final(self).mode_view() == m && final(self).digits_view() == old(self).digits_view();
                let dropped = final(self).mode_view() == InputMode::Normal && final(self).digits_view()
                    == Seq::<char>::empty();
                if m == InputMode::JumpToSlide && old(self).jump_started() {
                    (kept && final(self).jump_started()) || (dropped && !final(self).jump_started())
                } else {
                    kept && final(self).jump_started() == old(self).jump_started()
                }
            }),
    {
        self.mode = synced_mode(self.mode, modes);
        if self.mode == InputMode::JumpToSlide {
            let expired = match &self.jump_start {
                Some(start) => jump_expired(elapsed_nanos(start)),
                None => false,
            };
            if expired {
                self.cancel_jump();
            }
        }
    }

    /// Handles a pressed key (see `key_outcome`), returning the command to send.
    pub fn handle_key(&mut self, combo: &KeyCombo) -> (r: Option<KeyCommand>)
        ensures
            (final(self).mode_view(), final(self).digits_view(), r) == key_outcome(
                old(self).mode_view(),
                old(self).digits_view(),
                old(self).bindings_view(),
                combo_model(*combo),
            ),
            final(self).bindings_view() == old(self).bindings_view(),
            final(self).mode_view() == InputMode::JumpToSlide && old(self).mode_view()
                != InputMode::JumpToSlide ==> final(self).jump_started(),
            final(self).mode_view() == InputMode::JumpToSlide && old(self).mode_view()
                == InputMode::JumpToSlide && final(self).digits_view().len() > 0
                ==> final(self).jump_started() == old(self).jump_started(),
            final(self).mode_view() != InputMode::JumpToSlide ==> (if old(self).mode_view()
                == InputMode::JumpToSlide {
                !final(self).jump_started()
            } else {
                final(self).jump_started() == old(self).jump_started()
            }),
    {
        if self.mode == InputMode::JumpToSlide {
            let name = chars_of(combo.key.as_str());
            proof {
                reveal_strlit("num");
            }
            if name.len() == 4 && name[0] == 'n' && name[1] == 'u' && name[2] == 'm' && '0' <= name[3]
                && name[3] <= '9' {
                assert(name@.take(3) =~= "num"@);
                self.jump_buffer.push(name[3]);
                return None;
            }
            assert(key_digit(name@) is None) by {
                if name@.len() == 4 && name@.take(3) == "num"@ {
                    assert(name@.take(3)[0] == name@[0]);
                    assert(name@.take(3)[1] == name@[1]);
                    assert(name@.take(3)[2] == name@[2]);
                }
            }
            if is_word(&name, "Enter") {
                let target = match parse_usize(&self.jump_buffer) {
                    Some(n) => Some(
                        KeyCommand::GoToSlide(
                            if n == 0 {
                                0
                            } else {
                                n - 1
                            },
                        ),
                    ),
                    None => None,
                };
                self.cancel_jump();
                return target;
            }
            if is_word(&name, "Escape") {
                self.cancel_jump();
                return None;
            }
            self.cancel_jump();
        }
        match self.keybindings.lookup(combo) {
            Some(Action::GoToSlide) => {
                self.mode = InputMode::JumpToSlide;
                self.jump_buffer = Vec::new();
                self.jump_start = Some(now());
                None
            },
            Some(action) => Some(KeyCommand::Run(action)),
            None => None,
        }
    }
    /// Handles a key pressed while the notes are edited (see `notes_key_outcome`).
    pub fn handle_notes_editor_key(&self, combo: &KeyCombo) -> (r: Option<KeyCommand>)
        ensures
            r == notes_key_outcome(self.bindings_view(), combo_model(*combo)),
    {
        if is_word(&chars_of(combo.key.as_str()), "Escape") {
            return Some(KeyCommand::Run(Action::ToggleNotesEdit));
        }
        match self.keybindings.lookup(combo) {
            Some(Action::SaveSidecar) => Some(KeyCommand::Run(Action::SaveSidecar)),
            Some(Action::ToggleNotesEdit) => Some(KeyCommand::Run(Action::ToggleNotesEdit)),
            _ => None,
        }
    }
}

/// The state and last command after pressing the keys in order.
pub open spec fn keys_outcome(
    mode: InputMode,
    digits: Seq<char>,
    bindings: Seq<(ComboModel, Action)>,
    keys: Seq<ComboModel>,
) -> (InputMode, Seq<char>, Option<KeyCommand>)
    decreases keys.len(),
{
    if keys.len() == 0 {
        (mode, digits, None)
    } else {
        let p = keys_outcome(mode, digits, bindings, keys.drop_last());
        key_outcome(p.0, p.1, bindings, keys.last())
    }
}

/// The number keys that type `ds`.
pub open spec fn digit_keys(ds: Seq<char>) -> Seq<ComboModel> {
    Seq::new(ds.len(), |i: int| (seq!['n', 'u', 'm', ds[i]], false, false, false))
}

proof fn lemma_typing_digits(bindings: Seq<(ComboModel, Action)>, ds: Seq<char>)
    requires
        forall|i: int| 0 <= i < ds.len() ==> '0' <= #[trigger] ds[i] <= '9',
    ensures
        keys_outcome(InputMode::JumpToSlide, seq![], bindings, digit_keys(ds)) == (
            InputMode::JumpToSlide,
            ds,
            None::<KeyCommand>,
        ),
    decreases ds.len(),
{
    reveal_strlit("num");
    if ds.len() == 0 {
        assert(digit_keys(ds) =~= Seq::<ComboModel>::empty());
        assert(ds =~= Seq::<char>::empty());
    } else {
        let prev = ds.drop_last();
        assert forall|i: int| 0 <= i < prev.len() implies '0' <= #[trigger] prev[i] <= '9' by {
            assert(prev[i] == ds[i]);
        }
        lemma_typing_digits(bindings, prev);
        assert(digit_keys(ds).drop_last() =~= digit_keys(prev));
        let d = ds.last();
        assert('0' <= ds[ds.len() - 1] <= '9');
        let name = seq!['n', 'u', 'm', d];
        assert(name.take(3) =~= "num"@);
        assert(digit_keys(ds).last() == (name, false, false, false));
        assert(key_digit(name) == Some(d));
        assert(prev.push(d) =~= ds);
    }
}

/// Pressing the jump-to-slide key, typing a slide number and pressing Enter
/// shows that slide (numbers count from one; zero shows the first slide); a
/// slide number too large for the machine is dropped.
pub proof fn law_jump_to_typed_slide(
    mode: InputMode,
    digits: Seq<char>,
    bindings: Seq<(ComboModel, Action)>,
    jump_key: ComboModel,
    enter_shift: bool,
    enter_ctrl: bool,
    enter_alt: bool,
    ds: Seq<char>,
)
    requires
        mode != InputMode::JumpToSlide,
        lookup_binding(bindings, jump_key) == Some(Action::GoToSlide),
        forall|i: int| 0 <= i < ds.len() ==> '0' <= #[trigger] ds[i] <= '9',
    ensures
        keys_outcome(
            mode,
            digits,
            bindings,
            seq![jump_key] + digit_keys(ds) + seq![("Enter"@, enter_shift, enter_ctrl, enter_alt)],
        ) == (
            InputMode::Normal,
            Seq::<char>::empty(),
            match jump_target(ds) {
                Some(i) => Some(KeyCommand::GoToSlide(i)),
                None => None,
            },
        ),
{
    reveal_strlit("Enter");
    reveal_strlit("Escape");
    let enter = ("Enter"@, enter_shift, enter_ctrl, enter_alt);
    let keys = seq![jump_key] + digit_keys(ds) + seq![enter];
    lemma_keys_concat(mode, digits, bindings, seq![jump_key], digit_keys(ds));
    assert(seq![jump_key].drop_last() =~= Seq::<ComboModel>::empty());
    assert(keys_outcome(mode, digits, bindings, Seq::<ComboModel>::empty()) == (
        mode,
        digits,
        None::<KeyCommand>,
    ));
    assert(seq![jump_key].last() == jump_key);
    assert(keys_outcome(mode, digits, bindings, seq![jump_key]) == (
        InputMode::JumpToSlide,
        Seq::<char>::empty(),
        None::<KeyCommand>,
    ));
    lemma_typing_digits(bindings, ds);
    if ds.len() == 0 {
        assert(digit_keys(ds) =~= Seq::<ComboModel>::empty());
        assert(ds =~= Seq::<char>::empty());
    }
    assert(keys.drop_last() =~= seq![jump_key] + digit_keys(ds));
    assert(keys.last() == enter);
    assert(key_digit("Enter"@) is None);
}

/// Pressing `a` then `b` from a state is pressing `b` from where `a` left off.
proof fn lemma_keys_concat(
    mode: InputMode,
    digits: Seq<char>,
    bindings: Seq<(ComboModel, Action)>,
    a: Seq<ComboModel>,
    b: Seq<ComboModel>,
)
    ensures
        keys_outcome(mode, digits, bindings, a + b) == ({
            let p = keys_outcome(mode, digits, bindings, a);
            if b.len() == 0 {
                p
            } else {
                keys_outcome(p.0, p.1, bindings, b)
            }
        }),
    decreases b.len(),
{
    if b.len() == 0 {
        assert(a + b =~= a);
    } else {
        lemma_keys_concat(mode, digits, bindings, a, b.drop_last());
        assert((a + b).drop_last() =~= a + b.drop_last());
        assert((a + b).last() == b.last());
        if b.drop_last().len() == 0 {
            assert(b.drop_last() =~= Seq::<ComboModel>::empty());
        }
    }
}

// ---------------------------------------------------------------------------
// Key-test console
// ---------------------------------------------------------------------------

/// The most key events the console keeps.
pub const MAX_EVENTS: usize = 20;

/// A recorded key event with its resolved action (if any).
#[derive(Debug, Clone)]
pub struct KeyEvent {
    pub key_name: String,
    pub modifiers: String,
    pub action: String,
}

/// The modifiers of a key event as shown: held ones joined by `+` in the order
/// Ctrl, Shift, Alt, or `(none)`.
pub open spec fn modifiers_text(ctrl: bool, shift: bool, alt: bool) -> Seq<char> {
    if !ctrl && !shift && !alt {
        "(none)"@
    } else {
        let parts = (if ctrl {
            seq!["Ctrl"@]
        } else {
            seq![]
        }) + (if shift {
            seq!["Shift"@]
        } else {
            seq![]
        }) + (if alt {
            seq!["Alt"@]
        } else {
            seq![]
        });
        joined(parts)
    }
}

/// Words joined with `+`.
pub open spec fn joined(parts: Seq<Seq<char>>) -> Seq<char>
    decreases parts.len(),
{
    if parts.len() == 0 {
        seq![]
    } else if parts.len() == 1 {
        parts[0]
    } else {
        joined(parts.drop_last()) + "+"@ + parts.last()
    }
}

/// Formats held modifiers.
pub fn format_modifiers(ctrl: bool, shift: bool, alt: bool) -> (r: String)
    ensures
        r@ == modifiers_text(ctrl, shift, alt),
{
    if !ctrl && !shift && !alt {
        return "(none)".to_owned();
    }
    let mut out: Vec<char> = Vec::new();
    let ghost mut parts: Seq<Seq<char>> = seq![];
    if ctrl {
        append_str(&mut out, "Ctrl");
        proof {
            parts = parts.push("Ctrl"@);
        }
    }
    if shift {
        if ctrl {
            append_str(&mut out, "+");
        }
        append_str(&mut out, "Shift");
        proof {
            parts = parts.push("Shift"@);
        }
    }
    assert(out@ == joined(parts)) by {
        reveal_with_fuel(joined, 3);
        if ctrl && shift {
            assert(parts.drop_last() =~= seq!["Ctrl"@]);
        }
    }
    if alt {
        if ctrl || shift {
            append_str(&mut out, "+");
        }
        append_str(&mut out, "Alt");
        proof {
            let before = parts;
            parts = parts.push("Alt"@);
            assert(parts.drop_last() =~= before);
            reveal_with_fuel(joined, 2);
        }
    }
    assert(parts =~= (if ctrl {
        seq!["Ctrl"@]
    } else {
        seq![]
    }) + (if shift {
        seq!["Shift"@]
    } else {
        seq![]
    }) + (if alt {
        seq!["Alt"@]
    } else {
        seq![]
    }));
    string_of(&out)
}

/// The key-test console: the keybindings to resolve keys with, and the latest
/// events, newest first.
pub struct TestInputApp {
    keybindings: KeybindingMap,
    events: Vec<KeyEvent>,
}

impl TestInputApp {
    /// The events shown, newest first.
    pub closed spec fn events_view(&self) -> Seq<KeyEvent> {
        self.events@
    }

    /// The bindings keys resolve with.
    pub closed spec fn bindings_view(&self) -> Seq<(crate::keybindings::ComboModel, Action)> {
        self.keybindings.view()
    }

    /// A console with no events yet.
    pub fn new(keybindings: KeybindingMap) -> (r: Self)
        ensures
            r.events_view().len() == 0,
            r.bindings_view() == keybindings.view(),
    {
        TestInputApp { keybindings, events: Vec::new() }
    }

    /// The recorded events, newest first.
    pub fn events(&self) -> (r: &Vec<KeyEvent>)
        ensures
            r@ == self.events_view(),
    {
        &self.events
    }

    /// Records a pressed key: its name, held modifiers, and the action it is bound
    /// to (`(none)` if unbound); only the newest `MAX_EVENTS` are kept.
    pub fn record_key(&mut self, combo: KeyCombo)
        requires
            old(self).events_view().len() <= MAX_EVENTS,
        ensures
            final(self).bindings_view() == old(self).bindings_view(),
            final(self).events_view().len() as int == if old(self).events_view().len() < MAX_EVENTS {
                (old(self).events_view().len() + 1) as int
            } else {
                MAX_EVENTS as int
            },
            final(self).events_view()[0].key_name@ == combo.key@,
            final(self).events_view()[0].modifiers@ == modifiers_text(
                combo.ctrl,
                combo.shift,
                combo.alt,
            ),
            final(self).events_view()[0].action@ == match lookup_binding(
                old(self).bindings_view(),
                combo_model(combo),
            ) {
                Some(a) => action_name(a),
                None => "(none)"@,
            },
            forall|i: int|
                1 <= i < final(self).events_view().len() ==> final(self).events_view()[i]
                    == old(self).events_view()[i - 1],
    {
        let modifiers = format_modifiers(combo.ctrl, combo.shift, combo.alt);
        let action = match self.keybindings.lookup(&combo) {
            Some(a) => a.config_name().to_owned(),
            None => "(none)".to_owned(),
        };
        let event = KeyEvent { key_name: combo.key, modifiers, action };
        self.events.insert(0, event);
        if self.events.len() > MAX_EVENTS {
            self.events.pop();
        }
    }
}

// ---------------------------------------------------------------------------
// Small helpers of the presenter
// ---------------------------------------------------------------------------

/// The toasts announcing the remote control's URLs.
pub fn remote_toasts(urls: Option<&Vec<String>>) -> (r: Vec<String>)
    ensures
        match urls {
            Some(u) => r@.len() == u@.len() && forall|i: int|
                0 <= i < u@.len() ==> (#[trigger] r@[i])@ == "Remote control: "@ + u@[i]@,
            None => r@.len() == 0,
        },
{
    let mut r: Vec<String> = Vec::new();
    match urls {
        Some(u) => {
            let mut i: usize = 0;
            while i < u.len()
                invariant
                    i <= u@.len(),
                    r@.len() == i,
                    forall|j: int|
                        0 <= j < i ==> (#[trigger] r@[j])@ == "Remote control: "@ + u@[j]@,
                decreases u@.len() - i,
            {
                let mut out: Vec<char> = Vec::new();
                append_str(&mut out, "Remote control: ");
                append_str(&mut out, u[i].as_str());
                r.push(string_of(&out));
                i += 1;
            }
        },
        None => {},
    }
    r
}

/// The hash a text box's content is cached under.
pub fn content_hash(content: &str) -> (r: u64)
    ensures
        r == str_hash(content),
{
    hash_str(content)
}

} // verus!
